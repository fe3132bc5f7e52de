//! What a configuration reload changes.
use vstd::prelude::*;

use crate::configure::loader::{listed, Config, GithubAppConfig, Project, TelegramConfig};
use crate::text::{owned, str_eq};

verus! {

/// The kind of a file-system event, as the watcher reports it.
#[derive(Clone, Copy, PartialEq, Eq, Structural, Debug)]
pub enum FsEventKind {
    Any,
    Access,
    Create,
    Modify,
    Remove,
    Other,
}

/// A created, modified or removed file can change the configuration.
pub fn is_relevant(kind: FsEventKind) -> (r: bool)
    ensures
        r == (kind == FsEventKind::Create || kind == FsEventKind::Modify || kind
            == FsEventKind::Remove),
{
    match kind {
        FsEventKind::Create | FsEventKind::Modify | FsEventKind::Remove => true,
        _ => false,
    }
}

/// How long the configuration must stay quiet before it is reloaded, in milliseconds.
pub const DEBOUNCE_MILLIS: u64 = 300;

/// What waiting for the next file event gave.
#[derive(Clone, Copy, PartialEq, Eq, Structural, Debug)]
pub enum WaitOutcome {
    /// Another relevant event came within the quiet time.
    Event,
    /// The watcher stopped sending events.
    Closed,
    /// The quiet time passed without an event.
    TimedOut,
}

/// What the watcher does after a wait.
#[derive(Clone, Copy, PartialEq, Eq, Structural, Debug)]
pub enum DebounceAction {
    /// Wait another quiet time: a burst of events is still coming.
    KeepWaiting,
    /// Stop watching.
    Stop,
    /// Reload the configuration once for the whole burst.
    Reload,
}

/// A burst of events (an editor's write, rename, ...) gives one reload: each event
/// restarts the quiet time, and the reload comes when it passes.
pub fn after_wait(outcome: WaitOutcome) -> (r: DebounceAction)
    ensures
        r == match outcome {
            WaitOutcome::Event => DebounceAction::KeepWaiting,
            WaitOutcome::Closed => DebounceAction::Stop,
            WaitOutcome::TimedOut => DebounceAction::Reload,
        },
{
    match outcome {
        WaitOutcome::Event => DebounceAction::KeepWaiting,
        WaitOutcome::Closed => DebounceAction::Stop,
        WaitOutcome::TimedOut => DebounceAction::Reload,
    }
}

/// What becomes of a running service (the GitHub App client or the Telegram
/// notifier) when the configuration is reloaded.
#[derive(Clone, Copy, PartialEq, Eq, Structural, Debug)]
pub enum ServiceChange {
    /// Its settings are gone: stop it, if one runs.
    Stop,
    /// Its settings did not change: keep the running one.
    Keep,
    /// Its settings are new or changed: stop the running one, if any, and start anew.
    Restart,
}

/// The change for a service whose settings were `last` and are now `new`, `same`
/// telling whether two settings are equal.
pub open spec fn service_change(last_some: bool, new_some: bool, same: bool) -> ServiceChange {
    if !new_some {
        ServiceChange::Stop
    } else if last_some && same {
        ServiceChange::Keep
    } else {
        ServiceChange::Restart
    }
}

/// The webhook paths of `projects` that `others` does not serve, in order.
pub open spec fn paths_not_in(projects: Seq<Project>, others: Seq<Project>) -> Seq<Seq<char>>
    decreases projects.len(),
{
    if projects.len() == 0 {
        Seq::empty()
    } else {
        let rest = paths_not_in(projects.drop_last(), others);
        if listed(others, projects.last().http_path@) {
            rest
        } else {
            rest.push(projects.last().http_path@)
        }
    }
}

/// What a reload changes.
pub struct ReloadPlan {
    pub github_app: ServiceChange,
    pub notifier: ServiceChange,
    /// The webhook paths served from now on that were not served before.
    pub added: Vec<String>,
    /// The webhook paths no longer served.
    pub removed: Vec<String>,
}

fn same_app(last: Option<&GithubAppConfig>, new: &GithubAppConfig) -> (r: bool)
    ensures
        r == match last {
            Some(l) => l.app_id == new.app_id && l.private_key_path@ == new.private_key_path@
                && crate::text::opt_view(l.public_base_url) == crate::text::opt_view(
                new.public_base_url,
            ),
            None => false,
        },
{
    match last {
        Some(l) => l.same_as(new),
        None => false,
    }
}

fn same_telegram(last: Option<&TelegramConfig>, new: &TelegramConfig) -> (r: bool)
    ensures
        r == match last {
            Some(l) => l.bot_token@ == new.bot_token@ && crate::text::opt_view(l.api_server)
                == crate::text::opt_view(new.api_server) && l.send_to@ == new.send_to@,
            None => false,
        },
{
    match last {
        Some(l) => l.same_as(new),
        None => false,
    }
}

fn serves(projects: &[Project], path: &str) -> (r: bool)
    ensures
        r == listed(projects@, path@),
{
    let mut i: usize = 0;
    while i < projects.len()
        invariant
            i <= projects@.len(),
            forall|k: int| 0 <= k < i ==> #[trigger] projects@[k].http_path@ != path@,
        decreases projects@.len() - i,
    {
        if str_eq(projects[i].http_path.as_str(), path) {
            return true;
        }
        i = i + 1;
    }
    false
}

/// The webhook paths of `projects` that `others` does not serve.
fn new_paths(projects: &[Project], others: &[Project]) -> (r: Vec<String>)
    ensures
        r@.map_values(|s: String| s@) == paths_not_in(projects@, others@),
{
    let mut out: Vec<String> = Vec::new();
    let mut i: usize = 0;
    while i < projects.len()
        invariant
            i <= projects@.len(),
            out@.map_values(|s: String| s@) == paths_not_in(projects@.take(i as int), others@),
        decreases projects@.len() - i,
    {
        proof {
            assert(projects@.take(i + 1).drop_last() =~= projects@.take(i as int));
        }
        if !serves(others, projects[i].http_path.as_str()) {
            out.push(owned(projects[i].http_path.as_str()));
        }
        i = i + 1;
        proof {
            assert(out@.map_values(|s: String| s@) =~= paths_not_in(
                projects@.take(i as int),
                others@,
            ));
        }
    }
    proof {
        assert(projects@.take(projects@.len() as int) =~= projects@);
    }
    out
}

/// Plans the reload from the configuration in effect, `last`, to `new`.
pub fn plan_reload(last: &Config, new: &Config) -> (r: ReloadPlan)
    ensures
        r.github_app == service_change(
            last.github_app is Some,
            new.github_app is Some,
            match (last.github_app, new.github_app) {
                (Some(l), Some(n)) => l.app_id == n.app_id && l.private_key_path@
                    == n.private_key_path@ && crate::text::opt_view(l.public_base_url)
                    == crate::text::opt_view(n.public_base_url),
                _ => false,
            },
        ),
        r.notifier == service_change(
            last.telegram is Some,
            new.telegram is Some,
            match (last.telegram, new.telegram) {
                (Some(l), Some(n)) => l.bot_token@ == n.bot_token@ && crate::text::opt_view(
                    l.api_server,
                ) == crate::text::opt_view(n.api_server) && l.send_to@ == n.send_to@,
                _ => false,
            },
        ),
        r.added@.map_values(|s: String| s@) == paths_not_in(new.projects@, last.projects@),
        r.removed@.map_values(|s: String| s@) == paths_not_in(last.projects@, new.projects@),
{
    let github_app = match new.github_app() {
        None => ServiceChange::Stop,
        Some(g) => if same_app(last.github_app(), g) {
            ServiceChange::Keep
        } else {
            ServiceChange::Restart
        },
    };
    let notifier = match new.telegram() {
        None => ServiceChange::Stop,
        Some(t) => if same_telegram(last.telegram(), t) {
            ServiceChange::Keep
        } else {
            ServiceChange::Restart
        },
    };
    let added = new_paths(new.projects(), last.projects());
    let removed = new_paths(last.projects(), new.projects());
    ReloadPlan { github_app, notifier, added, removed }
}

/// A reload to the very same configuration keeps both services and changes no
/// project.
pub proof fn lemma_reload_same_keeps(c: Config)
    ensures
        c.github_app is Some ==> service_change(true, true, match (c.github_app, c.github_app) {
            (Some(l), Some(n)) => l.app_id == n.app_id && l.private_key_path@ == n.private_key_path@
                && crate::text::opt_view(l.public_base_url) == crate::text::opt_view(
                n.public_base_url,
            ),
            _ => false,
        }) == ServiceChange::Keep,
        paths_not_in(c.projects@, c.projects@).len() == 0,
{
    lemma_none_new(c.projects@, c.projects@);
}

proof fn lemma_none_new(projects: Seq<Project>, others: Seq<Project>)
    requires
        forall|i: int| 0 <= i < projects.len() ==> listed(others, #[trigger] projects[i].http_path@),
    ensures
        paths_not_in(projects, others).len() == 0,
    decreases projects.len(),
{
    if projects.len() > 0 {
        assert forall|i: int| 0 <= i < projects.drop_last().len() implies listed(
            others,
            #[trigger] projects.drop_last()[i].http_path@,
        ) by {
            assert(projects.drop_last()[i] == projects[i]);
        }
        lemma_none_new(projects.drop_last(), others);
        assert(listed(others, projects[projects.len() - 1].http_path@));
    }
}

} // verus!

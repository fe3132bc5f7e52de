//! What startup and a reload do for each project: make its working directory
//! exist, and point its repository's webhook at this service.
use vstd::prelude::*;

use crate::configure::loader::{Config, Project, ProjectAuth};
use crate::text::{chars_of, opt_view, push_str, string_from};

verus! {

/// What is done to make a project's working directory exist.
#[derive(Clone, Copy, PartialEq, Eq, Structural, Debug)]
pub enum BootstrapAction {
    /// It exists already.
    Nothing,
    /// No repository is configured: create the directory.
    CreateDir,
    /// Clone over SSH, without a token.
    CloneWithoutToken,
    /// Clone with an installation token of the GitHub App.
    CloneWithAppToken,
    /// The project authenticates as a GitHub App, but none is configured.
    MissingApp,
}

/// Chooses the action for a project; `exists` when its working directory exists,
/// `has_app` when a GitHub App client is configured.
pub open spec fn bootstrap_action_of(p: Project, exists: bool, has_app: bool) -> BootstrapAction {
    if exists {
        BootstrapAction::Nothing
    } else if p.git_url is None {
        BootstrapAction::CreateDir
    } else {
        match p.auth {
            ProjectAuth::Ssh => BootstrapAction::CloneWithoutToken,
            ProjectAuth::GithubApp { .. } => if has_app {
                BootstrapAction::CloneWithAppToken
            } else {
                BootstrapAction::MissingApp
            },
        }
    }
}

/// The action that makes `project`'s working directory exist.
pub fn bootstrap_action(project: &Project, exists: bool, has_app: bool) -> (r: BootstrapAction)
    ensures
        r == bootstrap_action_of(*project, exists, has_app),
{
    if exists {
        return BootstrapAction::Nothing;
    }
    if project.git_url.is_none() {
        return BootstrapAction::CreateDir;
    }
    match &project.auth {
        ProjectAuth::Ssh => BootstrapAction::CloneWithoutToken,
        ProjectAuth::GithubApp { .. } => if has_app {
            BootstrapAction::CloneWithAppToken
        } else {
            BootstrapAction::MissingApp
        },
    }
}

/// `s` without its trailing `/` characters.
pub open spec fn trim_slashes(s: Seq<char>) -> Seq<char>
    decreases s.len(),
{
    if s.len() > 0 && s.last() == '/' {
        trim_slashes(s.drop_last())
    } else {
        s
    }
}

/// The URL of a project's webhook: the public base URL without trailing slashes,
/// then the project's webhook path.
pub open spec fn webhook_url_of(base: Seq<char>, http_path: Seq<char>) -> Seq<char> {
    trim_slashes(base) + http_path
}

/// The URL a repository's webhook points at.
pub fn webhook_url(base: &str, http_path: &str) -> (r: String)
    ensures
        r@ == webhook_url_of(base@, http_path@),
{
    let v = chars_of(base);
    let mut n: usize = v.len();
    proof {
        assert(v@.take(n as int) =~= v@);
    }
    while n > 0 && v[n - 1] == '/'
        invariant
            n <= v@.len(),
            trim_slashes(v@.take(n as int)) == trim_slashes(v@),
        decreases n,
    {
        proof {
            assert(v@.take(n as int).drop_last() =~= v@.take(n - 1));
        }
        n = n - 1;
    }
    let mut out = string_from(vstd::slice::slice_subrange(v.as_slice(), 0, n));
    proof {
        assert(v@.subrange(0, n as int) =~= v@.take(n as int));
    }
    push_str(&mut out, http_path);
    out
}

/// The projects whose webhook is managed, with the URL it points at: those that
/// authenticate as a GitHub App, when a public base URL is configured.
pub open spec fn webhook_targets_of(c: Config) -> Seq<(int, Seq<char>)> {
    match c.github_app {
        Some(g) => match opt_view(g.public_base_url) {
            Some(base) => targets_from(c.projects@, base, c.projects@.len() as int),
            None => Seq::empty(),
        },
        None => Seq::empty(),
    }
}

/// The targets among the first `n` projects.
pub open spec fn targets_from(projects: Seq<Project>, base: Seq<char>, n: int) -> Seq<(int, Seq<char>)>
    decreases n,
{
    if n <= 0 {
        Seq::empty()
    } else {
        let rest = targets_from(projects, base, n - 1);
        if projects[n - 1].auth is GithubApp {
            rest.push((n - 1, webhook_url_of(base, projects[n - 1].http_path@)))
        } else {
            rest
        }
    }
}

/// Lists each project whose webhook is managed, by index, with the webhook URL.
pub fn webhook_targets(config: &Config) -> (r: Vec<(usize, String)>)
    ensures
        r@.map_values(|t: (usize, String)| (t.0 as int, t.1@)) == webhook_targets_of(*config),
{
    let mut out: Vec<(usize, String)> = Vec::new();
    let base = match &config.github_app {
        Some(g) => match &g.public_base_url {
            Some(b) => b,
            None => {
                proof {
                    assert(out@.map_values(|t: (usize, String)| (t.0 as int, t.1@)) =~= Seq::empty());
                }
                return out;
            },
        },
        None => {
            proof {
                assert(out@.map_values(|t: (usize, String)| (t.0 as int, t.1@)) =~= Seq::empty());
            }
            return out;
        },
    };
    let mut i: usize = 0;
    while i < config.projects.len()
        invariant
            i <= config.projects@.len(),
            out@.map_values(|t: (usize, String)| (t.0 as int, t.1@)) == targets_from(
                config.projects@,
                base@,
                i as int,
            ),
        decreases config.projects@.len() - i,
    {
        if config.projects[i].auth.is_github_app() {
            let url = webhook_url(base.as_str(), config.projects[i].http_path.as_str());
            out.push((i, url));
        }
        i = i + 1;
        proof {
            assert(out@.map_values(|t: (usize, String)| (t.0 as int, t.1@)) =~= targets_from(
                config.projects@,
                base@,
                i as int,
            ));
        }
    }
    out
}

} // verus!

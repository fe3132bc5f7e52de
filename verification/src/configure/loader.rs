//! The configuration as the server uses it: every project's settings merged with
//! its `deploy.toml`, its commands resolved and its authentication checked.
use vstd::prelude::*;
use vstd::relations::injective_on;
use vstd::set_lib::{lemma_int_range, lemma_map_size, set_int_range};

use super::types::{
    command_texts, expand_spec, field_text, lemma_plain_text_unchanged, opt_str_view, parse_send_to, resolved, resolved_pull, send_to_spec,
    text_or, FilterMode, TomlAuthMode, TomlCommands, TomlCommitFilter, TomlCommitVerify, TomlConfig,
    TomlProject, TomlProjectAuth, TomlProjectOverride, DEFAULT_LOG_KEEP_DAYS, DEFAULT_TIMEOUT_SECS,
};
use crate::text::{
    owned, owned_opt, owned_vec, opt_view, push_str, to_lowercase, unicode_lowercase, views,
};

verus! {

/// The lower-cased texts, element by element.
pub open spec fn lowercased(v: Seq<String>) -> Seq<Seq<char>> {
    v.map_values(|s: String| unicode_lowercase(s@))
}

fn lowercase_all(v: &[String]) -> (r: Vec<String>)
    ensures
        views(r@) == lowercased(v@),
{
    let mut r: Vec<String> = Vec::new();
    let mut i: usize = 0;
    while i < v.len()
        invariant
            i <= v@.len(),
            r@.len() == i,
            forall|k: int| 0 <= k < i ==> #[trigger] r@[k]@ == unicode_lowercase(v@[k]@),
        decreases v@.len() - i,
    {
        r.push(to_lowercase(v[i].as_str()));
        i = i + 1;
    }
    proof {
        assert(views(r@) =~= lowercased(v@));
    }
    r
}

/// A commit filter of a project.
pub struct CommitFilter {
    pub mode: FilterMode,
    pub globs: Vec<String>,
    pub message_patterns: Vec<String>,
}

/// Whether `f` holds what the configured filter `t` says.
pub open spec fn filter_from(f: CommitFilter, t: TomlCommitFilter) -> bool {
    &&& f.mode == t.mode
    &&& views(f.globs@) == views(t.globs@)
    &&& views(f.message_patterns@) == views(t.message_patterns@)
}

impl CommitFilter {
    pub fn from_toml(t: &TomlCommitFilter) -> (r: CommitFilter)
        ensures
            filter_from(r, *t),
    {
        CommitFilter {
            mode: t.mode,
            globs: owned_vec(&t.globs),
            message_patterns: owned_vec(&t.message_patterns),
        }
    }

    pub fn mode(&self) -> (r: FilterMode)
        ensures
            r == self.mode,
    {
        self.mode
    }

    pub fn globs(&self) -> (r: &[String])
        ensures
            r@ == self.globs@,
    {
        self.globs.as_slice()
    }

    pub fn message_patterns(&self) -> (r: &[String])
        ensures
            r@ == self.message_patterns@,
    {
        self.message_patterns.as_slice()
    }
}

/// Who may push commits that get deployed. Allowed authors are held lower-cased.
pub struct CommitVerify {
    pub allowed_authors: Vec<String>,
    pub require_signed: bool,
}

/// Whether `v` holds what the configured verification `t` says.
pub open spec fn verify_from(v: CommitVerify, t: TomlCommitVerify) -> bool {
    &&& views(v.allowed_authors@) == lowercased(t.allowed_authors@)
    &&& v.require_signed == (t.require_signed == Some(true))
}

impl CommitVerify {
    pub fn from_toml(t: &TomlCommitVerify) -> (r: CommitVerify)
        ensures
            verify_from(r, *t),
    {
        CommitVerify {
            allowed_authors: lowercase_all(t.allowed_authors.as_slice()),
            require_signed: t.require_signed(),
        }
    }

    /// A verification setting with the given allowlist (lower-cased here).
    pub fn for_test(allowed_authors: Vec<String>, require_signed: bool) -> (r: CommitVerify)
        ensures
            views(r.allowed_authors@) == lowercased(allowed_authors@),
            r.require_signed == require_signed,
    {
        CommitVerify { allowed_authors: lowercase_all(allowed_authors.as_slice()), require_signed }
    }

    pub fn allowed_authors(&self) -> (r: &[String])
        ensures
            r@ == self.allowed_authors@,
    {
        self.allowed_authors.as_slice()
    }

    pub fn require_signed(&self) -> (r: bool)
        ensures
            r == self.require_signed,
    {
        self.require_signed
    }
}

/// The commands a deploy runs, references already expanded.
pub struct Commands {
    pub stop: Option<String>,
    pub pull: Option<String>,
    pub init: Option<String>,
    pub update: Option<String>,
    pub start: Option<String>,
    pub restart: Option<String>,
}

/// Whether `c` holds the resolved commands of the command texts `t`.
pub open spec fn commands_from(c: Commands, t: Seq<Option<Seq<char>>>, no_pull: Option<bool>) -> bool {
    &&& opt_view(c.stop) == resolved(t, field_text(t, 0))
    &&& opt_view(c.pull) == resolved_pull(t, no_pull)
    &&& opt_view(c.init) == resolved(t, field_text(t, 2))
    &&& opt_view(c.update) == resolved(t, field_text(t, 3))
    &&& opt_view(c.start) == resolved(t, field_text(t, 4))
    &&& opt_view(c.restart) == resolved(t, field_text(t, 5))
}

fn as_str_opt(s: &Option<String>) -> (r: Option<&str>)
    ensures
        opt_str_view(r) == opt_view(*s),
{
    match s {
        Some(t) => Some(t.as_str()),
        None => None,
    }
}

impl Commands {
    pub fn from_toml(t: &TomlCommands) -> (r: Commands)
        ensures
            commands_from(r, command_texts(*t), t.no_pull),
    {
        Commands {
            stop: t.stop(),
            pull: t.pull(),
            init: t.init(),
            update: t.update(),
            start: t.start(),
            restart: t.restart(),
        }
    }

    pub fn stop(&self) -> (r: Option<&str>)
        ensures
            opt_str_view(r) == opt_view(self.stop),
    {
        as_str_opt(&self.stop)
    }

    pub fn pull(&self) -> (r: Option<&str>)
        ensures
            opt_str_view(r) == opt_view(self.pull),
    {
        as_str_opt(&self.pull)
    }

    pub fn init(&self) -> (r: Option<&str>)
        ensures
            opt_str_view(r) == opt_view(self.init),
    {
        as_str_opt(&self.init)
    }

    pub fn update(&self) -> (r: Option<&str>)
        ensures
            opt_str_view(r) == opt_view(self.update),
    {
        as_str_opt(&self.update)
    }

    pub fn start(&self) -> (r: Option<&str>)
        ensures
            opt_str_view(r) == opt_view(self.start),
    {
        as_str_opt(&self.start)
    }

    pub fn restart(&self) -> (r: Option<&str>)
        ensures
            opt_str_view(r) == opt_view(self.restart),
    {
        as_str_opt(&self.restart)
    }
}

/// How a project authenticates its pull.
pub enum ProjectAuth {
    Ssh,
    GithubApp { owner: String, repo: String },
}

/// Why an `auth` table cannot be used.
#[derive(Clone, Copy, PartialEq, Eq, Structural, Debug)]
pub enum AuthError {
    /// `mode = "github_app"` without `owner`.
    MissingOwner,
    /// `mode = "github_app"` with `owner` but without `repo`.
    MissingRepo,
}

/// The outcome of reading an `auth` table.
pub open spec fn auth_spec(t: TomlProjectAuth) -> Result<(), AuthError> {
    match t.mode {
        TomlAuthMode::Ssh => Ok(()),
        TomlAuthMode::GithubApp => if t.owner is None {
            Err(AuthError::MissingOwner)
        } else if t.repo is None {
            Err(AuthError::MissingRepo)
        } else {
            Ok(())
        },
    }
}

/// Whether `a` is the authentication that the table `t` describes.
pub open spec fn auth_from(a: ProjectAuth, t: TomlProjectAuth) -> bool {
    match t.mode {
        TomlAuthMode::Ssh => a is Ssh,
        TomlAuthMode::GithubApp => match a {
            ProjectAuth::GithubApp { owner, repo } => Some(owner@) == opt_view(t.owner) && Some(
                repo@,
            ) == opt_view(t.repo),
            ProjectAuth::Ssh => false,
        },
    }
}

impl ProjectAuth {
    /// The authentication an `auth` table describes; `github_app` needs both
    /// `owner` and `repo`.
    pub fn try_from_toml(t: &TomlProjectAuth) -> (r: Result<ProjectAuth, AuthError>)
        ensures
            match r {
                Ok(a) => auth_spec(*t) is Ok && auth_from(a, *t),
                Err(e) => auth_spec(*t) == Err::<(), AuthError>(e),
            },
    {
        match t.mode {
            TomlAuthMode::Ssh => Ok(ProjectAuth::Ssh),
            TomlAuthMode::GithubApp => {
                let owner = match &t.owner {
                    Some(o) => owned(o.as_str()),
                    None => {
                        return Err(AuthError::MissingOwner);
                    },
                };
                let repo = match &t.repo {
                    Some(r) => owned(r.as_str()),
                    None => {
                        return Err(AuthError::MissingRepo);
                    },
                };
                Ok(ProjectAuth::GithubApp { owner, repo })
            },
        }
    }

    /// Whether this project authenticates through the GitHub App.
    pub fn is_github_app(&self) -> (r: bool)
        ensures
            r == (*self is GithubApp),
    {
        match self {
            ProjectAuth::GithubApp { .. } => true,
            ProjectAuth::Ssh => false,
        }
    }
}

/// The `[github_app]` settings.
pub struct GithubAppConfig {
    pub app_id: u64,
    pub private_key_path: String,
    pub public_base_url: Option<String>,
}

impl GithubAppConfig {
    pub fn app_id(&self) -> (r: u64)
        ensures
            r == self.app_id,
    {
        self.app_id
    }

    pub fn private_key_path(&self) -> (r: &str)
        ensures
            r@ == self.private_key_path@,
    {
        self.private_key_path.as_str()
    }

    pub fn public_base_url(&self) -> (r: Option<&str>)
        ensures
            opt_str_view(r) == opt_view(self.public_base_url),
    {
        as_str_opt(&self.public_base_url)
    }

    /// Whether the two settings are the same.
    pub fn same_as(&self, other: &GithubAppConfig) -> (r: bool)
        ensures
            r == (self.app_id == other.app_id && self.private_key_path@ == other.private_key_path@
                && opt_view(self.public_base_url) == opt_view(other.public_base_url)),
    {
        self.app_id == other.app_id && crate::text::str_eq(
            self.private_key_path.as_str(),
            other.private_key_path.as_str(),
        ) && opt_str_eq(&self.public_base_url, &other.public_base_url)
    }
}

fn opt_str_eq(a: &Option<String>, b: &Option<String>) -> (r: bool)
    ensures
        r == (opt_view(*a) == opt_view(*b)),
{
    match (a, b) {
        (Some(x), Some(y)) => crate::text::str_eq(x.as_str(), y.as_str()),
        (None, None) => true,
        _ => false,
    }
}

/// A project as the server deploys it.
pub struct Project {
    pub name: String,
    pub http_path: String,
    pub working_dir: String,
    pub git_url: Option<String>,
    pub secret: String,
    pub branch: String,
    /// The command timeout, in seconds.
    pub effective_timeout: u64,
    pub bypass: bool,
    pub commit_filter: Option<CommitFilter>,
    pub commit_verify: Option<CommitVerify>,
    pub commands: Commands,
    pub auth: ProjectAuth,
}

impl Project {
    pub fn name(&self) -> (r: &str)
        ensures
            r@ == self.name@,
    {
        self.name.as_str()
    }

    /// The path the project's webhook is served at: `/webhook/<name>`.
    pub fn http_path(&self) -> (r: &str)
        ensures
            r@ == self.http_path@,
    {
        self.http_path.as_str()
    }

    pub fn working_dir(&self) -> (r: &str)
        ensures
            r@ == self.working_dir@,
    {
        self.working_dir.as_str()
    }

    /// Clone URL used to bootstrap `working_dir` if it doesn't exist yet.
    pub fn git_url(&self) -> (r: Option<&str>)
        ensures
            opt_str_view(r) == opt_view(self.git_url),
    {
        as_str_opt(&self.git_url)
    }

    pub fn secret(&self) -> (r: &str)
        ensures
            r@ == self.secret@,
    {
        self.secret.as_str()
    }

    pub fn branch(&self) -> (r: &str)
        ensures
            r@ == self.branch@,
    {
        self.branch.as_str()
    }

    /// The command timeout, in seconds.
    pub fn effective_timeout(&self) -> (r: u64)
        ensures
            r == self.effective_timeout,
    {
        self.effective_timeout
    }

    pub fn bypass(&self) -> (r: bool)
        ensures
            r == self.bypass,
    {
        self.bypass
    }

    pub fn commit_filter(&self) -> (r: Option<&CommitFilter>)
        ensures
            r == match self.commit_filter {
                Some(t) => Some(&t),
                None => None::<&CommitFilter>,
            },
    {
        self.commit_filter.as_ref()
    }

    pub fn commit_verify(&self) -> (r: Option<&CommitVerify>)
        ensures
            r == match self.commit_verify {
                Some(t) => Some(&t),
                None => None::<&CommitVerify>,
            },
    {
        self.commit_verify.as_ref()
    }

    pub fn commands(&self) -> (r: &Commands)
        ensures
            *r == self.commands,
    {
        &self.commands
    }

    pub fn auth(&self) -> (r: &ProjectAuth)
        ensures
            *r == self.auth,
    {
        &self.auth
    }
}

/// The `[telegram]` settings, chat IDs read.
pub struct TelegramConfig {
    pub bot_token: String,
    pub api_server: Option<String>,
    pub send_to: Vec<i64>,
}

impl TelegramConfig {
    pub fn bot_token(&self) -> (r: &str)
        ensures
            r@ == self.bot_token@,
    {
        self.bot_token.as_str()
    }

    pub fn api_server(&self) -> (r: Option<&str>)
        ensures
            opt_str_view(r) == opt_view(self.api_server),
    {
        as_str_opt(&self.api_server)
    }

    pub fn send_to(&self) -> (r: &[i64])
        ensures
            r@ == self.send_to@,
    {
        self.send_to.as_slice()
    }

    /// Whether the two settings are the same.
    pub fn same_as(&self, other: &TelegramConfig) -> (r: bool)
        ensures
            r == (self.bot_token@ == other.bot_token@ && opt_view(self.api_server) == opt_view(
                other.api_server,
            ) && self.send_to@ == other.send_to@),
    {
        if !crate::text::str_eq(self.bot_token.as_str(), other.bot_token.as_str()) {
            return false;
        }
        if !opt_str_eq(&self.api_server, &other.api_server) {
            return false;
        }
        if self.send_to.len() != other.send_to.len() {
            return false;
        }
        let mut i: usize = 0;
        while i < self.send_to.len()
            invariant
                i <= self.send_to@.len(),
                self.send_to@.len() == other.send_to@.len(),
                forall|k: int| 0 <= k < i ==> self.send_to@[k] == other.send_to@[k],
            decreases self.send_to@.len() - i,
        {
            if self.send_to[i] != other.send_to[i] {
                return false;
            }
            i = i + 1;
        }
        assert(self.send_to@ =~= other.send_to@);
        true
    }
}

/// The whole configuration.
pub struct Config {
    pub bind: String,
    pub log_dir: String,
    /// The default command timeout, in seconds.
    pub default_timeout: u64,
    pub log_keep_days: u64,
    pub state_file: String,
    pub shell: String,
    pub telegram: Option<TelegramConfig>,
    pub github_app: Option<GithubAppConfig>,
    /// The projects, each under a distinct `http_path`.
    pub projects: Vec<Project>,
}

impl Config {
    pub fn bind(&self) -> (r: &str)
        ensures
            r@ == self.bind@,
    {
        self.bind.as_str()
    }

    pub fn log_dir(&self) -> (r: &str)
        ensures
            r@ == self.log_dir@,
    {
        self.log_dir.as_str()
    }

    /// The default command timeout, in seconds.
    pub fn default_timeout(&self) -> (r: u64)
        ensures
            r == self.default_timeout,
    {
        self.default_timeout
    }

    pub fn log_keep_days(&self) -> (r: u64)
        ensures
            r == self.log_keep_days,
    {
        self.log_keep_days
    }

    pub fn state_file(&self) -> (r: &str)
        ensures
            r@ == self.state_file@,
    {
        self.state_file.as_str()
    }

    pub fn shell(&self) -> (r: &str)
        ensures
            r@ == self.shell@,
    {
        self.shell.as_str()
    }

    pub fn telegram(&self) -> (r: Option<&TelegramConfig>)
        ensures
            r == match self.telegram {
                Some(t) => Some(&t),
                None => None::<&TelegramConfig>,
            },
    {
        self.telegram.as_ref()
    }

    pub fn github_app(&self) -> (r: Option<&GithubAppConfig>)
        ensures
            r == match self.github_app {
                Some(t) => Some(&t),
                None => None::<&GithubAppConfig>,
            },
    {
        self.github_app.as_ref()
    }

    pub fn projects(&self) -> (r: &[Project])
        ensures
            r@ == self.projects@,
    {
        self.projects.as_slice()
    }

    /// The project served at `path`, if there is one.
    pub fn project_at(&self, path: &str) -> (r: Option<usize>)
        ensures
            match r {
                Some(i) => first_at(self.projects@, path@, i as int),
                None => forall|i: int|
                    0 <= i < self.projects@.len() ==> #[trigger] self.projects@[i].http_path@
                        != path@,
            },
    {
        let mut i: usize = 0;
        while i < self.projects.len()
            invariant
                i <= self.projects@.len(),
                forall|k: int| 0 <= k < i ==> #[trigger] self.projects@[k].http_path@ != path@,
            decreases self.projects@.len() - i,
        {
            if crate::text::str_eq(self.projects[i].http_path.as_str(), path) {
                return Some(i);
            }
            i = i + 1;
        }
        None
    }
}


/// Whether `i` is the first of `projects` served at `path`.
pub open spec fn first_at(projects: Seq<Project>, path: Seq<char>, i: int) -> bool {
    &&& 0 <= i < projects.len()
    &&& projects[i].http_path@ == path
    &&& forall|k: int| 0 <= k < i ==> #[trigger] projects[k].http_path@ != path
}

/// The first of `projects` served at `path`, if any is.
pub open spec fn project_for(projects: Seq<Project>, path: Seq<char>) -> Option<int> {
    if exists|i: int| first_at(projects, path, i) {
        Some(choose|i: int| first_at(projects, path, i))
    } else {
        None
    }
}

/// Only one project is the first served at a path.
pub proof fn lemma_first_at_unique(projects: Seq<Project>, path: Seq<char>, i: int, j: int)
    requires
        first_at(projects, path, i),
        first_at(projects, path, j),
    ensures
        i == j,
{
    if i < j {
        assert(projects[i].http_path@ != path);
    } else if j < i {
        assert(projects[j].http_path@ != path);
    }
}

/// The prefix of every project's webhook path.
pub const WEBHOOK_PREFIX: &'static str = "/webhook/";

/// The webhook path of a project named `name`.
pub open spec fn webhook_path(name: Seq<char>) -> Seq<char> {
    WEBHOOK_PREFIX@ + name
}

/// Why a configuration cannot be used.
pub enum ConfigError {
    /// The project's `auth` table cannot be used.
    InvalidAuth { project: String, error: AuthError },
    /// The project authenticates through the GitHub App but there is no `[github_app]`.
    GithubAppMissing { project: String },
}

impl AuthError {
    /// What the `auth` table lacks.
    pub fn message(&self) -> (r: &'static str)
        ensures
            r@ == match *self {
                AuthError::MissingOwner => "auth.mode = \"github_app\" requires auth.owner"@,
                AuthError::MissingRepo => "auth.mode = \"github_app\" requires auth.repo"@,
            },
    {
        match self {
            AuthError::MissingOwner => "auth.mode = \"github_app\" requires auth.owner",
            AuthError::MissingRepo => "auth.mode = \"github_app\" requires auth.repo",
        }
    }
}

impl ConfigError {
    /// The message that reports the error; for an invalid `auth` table, its cause is
    /// `AuthError::message`.
    pub fn message(&self) -> (r: String)
        ensures
            r@ == match *self {
                ConfigError::InvalidAuth { project, .. } => "Invalid auth config for project "@
                    + project@,
                ConfigError::GithubAppMissing { project } => "Project "@ + project@
                    + " uses auth.mode = \"github_app\" but no [github_app] config is present"@,
            },
    {
        match self {
            ConfigError::InvalidAuth { project, .. } => {
                let mut m = crate::text::owned("Invalid auth config for project ");
                crate::text::push_str(&mut m, project.as_str());
                m
            },
            ConfigError::GithubAppMissing { project } => {
                let mut m = crate::text::owned("Project ");
                crate::text::push_str(&mut m, project.as_str());
                crate::text::push_str(
                    &mut m,
                    " uses auth.mode = \"github_app\" but no [github_app] config is present",
                );
                m
            },
        }
    }
}

/// Command texts overridden field by field by those set in `other`.
pub open spec fn merge_texts(base: Seq<Option<Seq<char>>>, other: Seq<Option<Seq<char>>>) -> Seq<
    Option<Seq<char>>,
> {
    Seq::new(6, |k: int| if other[k] is Some { other[k] } else { base[k] })
}

/// The `deploy.toml` of project `i`, when the project asks for one.
pub open spec fn override_of(
    toml: TomlConfig,
    overrides: Seq<Option<TomlProjectOverride>>,
    i: int,
) -> Option<TomlProjectOverride> {
    if toml.projects@[i].deploy_toml == Some(true) {
        overrides[i]
    } else {
        None
    }
}

/// The command texts of a project, `deploy.toml` merged in.
pub open spec fn eff_texts(tp: TomlProject, ov: Option<TomlProjectOverride>) -> Seq<
    Option<Seq<char>>,
> {
    match ov {
        Some(o) => match o.commands {
            Some(c) => merge_texts(command_texts(tp.commands), command_texts(c)),
            None => command_texts(tp.commands),
        },
        None => command_texts(tp.commands),
    }
}

/// `no_pull` of a project, `deploy.toml` merged in.
pub open spec fn eff_no_pull(tp: TomlProject, ov: Option<TomlProjectOverride>) -> Option<bool> {
    match ov {
        Some(o) => match o.commands {
            Some(c) => if c.no_pull is Some {
                c.no_pull
            } else {
                tp.commands.no_pull
            },
            None => tp.commands.no_pull,
        },
        None => tp.commands.no_pull,
    }
}

/// The branch of a project, `deploy.toml` first.
pub open spec fn eff_branch(tp: TomlProject, ov: Option<TomlProjectOverride>) -> Seq<char> {
    match ov {
        Some(o) => match o.branch {
            Some(b) => b@,
            None => tp.branch@,
        },
        None => tp.branch@,
    }
}

/// The command timeout of a project in seconds: `deploy.toml`, then the
/// project, then the configured default.
pub open spec fn eff_timeout(tp: TomlProject, ov: Option<TomlProjectOverride>, default: u64) -> u64 {
    let t = match ov {
        Some(o) => if o.timeout is Some {
            o.timeout
        } else {
            tp.timeout
        },
        None => tp.timeout,
    };
    match t {
        Some(x) => x,
        None => default,
    }
}

/// Whether a project's deploys are skipped, `deploy.toml` first.
pub open spec fn eff_bypass(tp: TomlProject, ov: Option<TomlProjectOverride>) -> bool {
    match ov {
        Some(o) => match o.bypass {
            Some(b) => b,
            None => tp.bypass == Some(true),
        },
        None => tp.bypass == Some(true),
    }
}

/// The commit filter of a project, `deploy.toml` first.
pub open spec fn eff_filter(tp: TomlProject, ov: Option<TomlProjectOverride>) -> Option<
    TomlCommitFilter,
> {
    match ov {
        Some(o) => if o.commit_filter is Some {
            o.commit_filter
        } else {
            tp.commit_filter
        },
        None => tp.commit_filter,
    }
}

/// The commit verification of a project, `deploy.toml` first.
pub open spec fn eff_verify(tp: TomlProject, ov: Option<TomlProjectOverride>) -> Option<
    TomlCommitVerify,
> {
    match ov {
        Some(o) => if o.commit_verify is Some {
            o.commit_verify
        } else {
            tp.commit_verify
        },
        None => tp.commit_verify,
    }
}

/// The `auth` table of a project, `deploy.toml` first.
pub open spec fn eff_auth(tp: TomlProject, ov: Option<TomlProjectOverride>) -> Option<
    TomlProjectAuth,
> {
    match ov {
        Some(o) => if o.auth is Some {
            o.auth
        } else {
            tp.auth
        },
        None => tp.auth,
    }
}

/// What is wrong with a project's authentication, if anything.
pub enum ProjectFault {
    Auth(AuthError),
    NeedsGithubApp,
}

/// The fault of a project's authentication, if any, given whether `[github_app]` is present.
pub open spec fn project_fault(tp: TomlProject, ov: Option<TomlProjectOverride>, has_app: bool) -> Option<
    ProjectFault,
> {
    match eff_auth(tp, ov) {
        Some(a) => match auth_spec(a) {
            Err(e) => Some(ProjectFault::Auth(e)),
            Ok(_) => if a.mode == TomlAuthMode::GithubApp && !has_app {
                Some(ProjectFault::NeedsGithubApp)
            } else {
                None
            },
        },
        None => None,
    }
}

/// Whether `e` reports fault `f` of project `tp`.
pub open spec fn error_reports(e: ConfigError, tp: TomlProject, f: ProjectFault) -> bool {
    match (e, f) {
        (ConfigError::InvalidAuth { project, error }, ProjectFault::Auth(g)) => project@ == tp.name@
            && error == g,
        (ConfigError::GithubAppMissing { project }, ProjectFault::NeedsGithubApp) => project@
            == tp.name@,
        _ => false,
    }
}

/// Whether `p` is the project that `tp`, with `deploy.toml` `ov`, describes.
#[verifier::opaque]
pub open spec fn project_built(
    p: Project,
    tp: TomlProject,
    ov: Option<TomlProjectOverride>,
    default_timeout: u64,
) -> bool {
    &&& p.name@ == tp.name@
    &&& p.http_path@ == webhook_path(tp.name@)
    &&& p.working_dir@ == tp.working_dir@
    &&& opt_view(p.git_url) == opt_view(tp.git_url)
    &&& p.secret@ == tp.secret@
    &&& p.branch@ == eff_branch(tp, ov)
    &&& p.effective_timeout == eff_timeout(tp, ov, default_timeout)
    &&& p.bypass == eff_bypass(tp, ov)
    &&& match (p.commit_filter, eff_filter(tp, ov)) {
        (Some(f), Some(t)) => filter_from(f, t),
        (None, None) => true,
        _ => false,
    }
    &&& match (p.commit_verify, eff_verify(tp, ov)) {
        (Some(v), Some(t)) => verify_from(v, t),
        (None, None) => true,
        _ => false,
    }
    &&& commands_from(p.commands, eff_texts(tp, ov), eff_no_pull(tp, ov))
    &&& match eff_auth(tp, ov) {
        Some(a) => auth_from(p.auth, a),
        None => p.auth is Ssh,
    }
}

/// The default command timeout of a configuration, in seconds.
pub open spec fn default_timeout_of(toml: TomlConfig) -> u64 {
    match toml.default_timeout {
        Some(t) => t,
        None => DEFAULT_TIMEOUT_SECS,
    }
}

/// Whether `c` holds what `toml` (with the `deploy.toml` files `overrides`) describes:
/// the settings with their defaults, the chat IDs read, and, for each webhook path,
/// the last project configured under it.
pub open spec fn config_built(
    c: Config,
    toml: TomlConfig,
    overrides: Seq<Option<TomlProjectOverride>>,
) -> bool {
    &&& c.bind@ == toml.bind@
    &&& c.log_dir@ == toml.log_dir@
    &&& c.default_timeout == default_timeout_of(toml)
    &&& c.log_keep_days == (match toml.log_keep_days {
        Some(t) => t,
        None => DEFAULT_LOG_KEEP_DAYS,
    })
    &&& c.state_file@ == text_or(toml.state_file, super::types::DEFAULT_STATE_FILE@)
    &&& c.shell@ == text_or(toml.shell, super::types::DEFAULT_SHELL@)
    &&& match (c.telegram, toml.telegram) {
        (Some(t), Some(u)) => t.bot_token@ == u.bot_token@ && opt_view(t.api_server) == opt_view(
            u.api_server,
        ) && send_to_spec(u.send_to) == Some(t.send_to@),
        (None, None) => true,
        _ => false,
    }
    &&& match (c.github_app, toml.github_app) {
        (Some(g), Some(u)) => g.app_id == u.app_id && g.private_key_path@ == u.private_key_path@
            && opt_view(g.public_base_url) == opt_view(u.public_base_url),
        (None, None) => true,
        _ => false,
    }
    &&& projects_built(c.projects@, toml, overrides)
}

/// The index of the last project of `projects` named `name`, or -1.
pub open spec fn last_named(projects: Seq<TomlProject>, name: Seq<char>) -> int
    decreases projects.len(),
{
    if projects.len() == 0 {
        -1
    } else if projects.last().name@ == name {
        projects.len() - 1
    } else {
        last_named(projects.drop_last(), name)
    }
}

/// Whether `p` is the project built from the last entry of `toml` with its name.
pub open spec fn built_from_last(
    p: Project,
    toml: TomlConfig,
    overrides: Seq<Option<TomlProjectOverride>>,
) -> bool {
    let i = last_named(toml.projects@, p.name@);
    &&& 0 <= i < toml.projects@.len()
    &&& project_built(p, toml.projects@[i], override_of(toml, overrides, i), default_timeout_of(toml))
}

/// Whether some project of `projects` is served at `path`.
pub open spec fn listed(projects: Seq<Project>, path: Seq<char>) -> bool {
    exists|m: int| 0 <= m < projects.len() && #[trigger] projects[m].http_path@ == path
}

/// Whether `projects` holds, for each webhook path of `toml`, the project built
/// from the last entry configured under it, and nothing else.
pub open spec fn projects_built(
    projects: Seq<Project>,
    toml: TomlConfig,
    overrides: Seq<Option<TomlProjectOverride>>,
) -> bool {
    &&& forall|j: int|
        0 <= j < projects.len() ==> #[trigger] built_from_last(projects[j], toml, overrides)
    &&& forall|i: int|
        0 <= i < toml.projects@.len() ==> #[trigger] listed(
            projects,
            webhook_path(toml.projects@[i].name@),
        )
    &&& forall|j: int, k: int|
        0 <= j < k < projects.len() ==> projects[j].http_path@ != projects[k].http_path@
}

/// A built project carries the name and the webhook path of its entry.
pub proof fn lemma_built_names(
    p: Project,
    tp: TomlProject,
    ov: Option<TomlProjectOverride>,
    default_timeout: u64,
)
    requires
        project_built(p, tp, ov, default_timeout),
    ensures
        p.name@ == tp.name@,
        p.http_path@ == webhook_path(tp.name@),
{
    reveal(project_built);
}

/// Each configured project is served at `/webhook/<name>`: a request to that path
/// reaches the project built from the last entry with that name.
pub proof fn lemma_each_project_served(
    c: Config,
    toml: TomlConfig,
    overrides: Seq<Option<TomlProjectOverride>>,
    i: int,
)
    requires
        config_built(c, toml, overrides),
        0 <= i < toml.projects@.len(),
    ensures
        project_for(c.projects@, webhook_path(toml.projects@[i].name@)) matches Some(j) && 0 <= j
            < c.projects@.len() && c.projects@[j].name@ == toml.projects@[i].name@ && built_from_last(
            c.projects@[j],
            toml,
            overrides,
        ),
{
    let projects = c.projects@;
    let path = webhook_path(toml.projects@[i].name@);
    assert(listed(projects, path));
    let m = choose|m: int| 0 <= m < projects.len() && #[trigger] projects[m].http_path@ == path;
    assert forall|k: int| 0 <= k < m implies #[trigger] projects[k].http_path@ != path by {
        assert(projects[k].http_path@ != projects[m].http_path@);
    }
    assert(first_at(projects, path, m));
    let j = choose|j: int| first_at(projects, path, j);
    lemma_first_at_unique(projects, path, j, m);
    assert(built_from_last(projects[m], toml, overrides));
    let n = last_named(toml.projects@, projects[m].name@);
    lemma_built_names(
        projects[m],
        toml.projects@[n],
        override_of(toml, overrides, n),
        default_timeout_of(toml),
    );
    let k = WEBHOOK_PREFIX@.len() as int;
    assert(projects[m].name@ =~= webhook_path(projects[m].name@).skip(k));
    assert(toml.projects@[i].name@ =~= path.skip(k));
}

/// The commands a project runs, in the order stop, pull, init, update, start, restart.
pub open spec fn commands_view(c: Commands) -> Seq<Option<Seq<char>>> {
    seq![
        opt_view(c.stop),
        opt_view(c.pull),
        opt_view(c.init),
        opt_view(c.update),
        opt_view(c.start),
        opt_view(c.restart),
    ]
}

/// In a project whose `deploy.toml` has a `[commands]` table, each command that the
/// table sets is the one the project runs (its `@name` references expanded among the
/// merged commands); the inline command counts only where the table leaves the field
/// unset. `no_pull` follows the same rule.
pub proof fn lemma_deploy_toml_commands_win(
    p: Project,
    tp: TomlProject,
    ov: TomlProjectOverride,
    default_timeout: u64,
)
    requires
        project_built(p, tp, Some(ov), default_timeout),
        ov.commands is Some,
    ensures
        ({
            let file = command_texts(ov.commands->0);
            let inline = command_texts(tp.commands);
            let merged = Seq::new(
                6,
                |k: int|
                    if file[k] is Some {
                        file[k]
                    } else {
                        inline[k]
                    },
            );
            &&& forall|k: int|
                0 <= k < 6 && k != 1 ==> #[trigger] commands_view(p.commands)[k] == match (
                    file[k],
                    inline[k],
                ) {
                    (Some(t), _) => Some(expand_spec(merged, t, Seq::empty())),
                    (None, Some(t)) => Some(expand_spec(merged, t, Seq::empty())),
                    (None, None) => None,
                }
            &&& forall|k: int|
                0 <= k < 6 && k != 1 && #[trigger] file[k] is Some && (forall|i: int|
                    0 <= i < file[k]->0.len() ==> file[k]->0[i] != '@') ==> commands_view(
                    p.commands,
                )[k] == file[k]
            &&& ov.commands->0.no_pull == Some(true) ==> p.commands.pull is None
            &&& ov.commands->0.no_pull == Some(false) ==> p.commands.pull is Some
            &&& ov.commands->0.no_pull is None ==> (p.commands.pull is None <==> tp.commands.no_pull
                == Some(true))
        }),
{
    reveal(project_built);
    let file = command_texts(ov.commands->0);
    let inline = command_texts(tp.commands);
    let merged = Seq::new(6, |k: int| if file[k] is Some { file[k] } else { inline[k] });
    assert(eff_texts(tp, Some(ov)) =~= merged);
    assert forall|k: int|
        0 <= k < 6 && k != 1 && #[trigger] file[k] is Some && (forall|i: int|
            0 <= i < file[k]->0.len() ==> file[k]->0[i] != '@') implies commands_view(
        p.commands,
    )[k] == file[k] by {
        let t = file[k]->0;
        lemma_plain_text_unchanged(merged, t, Seq::empty());
    }
}

/// Every project of a built configuration is served at `/webhook/<its name>`.
pub proof fn lemma_paths_follow_names(
    c: Config,
    toml: TomlConfig,
    overrides: Seq<Option<TomlProjectOverride>>,
)
    requires
        config_built(c, toml, overrides),
    ensures
        forall|j: int|
            0 <= j < c.projects@.len() ==> (#[trigger] c.projects@[j]).http_path@ == webhook_path(
                c.projects@[j].name@,
            ),
{
    assert forall|j: int| 0 <= j < c.projects@.len() implies (#[trigger] c.projects@[j]).http_path@
        == webhook_path(c.projects@[j].name@) by {
        let p = c.projects@[j];
        assert(built_from_last(p, toml, overrides));
        let n = last_named(toml.projects@, p.name@);
        lemma_built_names(p, toml.projects@[n], override_of(toml, overrides, n), default_timeout_of(toml));
    }
}

/// The entry `last_named` finds carries the name looked for.
proof fn lemma_last_named_found(projects: Seq<TomlProject>, name: Seq<char>)
    ensures
        -1 <= last_named(projects, name) < projects.len(),
        last_named(projects, name) >= 0 ==> projects[last_named(projects, name)].name@ == name,
    decreases projects.len(),
{
    if projects.len() > 0 && projects.last().name@ != name {
        lemma_last_named_found(projects.drop_last(), name);
    }
}

/// With pairwise distinct names, a built configuration holds exactly one project for
/// each configured entry.
pub proof fn lemma_one_project_per_entry(
    c: Config,
    toml: TomlConfig,
    overrides: Seq<Option<TomlProjectOverride>>,
)
    requires
        config_built(c, toml, overrides),
        forall|a: int, b: int|
            0 <= a < b < toml.projects@.len() ==> #[trigger] toml.projects@[a].name@
                != #[trigger] toml.projects@[b].name@,
    ensures
        c.projects@.len() == toml.projects@.len(),
{
    let projects = c.projects@;
    let entries = toml.projects@;
    lemma_paths_follow_names(c, toml, overrides);
    let f = |j: int| last_named(entries, projects[j].name@);
    let x = set_int_range(0, projects.len() as int);
    let y = set_int_range(0, entries.len() as int);
    lemma_int_range(0, projects.len() as int);
    lemma_int_range(0, entries.len() as int);
    assert forall|j1: int, j2: int| x.contains(j1) && x.contains(j2) && #[trigger] f(j1) == #[trigger] f(
        j2,
    ) implies j1 == j2 by {
        assert(built_from_last(projects[j1], toml, overrides));
        assert(built_from_last(projects[j2], toml, overrides));
        lemma_last_named_found(entries, projects[j1].name@);
        lemma_last_named_found(entries, projects[j2].name@);
        assert(projects[j1].http_path@ == projects[j2].http_path@);
        if j1 < j2 {
            assert(projects[j1].http_path@ != projects[j2].http_path@);
        } else if j2 < j1 {
            assert(projects[j2].http_path@ != projects[j1].http_path@);
        }
    }
    assert(injective_on(f, x));
    assert forall|i: int| y.contains(i) implies x.map(f).contains(i) by {
        let path = webhook_path(entries[i].name@);
        assert(listed(projects, path));
        let m = choose|m: int| 0 <= m < projects.len() && #[trigger] projects[m].http_path@ == path;
        let k = WEBHOOK_PREFIX@.len() as int;
        assert(projects[m].name@ =~= webhook_path(projects[m].name@).skip(k));
        assert(entries[i].name@ =~= path.skip(k));
        assert forall|q: int| i < q < entries.len() implies #[trigger] entries[q].name@
            != entries[i].name@ by {
            assert(entries[i].name@ != entries[q].name@);
        }
        lemma_last_named(entries, i);
        assert(f(m) == i);
        assert(x.contains(m));
    }
    assert forall|i: int| x.map(f).contains(i) implies y.contains(i) by {
        let j = choose|j: int| x.contains(j) && f(j) == i;
        assert(built_from_last(projects[j], toml, overrides));
    }
    assert(x.map(f) =~= y);
    lemma_map_size(x, y, f);
}

proof fn lemma_last_named(projects: Seq<TomlProject>, i: int)
    requires
        0 <= i < projects.len(),
        forall|k: int| i < k < projects.len() ==> #[trigger] projects[k].name@ != projects[i].name@,
    ensures
        last_named(projects, projects[i].name@) == i,
    decreases projects.len(),
{
    if i < projects.len() - 1 {
        assert(projects.last().name@ != projects[i].name@);
        let d = projects.drop_last();
        assert(d[i] == projects[i]);
        assert forall|k: int| i < k < d.len() implies #[trigger] d[k].name@ != d[i].name@ by {
            assert(d[k] == projects[k]);
        }
        lemma_last_named(d, i);
    }
}

/// The first project whose authentication is at fault, if any.
pub open spec fn first_fault(
    toml: TomlConfig,
    overrides: Seq<Option<TomlProjectOverride>>,
    i: int,
) -> bool {
    &&& 0 <= i < toml.projects@.len()
    &&& project_fault(toml.projects@[i], override_of(toml, overrides, i), toml.github_app is Some)
        is Some
    &&& forall|k: int|
        0 <= k < i ==> #[trigger] project_fault(
            toml.projects@[k],
            override_of(toml, overrides, k),
            toml.github_app is Some,
        ) is None
}

fn opt_or_owned(a: &Option<String>, b: &String) -> (r: String)
    ensures
        r@ == (match *a {
            Some(x) => x@,
            None => b@,
        }),
{
    match a {
        Some(x) => owned(x.as_str()),
        None => owned(b.as_str()),
    }
}

/// Builds project `tp` with its `deploy.toml` `ov`, or reports its fault.
fn build_project(
    tp: &TomlProject,
    ov: Option<&TomlProjectOverride>,
    default_timeout: u64,
    has_app: bool,
) -> (r: Result<Project, ConfigError>)
    ensures
        match r {
            Ok(p) => project_fault(*tp, opt_deref(ov), has_app) is None && project_built(
                p,
                *tp,
                opt_deref(ov),
                default_timeout,
            ),
            Err(e) => project_fault(*tp, opt_deref(ov), has_app) is Some && error_reports(
                e,
                *tp,
                project_fault(*tp, opt_deref(ov), has_app)->0,
            ),
        },
{
    reveal(project_built);
    let ghost ovs = opt_deref(ov);
    let branch = match ov {
        Some(o) => opt_or_owned(&o.branch, &tp.branch),
        None => owned(tp.branch.as_str()),
    };
    let timeout: Option<u64> = match ov {
        Some(o) => if o.timeout.is_some() {
            o.timeout
        } else {
            tp.timeout
        },
        None => tp.timeout,
    };
    let effective_timeout = match timeout {
        Some(t) => t,
        None => default_timeout,
    };
    let bypass = match ov {
        Some(o) => match o.bypass {
            Some(b) => b,
            None => tp.bypass(),
        },
        None => tp.bypass(),
    };
    let filter_src: Option<&TomlCommitFilter> = match ov {
        Some(o) => if o.commit_filter.is_some() {
            o.commit_filter.as_ref()
        } else {
            tp.commit_filter.as_ref()
        },
        None => tp.commit_filter.as_ref(),
    };
    let commit_filter = match filter_src {
        Some(f) => Some(CommitFilter::from_toml(f)),
        None => None,
    };
    let verify_src: Option<&TomlCommitVerify> = match ov {
        Some(o) => if o.commit_verify.is_some() {
            o.commit_verify.as_ref()
        } else {
            tp.commit_verify.as_ref()
        },
        None => tp.commit_verify.as_ref(),
    };
    let commit_verify = match verify_src {
        Some(v) => Some(CommitVerify::from_toml(v)),
        None => None,
    };
    let commands = match ov {
        Some(o) => match &o.commands {
            Some(c) => {
                let merged = tp.commands.merge_from(c);
                proof {
                    assert(command_texts(merged) =~= merge_texts(
                        command_texts(tp.commands),
                        command_texts(*c),
                    ));
                }
                Commands::from_toml(&merged)
            },
            None => Commands::from_toml(&tp.commands),
        },
        None => Commands::from_toml(&tp.commands),
    };
    let auth_src: Option<&TomlProjectAuth> = match ov {
        Some(o) => if o.auth.is_some() {
            o.auth.as_ref()
        } else {
            tp.auth.as_ref()
        },
        None => tp.auth.as_ref(),
    };
    let auth = match auth_src {
        Some(a) => match ProjectAuth::try_from_toml(a) {
            Ok(x) => x,
            Err(e) => {
                return Err(ConfigError::InvalidAuth { project: owned(tp.name.as_str()), error: e });
            },
        },
        None => ProjectAuth::Ssh,
    };
    if auth.is_github_app() && !has_app {
        return Err(ConfigError::GithubAppMissing { project: owned(tp.name.as_str()) });
    }
    let mut http_path = owned(WEBHOOK_PREFIX);
    push_str(&mut http_path, tp.name.as_str());
    let git_url = owned_opt(&tp.git_url);
    Ok(
        Project {
            name: owned(tp.name.as_str()),
            http_path,
            working_dir: owned(tp.working_dir.as_str()),
            git_url,
            secret: owned(tp.secret.as_str()),
            branch,
            effective_timeout,
            bypass,
            commit_filter,
            commit_verify,
            commands,
            auth,
        },
    )
}

/// The index of the project served at `path`, if any.
fn find_path(projects: &Vec<Project>, path: &str) -> (r: Option<usize>)
    ensures
        match r {
            Some(j) => j < projects@.len() && projects@[j as int].http_path@ == path@,
            None => forall|m: int|
                0 <= m < projects@.len() ==> #[trigger] projects@[m].http_path@ != path@,
        },
{
    let mut j: usize = 0;
    while j < projects.len()
        invariant
            j <= projects@.len(),
            forall|m: int| 0 <= m < j ==> #[trigger] projects@[m].http_path@ != path@,
        decreases projects@.len() - j,
    {
        if crate::text::str_eq(projects[j].http_path.as_str(), path) {
            return Some(j);
        }
        j = j + 1;
    }
    None
}

/// The value behind an optional reference.
pub open spec fn opt_deref<T>(o: Option<&T>) -> Option<T> {
    match o {
        Some(x) => Some(*x),
        None => None,
    }
}

/// Builds the configuration from the parsed `config.toml` and, for each project
/// (in the same order), its parsed `deploy.toml` when the project sets
/// `deploy_toml`. Fails on the first project whose `auth` table lacks `owner` or
/// `repo` for `github_app`, or that uses `github_app` with no `[github_app]` table.
/// A later project with the same name replaces an earlier one.
#[verifier::rlimit(60)]
pub fn resolve_config(toml: &TomlConfig, overrides: &Vec<Option<TomlProjectOverride>>) -> (r:
    Result<Config, ConfigError>)
    requires
        overrides@.len() == toml.projects@.len(),
        forall|i: int|
            0 <= i < toml.projects@.len() ==> (#[trigger] toml.projects@[i]).deploy_toml == Some(
                true,
            ) ==> overrides@[i] is Some,
        match toml.telegram {
            Some(t) => send_to_spec(t.send_to) is Some,
            None => true,
        },
    ensures
        match r {
            Ok(c) => (forall|i: int|
                0 <= i < toml.projects@.len() ==> #[trigger] project_fault(
                    toml.projects@[i],
                    override_of(*toml, overrides@, i),
                    toml.github_app is Some,
                ) is None) && config_built(c, *toml, overrides@),
            Err(e) => exists|i: int|
                first_fault(*toml, overrides@, i) && #[trigger] error_reports(
                    e,
                    toml.projects@[i],
                    project_fault(
                        toml.projects@[i],
                        override_of(*toml, overrides@, i),
                        toml.github_app is Some,
                    )->0,
                ),
        },
{
    let default_timeout = toml.default_timeout();
    let has_app = toml.github_app.is_some();
    let telegram = match &toml.telegram {
        Some(t) => Some(
            TelegramConfig {
                bot_token: owned(t.bot_token.as_str()),
                api_server: owned_opt(&t.api_server),
                send_to: parse_send_to(&t.send_to),
            },
        ),
        None => None,
    };
    let github_app = match &toml.github_app {
        Some(g) => Some(
            GithubAppConfig {
                app_id: g.app_id,
                private_key_path: owned(g.private_key_path.as_str()),
                public_base_url: owned_opt(&g.public_base_url),
            },
        ),
        None => None,
    };
    let ghost n = toml.projects@.len();
    let mut projects: Vec<Project> = Vec::new();
    let ghost mut src: Seq<int> = Seq::empty();
    let ghost mut place: Seq<int> = Seq::empty();
    let mut i: usize = 0;
    while i < toml.projects.len()
        invariant
            i <= n,
            n == toml.projects@.len(),
            overrides@.len() == n,
            default_timeout == default_timeout_of(*toml),
            has_app == toml.github_app is Some,
            forall|k: int|
                0 <= k < n ==> (#[trigger] toml.projects@[k]).deploy_toml == Some(true)
                    ==> overrides@[k] is Some,
            forall|k: int|
                0 <= k < i ==> #[trigger] project_fault(
                    toml.projects@[k],
                    override_of(*toml, overrides@, k),
                    has_app,
                ) is None,
            src.len() == projects@.len(),
            place.len() == i,
            forall|j: int|
                0 <= j < projects@.len() ==> 0 <= #[trigger] src[j] < i && project_built(
                    projects@[j],
                    toml.projects@[src[j]],
                    override_of(*toml, overrides@, src[j]),
                    default_timeout,
                ) && (forall|k: int|
                    src[j] < k < i ==> #[trigger] toml.projects@[k].name@
                        != toml.projects@[src[j]].name@),
            forall|k: int|
                0 <= k < i ==> 0 <= #[trigger] place[k] < projects@.len() && projects@[place[k]].http_path@
                    == webhook_path(toml.projects@[k].name@),
            forall|j: int, k: int|
                0 <= j < k < projects@.len() ==> projects@[j].http_path@ != projects@[k].http_path@,
        decreases n - i,
    {
        let tp = &toml.projects[i];
        let ov: Option<&TomlProjectOverride> = if tp.deploy_toml() {
            overrides[i].as_ref()
        } else {
            None
        };
        proof {
            assert(opt_deref(ov) == override_of(*toml, overrides@, i as int));
        }
        let p = match build_project(tp, ov, default_timeout, has_app) {
            Ok(p) => p,
            Err(e) => {
                proof {
                    assert(first_fault(*toml, overrides@, i as int));
                }
                return Err(e);
            },
        };
        // a project already under this path is replaced
        let found = find_path(&projects, p.http_path.as_str());
        proof {
            lemma_built_names(p, *tp, opt_deref(ov), default_timeout);
        }
        let ghost old_projects = projects@;
        let ghost p_path = p.http_path@;
        let ghost old_src = src;
        proof {
            // two projects share a webhook path exactly when they share a name
            assert forall|a: Seq<char>, b: Seq<char>| webhook_path(a) == webhook_path(b) implies a
                == b by {
                assert(a =~= webhook_path(a).skip(WEBHOOK_PREFIX@.len() as int));
                assert(b =~= webhook_path(b).skip(WEBHOOK_PREFIX@.len() as int));
            }
        }
        match found {
            Some(j) => {
                projects.set(j, p);
                proof {
                    src = src.update(j as int, i as int);
                    place = place.push(j as int);
                }
            },
            None => {
                projects.push(p);
                proof {
                    src = src.push(i as int);
                    place = place.push(old_projects.len() as int);
                }
            },
        }
        proof {
            assert forall|a: int, b: int|
                0 <= a < b < projects@.len() implies projects@[a].http_path@ != projects@[b].http_path@ by {
                if found is None {
                    if b == old_projects.len() {
                        assert(old_projects[a].http_path@ != p_path);
                    } else {
                        assert(projects@[a] == old_projects[a]);
                        assert(projects@[b] == old_projects[b]);
                    }
                } else {
                    let f = found->0 as int;
                    if a == f {
                        assert(projects@[b] == old_projects[b]);
                    } else if b == f {
                        assert(projects@[a] == old_projects[a]);
                    } else {
                        assert(projects@[a] == old_projects[a]);
                        assert(projects@[b] == old_projects[b]);
                    }
                }
            }
            assert forall|j2: int|
                0 <= j2 < projects@.len() implies 0 <= #[trigger] src[j2] < i + 1 && project_built(
                projects@[j2],
                toml.projects@[src[j2]],
                override_of(*toml, overrides@, src[j2]),
                default_timeout,
            ) && (forall|k: int|
                src[j2] < k < i + 1 ==> #[trigger] toml.projects@[k].name@
                    != toml.projects@[src[j2]].name@) by {
                if src[j2] != i {
                    assert(j2 < old_projects.len());
                    lemma_built_names(
                        old_projects[j2],
                        toml.projects@[old_src[j2]],
                        override_of(*toml, overrides@, old_src[j2]),
                        default_timeout,
                    );
                    assert(found is None || j2 != found->0);
                    assert(projects@[j2] == old_projects[j2]);
                    assert(src[j2] == old_src[j2]);
                    assert(old_projects[j2].http_path@ == webhook_path(
                        toml.projects@[old_src[j2]].name@,
                    ));
                    assert(old_projects[j2].http_path@ != webhook_path(tp.name@));
                }
            }
            assert forall|k: int|
                0 <= k < i + 1 implies 0 <= #[trigger] place[k] < projects@.len()
                && projects@[place[k]].http_path@ == webhook_path(toml.projects@[k].name@) by {
                if k < i {
                    let pk = place[k];
                    assert(old_projects[pk].http_path@ == webhook_path(toml.projects@[k].name@));
                    if found is Some && pk == found->0 {
                        assert(projects@[pk].http_path@ == old_projects[pk].http_path@);
                    } else {
                        assert(projects@[pk] == old_projects[pk]);
                    }
                }
            }
        }
        i = i + 1;
    }
    assert(projects_built(projects@, *toml, overrides@)) by {
        reveal(project_built);
        assert forall|j: int| 0 <= j < projects@.len() implies #[trigger] built_from_last(
            projects@[j],
            *toml,
            overrides@,
        ) by {
            let k = src[j];
            assert forall|m: int|
                k < m < toml.projects@.len() implies #[trigger] toml.projects@[m].name@
                != toml.projects@[k].name@ by {}
            lemma_last_named(toml.projects@, k);
            assert(projects@[j].name@ == toml.projects@[k].name@);
        }
        assert forall|k: int| 0 <= k < toml.projects@.len() implies #[trigger] listed(
            projects@,
            webhook_path(toml.projects@[k].name@),
        ) by {
            assert(projects@[place[k]].http_path@ == webhook_path(toml.projects@[k].name@));
        }
    }
    let c = Config {
        bind: owned(toml.bind.as_str()),
        log_dir: owned(toml.log_dir.as_str()),
        default_timeout,
        log_keep_days: toml.log_keep_days(),
        state_file: owned(toml.state_file()),
        shell: owned(toml.shell()),
        telegram,
        github_app,
        projects,
    };
    proof {
        assert(c.projects@ == projects@);
    }
    Ok(c)
}
} // verus!

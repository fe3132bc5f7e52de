use github_deploy_helper::configure::bootstrap::{
    bootstrap_action, webhook_targets, webhook_url, BootstrapAction,
};
use github_deploy_helper::configure::loader::{resolve_config, AuthError, ConfigError, ProjectAuth};
use github_deploy_helper::configure::types::{
    parse_i64, parse_send_to, try_parse_send_to, SendToItem, SendToValue, TomlAuthMode, TomlCommands,
    TomlConfig, TomlGithubApp, TomlProject, TomlProjectAuth, TomlProjectOverride, TomlTelegram,
};
use github_deploy_helper::configure::watcher::{
    after_wait, is_relevant, plan_reload, DebounceAction, FsEventKind, ServiceChange, WaitOutcome,
};
use github_deploy_helper::webhook::handler::{triage, Admission};
use hmac::{Hmac, KeyInit, Mac};
use sha2::Sha256;

fn toml_project(name: &str) -> TomlProject {
    TomlProject {
        name: name.to_string(),
        working_dir: format!("/srv/{name}"),
        git_url: Some(format!("git@github.com:acme/{name}.git")),
        secret: "s".to_string(),
        branch: "main".to_string(),
        timeout: None,
        bypass: None,
        deploy_toml: None,
        commit_filter: None,
        commit_verify: None,
        commands: TomlCommands::default(),
        auth: None,
    }
}

fn toml_config(projects: Vec<TomlProject>) -> TomlConfig {
    TomlConfig {
        bind: "0.0.0.0:8080".to_string(),
        log_dir: "logs".to_string(),
        default_timeout: None,
        log_keep_days: None,
        state_file: None,
        shell: None,
        telegram: None,
        github_app: None,
        projects,
    }
}

fn app_auth(owner: Option<&str>, repo: Option<&str>) -> TomlProjectAuth {
    TomlProjectAuth {
        mode: TomlAuthMode::GithubApp,
        owner: owner.map(String::from),
        repo: repo.map(String::from),
    }
}

#[test]
fn defaults_fill_unset_settings() {
    let t = toml_config(vec![toml_project("api")]);
    assert_eq!(t.default_timeout(), 30);
    assert_eq!(t.log_keep_days(), 30);
    assert_eq!(t.state_file(), "state.json");
    assert_eq!(t.shell(), "sh");
    let c = resolve_config(&t, &vec![None]).ok().unwrap();
    assert_eq!(c.projects().len(), 1);
    let p = &c.projects()[0];
    assert_eq!(p.http_path(), "/webhook/api");
    assert_eq!(p.effective_timeout(), 30);
    assert!(!p.bypass());
    assert!(matches!(p.auth(), ProjectAuth::Ssh));
}

#[test]
fn deploy_toml_overrides_the_project() {
    let mut tp = toml_project("api");
    tp.deploy_toml = Some(true);
    tp.timeout = Some(10);
    let ov = TomlProjectOverride {
        branch: Some("release".to_string()),
        timeout: None,
        bypass: Some(true),
        commit_filter: None,
        commit_verify: None,
        commands: Some(TomlCommands {
            stop: None,
            pull: None,
            no_pull: Some(true),
            init: None,
            update: Some("make".to_string()),
            start: None,
            restart: None,
        }),
        auth: None,
    };
    let c = resolve_config(&toml_config(vec![tp]), &vec![Some(ov)]).ok().unwrap();
    let p = &c.projects()[0];
    assert_eq!(p.branch(), "release");
    assert_eq!(p.effective_timeout(), 10);
    assert!(p.bypass());
    assert_eq!(p.commands().update(), Some("make"));
    assert_eq!(p.commands().pull(), None);
}

#[test]
fn later_project_with_same_name_wins() {
    let a = toml_project("api");
    let mut b = toml_project("api");
    b.branch = "prod".to_string();
    let c = resolve_config(&toml_config(vec![a, b]), &vec![None, None]).ok().unwrap();
    assert_eq!(c.projects().len(), 1);
    assert_eq!(c.projects()[0].branch(), "prod");
}

fn with_auth(auth: TomlProjectAuth) -> TomlProject {
    let mut tp = toml_project("api");
    tp.auth = Some(auth);
    tp
}

#[test]
fn github_app_projects_need_owner_repo_and_app() {
    match resolve_config(&toml_config(vec![with_auth(app_auth(None, Some("api")))]), &vec![None]) {
        Err(ConfigError::InvalidAuth { project, error }) => {
            assert_eq!(project, "api");
            assert_eq!(error, AuthError::MissingOwner);
            assert_eq!(error.message(), "auth.mode = \"github_app\" requires auth.owner");
        }
        _ => panic!("expected an auth error"),
    }
    match resolve_config(&toml_config(vec![with_auth(app_auth(Some("acme"), None))]), &vec![None]) {
        Err(ConfigError::InvalidAuth { error, .. }) => assert_eq!(error, AuthError::MissingRepo),
        _ => panic!("expected an auth error"),
    }
    match resolve_config(
        &toml_config(vec![with_auth(app_auth(Some("acme"), Some("api")))]),
        &vec![None],
    ) {
        Err(e) => {
            assert!(matches!(e, ConfigError::GithubAppMissing { .. }));
            assert_eq!(
                e.message(),
                "Project api uses auth.mode = \"github_app\" but no [github_app] config is present"
            );
        }
        Ok(_) => panic!("expected an error"),
    }
    let mut t = toml_config(vec![with_auth(app_auth(Some("acme"), Some("api")))]);
    t.github_app = Some(TomlGithubApp {
        app_id: 7,
        private_key_path: "key.pem".to_string(),
        public_base_url: Some("https://deploy.example.com//".to_string()),
    });
    let c = resolve_config(&t, &vec![None]).ok().unwrap();
    match c.projects()[0].auth() {
        ProjectAuth::GithubApp { owner, repo } => {
            assert_eq!(owner, "acme");
            assert_eq!(repo, "api");
        }
        ProjectAuth::Ssh => panic!("expected github_app"),
    }
    let targets = webhook_targets(&c);
    assert_eq!(targets, vec![(0, "https://deploy.example.com/webhook/api".to_string())]);
}

#[test]
fn send_to_accepts_numbers_and_numeric_texts() {
    assert_eq!(parse_i64("-1001234"), Some(-1001234));
    assert_eq!(parse_i64("+5"), Some(5));
    assert_eq!(parse_i64("12a"), None);
    assert_eq!(parse_send_to(&SendToValue::Integer(42)), vec![42]);
    assert_eq!(parse_send_to(&SendToValue::Text("-100".to_string())), vec![-100]);
    assert_eq!(
        parse_send_to(&SendToValue::Array(vec![
            SendToItem::Integer(1),
            SendToItem::Text("2".to_string())
        ])),
        vec![1, 2]
    );
    assert_eq!(try_parse_send_to(&SendToValue::Other), None);
    assert_eq!(
        try_parse_send_to(&SendToValue::Array(vec![SendToItem::Other])),
        None
    );
}

#[test]
fn webhook_url_drops_trailing_slashes() {
    assert_eq!(webhook_url("https://x.example/", "/webhook/a"), "https://x.example/webhook/a");
    assert_eq!(webhook_url("https://x.example", "/webhook/a"), "https://x.example/webhook/a");
    assert_eq!(webhook_url("///", "/w"), "/w");
}

#[test]
fn bootstrap_clones_only_what_is_missing() {
    let t = toml_config(vec![toml_project("api")]);
    let c = resolve_config(&t, &vec![None]).ok().unwrap();
    let p = &c.projects()[0];
    assert_eq!(bootstrap_action(p, true, false), BootstrapAction::Nothing);
    assert_eq!(bootstrap_action(p, false, false), BootstrapAction::CloneWithoutToken);
    let mut q = toml_project("web");
    q.git_url = None;
    let c = resolve_config(&toml_config(vec![q]), &vec![None]).ok().unwrap();
    assert_eq!(bootstrap_action(&c.projects()[0], false, true), BootstrapAction::CreateDir);
}

#[test]
fn reload_reports_added_and_removed_projects() {
    let last = resolve_config(&toml_config(vec![toml_project("a"), toml_project("b")]), &vec![None, None])
        .ok()
        .unwrap();
    let mut t = toml_config(vec![toml_project("b"), toml_project("c")]);
    t.telegram = Some(TomlTelegram {
        bot_token: "t".to_string(),
        api_server: None,
        send_to: SendToValue::Integer(1),
    });
    let new = resolve_config(&t, &vec![None, None]).ok().unwrap();
    let plan = plan_reload(&last, &new);
    assert_eq!(plan.added, vec!["/webhook/c".to_string()]);
    assert_eq!(plan.removed, vec!["/webhook/a".to_string()]);
    assert_eq!(plan.notifier, ServiceChange::Restart);
    assert_eq!(plan.github_app, ServiceChange::Stop);
    let again = plan_reload(&new, &new);
    assert_eq!(again.notifier, ServiceChange::Keep);
    assert!(again.added.is_empty() && again.removed.is_empty());
}

#[test]
fn only_changes_to_files_trigger_a_reload() {
    assert!(is_relevant(FsEventKind::Create));
    assert!(is_relevant(FsEventKind::Modify));
    assert!(is_relevant(FsEventKind::Remove));
    assert!(!is_relevant(FsEventKind::Access));
    assert!(!is_relevant(FsEventKind::Any));
    assert!(!is_relevant(FsEventKind::Other));
}

#[test]
fn each_project_is_served_at_its_own_path() {
    let mut web = toml_project("web");
    web.secret = "w".to_string();
    let c = resolve_config(&toml_config(vec![toml_project("api"), web]), &vec![None, None])
        .ok()
        .unwrap();
    let mut mac = Hmac::<Sha256>::new_from_slice(b"w").unwrap();
    mac.update(b"{}");
    let sig = format!("sha256={}", hex::encode(mac.finalize().into_bytes()));
    let (a, i) = triage(&c, "/webhook/web", b"{}", &sig, "push");
    let i = i.unwrap();
    assert!(matches!(a, Admission::Push(j) if j == i));
    assert_eq!(c.projects()[i].name(), "web");
}

#[test]
fn a_burst_of_events_gives_one_reload() {
    assert_eq!(after_wait(WaitOutcome::Event), DebounceAction::KeepWaiting);
    assert_eq!(after_wait(WaitOutcome::TimedOut), DebounceAction::Reload);
    assert_eq!(after_wait(WaitOutcome::Closed), DebounceAction::Stop);
}

#[test]
fn distinct_names_give_one_project_each_at_its_path() {
    let c = resolve_config(
        &toml_config(vec![toml_project("a"), toml_project("b"), toml_project("c")]),
        &vec![None, None, None],
    )
    .ok()
    .unwrap();
    assert_eq!(c.projects().len(), 3);
    for p in c.projects() {
        assert_eq!(p.http_path(), format!("/webhook/{}", p.name()));
    }
}

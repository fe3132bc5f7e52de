use github_deploy_helper::configure::loader::Commands;
use github_deploy_helper::configure::types::{TomlCommands, DEFAULT_PULL_COMMAND};

fn commands(
    stop: Option<&str>,
    init: Option<&str>,
    update: Option<&str>,
    start: Option<&str>,
) -> TomlCommands {
    TomlCommands {
        stop: stop.map(String::from),
        pull: None,
        no_pull: Some(true),
        init: init.map(String::from),
        update: update.map(String::from),
        start: start.map(String::from),
        restart: None,
    }
}

#[test]
fn resolves_direct_reference() {
    let c = commands(None, Some("cargo build --release"), Some("@init"), None);
    assert_eq!(c.update().as_deref(), Some("cargo build --release"));
}

#[test]
fn resolves_chained_reference() {
    let c = commands(Some("@init"), Some("@update"), Some("cargo build"), None);
    assert_eq!(c.stop().as_deref(), Some("cargo build"));
}

#[test]
fn self_cycle_leaves_token_unexpanded() {
    let c = commands(None, Some("@init"), None, None);
    assert_eq!(c.init().as_deref(), Some("@init"));
}

#[test]
fn two_cycle_leaves_token_unexpanded_without_looping() {
    let c = commands(None, Some("@update"), Some("@init"), None);
    assert_eq!(c.init().as_deref(), Some("@update"));
    assert_eq!(c.update().as_deref(), Some("@init"));
}

#[test]
fn reference_to_unset_field_leaves_token_unexpanded() {
    let c = commands(None, None, Some("@init"), None);
    assert_eq!(c.update().as_deref(), Some("@init"));
}

#[test]
fn expands_multiple_references_inline() {
    let c = commands(
        None,
        Some("cargo build --release"),
        Some("@init && systemctl restart my-api"),
        Some("systemctl start my-api"),
    );
    assert_eq!(
        c.update().as_deref(),
        Some("cargo build --release && systemctl restart my-api")
    );
}

#[test]
fn expands_two_distinct_references_in_one_field() {
    let combined = commands(
        Some("systemctl stop my-api"),
        Some("cargo build --release"),
        Some("@start && @init"),
        Some("systemctl start my-api"),
    );
    assert_eq!(
        combined.update().as_deref(),
        Some("systemctl start my-api && cargo build --release")
    );
}

#[test]
fn unknown_token_left_as_is() {
    let c = commands(None, None, Some("deploy@example.com notify"), None);
    assert_eq!(c.update().as_deref(), Some("deploy@example.com notify"));
}

#[test]
fn lone_at_sign_and_trailing_at_are_kept() {
    let c = commands(None, Some("a @ b @"), None, None);
    assert_eq!(c.init().as_deref(), Some("a @ b @"));
}

#[test]
fn reference_name_stops_at_non_letter() {
    let c = commands(Some("x"), Some("@stop-now @stop_x @stop"), None, None);
    assert_eq!(c.init().as_deref(), Some("x-now @stop_x x"));
}

#[test]
fn pull_defaults_unless_disabled() {
    let mut c = TomlCommands::default();
    assert_eq!(c.pull().as_deref(), Some(DEFAULT_PULL_COMMAND));
    c.no_pull = Some(false);
    c.pull = Some("git pull && @update".to_string());
    c.update = Some("make".to_string());
    assert_eq!(c.pull().as_deref(), Some("git pull && make"));
    c.no_pull = Some(true);
    assert_eq!(c.pull(), None);
}

#[test]
fn merge_prefers_the_override() {
    let base = commands(Some("stop-a"), Some("init-a"), None, Some("start-a"));
    let over = TomlCommands {
        stop: None,
        pull: Some("pull-b".to_string()),
        no_pull: None,
        init: Some("init-b".to_string()),
        update: Some("update-b".to_string()),
        start: None,
        restart: Some("restart-b".to_string()),
    };
    let m = base.merge_from(&over);
    assert_eq!(m.stop.as_deref(), Some("stop-a"));
    assert_eq!(m.pull.as_deref(), Some("pull-b"));
    assert_eq!(m.no_pull, Some(true));
    assert_eq!(m.init.as_deref(), Some("init-b"));
    assert_eq!(m.update.as_deref(), Some("update-b"));
    assert_eq!(m.start.as_deref(), Some("start-a"));
    assert_eq!(m.restart.as_deref(), Some("restart-b"));
}

#[test]
fn commands_are_resolved_once() {
    let c = commands(None, Some("build"), Some("@init && ship"), None);
    let r = Commands::from_toml(&c);
    assert_eq!(r.update(), Some("build && ship"));
    assert_eq!(r.pull(), None);
    assert_eq!(r.stop(), None);
}

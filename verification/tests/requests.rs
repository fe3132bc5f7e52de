use github_deploy_helper::configure::loader::{Commands, Config, Project, ProjectAuth};
use github_deploy_helper::configure::types::TomlCommands;
use github_deploy_helper::webhook::handler::{
    is_all_zeros, push_disposition, triage, Admission, PushDisposition, Rejection, MAX_BODY,
};
use github_deploy_helper::webhook::payload::{PushEvent, RepositoryInfo};
use hmac::{Hmac, KeyInit, Mac};
use sha2::Sha256;

fn project(name: &str, secret: &str) -> Project {
    Project {
        name: name.to_string(),
        http_path: format!("/webhook/{name}"),
        working_dir: format!("/srv/{name}"),
        git_url: None,
        secret: secret.to_string(),
        branch: "main".to_string(),
        effective_timeout: 30,
        bypass: false,
        commit_filter: None,
        commit_verify: None,
        commands: Commands::from_toml(&TomlCommands::default()),
        auth: ProjectAuth::Ssh,
    }
}

fn config(projects: Vec<Project>) -> Config {
    Config {
        bind: "127.0.0.1:8080".to_string(),
        log_dir: "logs".to_string(),
        default_timeout: 30,
        log_keep_days: 30,
        state_file: "state.json".to_string(),
        shell: "sh".to_string(),
        telegram: None,
        github_app: None,
        projects,
    }
}

fn sign(secret: &str, body: &[u8]) -> String {
    let mut mac = Hmac::<Sha256>::new_from_slice(secret.as_bytes()).unwrap();
    mac.update(body);
    format!("sha256={}", hex::encode(mac.finalize().into_bytes()))
}

#[test]
fn signed_push_and_ping_are_accepted() {
    let c = config(vec![project("api", "s1"), project("web", "s2")]);
    let body = b"{}";
    let (a, i) = triage(&c, "/webhook/web", body, &sign("s2", body), "push");
    assert!(matches!(a, Admission::Push(1)));
    assert_eq!(i, Some(1));
    let (a, _) = triage(&c, "/webhook/api", body, &sign("s1", body), "ping");
    assert!(matches!(a, Admission::Ping(0)));
}

#[test]
fn requests_are_refused_in_order() {
    let c = config(vec![project("api", "s1")]);
    let big = vec![b'x'; MAX_BODY + 1];
    let (a, _) = triage(&c, "/webhook/nope", &big, "", "push");
    match a {
        Admission::Rejected(r) => {
            assert_eq!(r.status(), 413);
            assert_eq!(r.message(), "body too large");
        }
        _ => panic!("expected a refusal"),
    }
    let (a, _) = triage(&c, "/webhook/nope", b"{}", "", "push");
    match a {
        Admission::Rejected(r) => {
            assert_eq!(r.status(), 404);
            assert_eq!(r.message(), "unknown project");
        }
        _ => panic!("expected a refusal"),
    }
    let (a, i) = triage(&c, "/webhook/api", b"{}", &sign("wrong", b"{}"), "ping");
    assert_eq!(i, Some(0));
    match a {
        Admission::Rejected(r) => {
            assert_eq!(r.status(), 403);
            assert_eq!(r.message(), "signature mismatch");
        }
        _ => panic!("expected a refusal"),
    }
    let (a, _) = triage(&c, "/webhook/api", b"{}", &sign("s1", b"{}"), "issues");
    match a {
        Admission::Rejected(r) => {
            assert_eq!(r.status(), 400);
            assert_eq!(r.message(), "unsupported event: issues");
        }
        _ => panic!("expected a refusal"),
    }
}

#[test]
fn body_of_exactly_the_limit_is_checked() {
    let c = config(vec![project("api", "s1")]);
    let body = vec![b'x'; MAX_BODY];
    let (a, _) = triage(&c, "/webhook/api", &body, &sign("s1", &body), "push");
    assert!(matches!(a, Admission::Push(0)));
    assert!(matches!(Rejection::TooLarge, Rejection::TooLarge));
}

#[test]
fn zero_ids_mark_created_or_deleted_branches() {
    assert!(is_all_zeros("0000000000000000000000000000000000000000"));
    assert!(!is_all_zeros(""));
    assert!(!is_all_zeros("000a"));
}

fn push(after: &str, before: &str) -> PushEvent {
    PushEvent {
        git_ref: "refs/heads/main".to_string(),
        after: after.to_string(),
        before: before.to_string(),
        commits: Vec::new(),
        compare: String::new(),
        repository: RepositoryInfo {
            full_name: "acme/api".to_string(),
        },
    }
}

#[test]
fn duplicate_deliveries_are_skipped() {
    let e = push("abc", "def");
    assert_eq!(
        push_disposition(&e, "d-1", false),
        PushDisposition::Deploy {
            record_delivery: true
        }
    );
    assert_eq!(push_disposition(&e, "d-1", true), PushDisposition::Duplicate);
    assert_eq!(
        push_disposition(&e, "", true),
        PushDisposition::Deploy {
            record_delivery: false
        }
    );
    assert_eq!(
        push_disposition(&push("000", "def"), "d-2", false),
        PushDisposition::RefCreatedOrDeleted
    );
    assert_eq!(
        push_disposition(&push("abc", "0"), "d-2", true),
        PushDisposition::RefCreatedOrDeleted
    );
}

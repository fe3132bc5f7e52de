use github_deploy_helper::configure::loader::CommitVerify;
use github_deploy_helper::deploy::verify::{all_verified, authors_allowed, commit_api_urls, NOT_OWNER_REPO};
use github_deploy_helper::webhook::payload::{CommitAuthor, CommitInfo, PushEvent, RepositoryInfo};

fn verify_with(allowed: &[&str]) -> CommitVerify {
    CommitVerify::for_test(allowed.iter().map(|s| s.to_string()).collect(), false)
}

fn commit_with_email(email: &str) -> CommitInfo {
    CommitInfo::for_test(Some(email.to_string()), None)
}

#[test]
fn empty_allowlist_allows_everything() {
    let verify = verify_with(&[]);
    let commits = vec![commit_with_email("anyone@example.com")];
    assert!(authors_allowed(&commits, &verify));
}

#[test]
fn matching_author_email_passes() {
    let verify = verify_with(&["alice@example.com"]);
    let commits = vec![commit_with_email("Alice@Example.com")];
    assert!(authors_allowed(&commits, &verify));
}

#[test]
fn non_matching_author_email_fails() {
    let verify = verify_with(&["alice@example.com"]);
    let commits = vec![commit_with_email("mallory@example.com")];
    assert!(!authors_allowed(&commits, &verify));
}

#[test]
fn one_unauthorized_commit_fails_whole_push() {
    let verify = verify_with(&["alice@example.com"]);
    let commits = vec![
        commit_with_email("alice@example.com"),
        commit_with_email("mallory@example.com"),
    ];
    assert!(!authors_allowed(&commits, &verify));
}

#[test]
fn committer_username_counts_as_identity() {
    let verify = verify_with(&["Octocat"]);
    let mut c = CommitInfo::for_test(Some("someone@example.com".to_string()), None);
    c.committer = CommitAuthor {
        email: None,
        username: Some("octocat".to_string()),
    };
    assert!(authors_allowed(&[c], &verify));
}

#[test]
fn empty_push_passes_any_allowlist() {
    let verify = verify_with(&["alice@example.com"]);
    assert!(authors_allowed(&[], &verify));
}

fn push(full_name: &str, ids: &[&str]) -> PushEvent {
    PushEvent {
        git_ref: "refs/heads/main".to_string(),
        after: "b".repeat(40),
        before: "a".repeat(40),
        commits: ids
            .iter()
            .map(|id| {
                let mut c = CommitInfo::for_test(None, None);
                c.id = id.to_string();
                c
            })
            .collect(),
        compare: String::new(),
        repository: RepositoryInfo {
            full_name: full_name.to_string(),
        },
    }
}

#[test]
fn commit_api_urls_name_each_commit() {
    let urls = commit_api_urls(&push("acme/site", &["abc", "def"])).unwrap();
    assert_eq!(
        urls,
        vec![
            "https://api.github.com/repos/acme/site/commits/abc".to_string(),
            "https://api.github.com/repos/acme/site/commits/def".to_string(),
        ]
    );
}

#[test]
fn commit_api_urls_need_owner_and_repo() {
    assert_eq!(commit_api_urls(&push("site", &["abc"])), Err(NOT_OWNER_REPO));
}

#[test]
fn every_answer_must_be_verified() {
    assert!(all_verified(&[]));
    assert!(all_verified(&[true, true]));
    assert!(!all_verified(&[true, false, true]));
}

#[test]
fn allowlist_is_held_lower_cased() {
    let v = verify_with(&["Alice@Example.COM", "ÉCOLE"]);
    assert_eq!(v.allowed_authors(), &["alice@example.com".to_string(), "école".to_string()]);
    assert!(!v.require_signed());
}

use github_deploy_helper::configure::loader::CommitFilter;
use github_deploy_helper::configure::types::{FilterMode, TomlCommitFilter};
use github_deploy_helper::deploy::filter::{branch_matches, commit_filter_passes};
use github_deploy_helper::webhook::payload::{CommitAuthor, CommitInfo, PingEvent, PushEvent, RepositoryInfo};

fn commit(id: &str, message: &str, url: &str, files: &[&str]) -> CommitInfo {
    CommitInfo {
        id: id.to_string(),
        message: message.to_string(),
        url: url.to_string(),
        added: Vec::new(),
        removed: Vec::new(),
        modified: files.iter().map(|f| f.to_string()).collect(),
        author: CommitAuthor {
            email: Some("a@example.com".to_string()),
            username: Some("alice".to_string()),
        },
        committer: CommitAuthor {
            email: None,
            username: None,
        },
    }
}

fn push(git_ref: &str, commits: Vec<CommitInfo>) -> PushEvent {
    PushEvent {
        git_ref: git_ref.to_string(),
        after: "b".repeat(40),
        before: "a".repeat(40),
        commits,
        compare: "https://github.com/acme/api/compare/a...b".to_string(),
        repository: RepositoryInfo {
            full_name: "acme/api".to_string(),
        },
    }
}

#[test]
fn branch_is_what_follows_refs_heads() {
    let e = push("refs/heads/feature/x", Vec::new());
    assert_eq!(e.branch_name(), "feature/x");
    assert!(branch_matches(&e, "feature/x"));
    assert!(!branch_matches(&e, "x"));
    let r = push("refs/heads/release/main", Vec::new());
    assert!(!branch_matches(&r, "main"));
    assert_eq!(push("main", Vec::new()).branch_name(), "main");
    assert_eq!(push("refs/tags/v1", Vec::new()).branch_name(), "refs/tags/v1");
    assert_eq!(e.repository().owner_repo(), Some(("acme", "api")));
}

#[test]
fn summary_of_one_commit_links_it() {
    let e = push(
        "refs/heads/main",
        vec![commit("0123456789abcdef", "Fix <b> & more\n\nbody", "https://x/c?a=1&b=2", &[])],
    );
    assert_eq!(
        e.render_commit_summary(),
        "🔨 <a href=\"https://x/c?a=1&amp;b=2\">1 new commit</a> <b>to acme/api:main</b>:\n\n<a href=\"https://x/c?a=1&amp;b=2\">01234567</a>: Fix &lt;b&gt; &amp; more"
    );
}

#[test]
fn summary_of_several_commits_counts_them() {
    let e = push(
        "refs/heads/main",
        vec![commit("aaaaaaaa", "one", "u1", &[]), commit("bbbbbbbb", "two", "u2", &[])],
    );
    assert_eq!(
        e.render_commit_summary(),
        "🔨 <a href=\"https://github.com/acme/api/compare/a...b\">2 new commits</a> <b>to acme/api:main</b>:\n\n<a href=\"u1\">aaaaaaaa</a>: one\n<a href=\"u2\">bbbbbbbb</a>: two"
    );
}

#[test]
fn commit_lists_its_files_and_identities() {
    let mut c = commit("abc", "m", "u", &["src/main.rs"]);
    c.added = vec!["new.rs".to_string()];
    c.removed = vec!["old.rs".to_string()];
    assert_eq!(c.all_files(), vec!["new.rs", "old.rs", "src/main.rs"]);
    assert_eq!(c.identities(), vec!["a@example.com", "alice"]);
    c.author.email = Some("Alice@Example.COM".to_string());
    c.committer.username = Some("ÉMILE".to_string());
    assert_eq!(c.identities(), vec!["alice@example.com", "alice", "émile"]);
    let ping = PingEvent {
        zen: "Keep it logically awesome.".to_string(),
    };
    assert_eq!(ping.zen(), "Keep it logically awesome.");
}

fn filter(mode: FilterMode, globs: &[&str], patterns: &[&str]) -> CommitFilter {
    CommitFilter::from_toml(&TomlCommitFilter {
        mode,
        globs: globs.iter().map(|g| g.to_string()).collect(),
        message_patterns: patterns.iter().map(|p| p.to_string()).collect(),
    })
}

#[test]
fn include_filter_needs_a_matching_file_or_message() {
    let f = filter(FilterMode::Include, &["src/**"], &["^deploy:"]);
    assert!(commit_filter_passes(&[commit("1", "x", "u", &["src/a.rs"])], &f));
    assert!(commit_filter_passes(&[commit("1", "deploy: now", "u", &["README.md"])], &f));
    assert!(!commit_filter_passes(&[commit("1", "docs", "u", &["README.md"])], &f));
}

#[test]
fn exclude_filter_skips_pushes_entirely_matched() {
    let f = filter(FilterMode::Exclude, &["*.md"], &[]);
    assert!(!commit_filter_passes(&[commit("1", "x", "u", &["README.md"])], &f));
    assert!(commit_filter_passes(&[commit("1", "x", "u", &["README.md", "src/a.rs"])], &f));
    let msgs = filter(FilterMode::Exclude, &[], &["\\[skip deploy\\]"]);
    assert!(!commit_filter_passes(&[commit("1", "wip [skip deploy]", "u", &["src/a.rs"])], &msgs));
    assert!(commit_filter_passes(
        &[commit("1", "wip [skip deploy]", "u", &[]), commit("2", "real", "u", &[])],
        &msgs
    ));
}

#[test]
fn invalid_patterns_are_ignored() {
    let f = filter(FilterMode::Include, &["[unclosed"], &["(unclosed"]);
    assert!(commit_filter_passes(&[commit("1", "x", "u", &["a"])], &f));
}

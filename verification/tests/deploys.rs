use github_deploy_helper::configure::loader::{CommitFilter, Commands, Project, ProjectAuth};
use github_deploy_helper::configure::types::{FilterMode, TomlCommands, TomlCommitFilter};
use github_deploy_helper::deploy::engine::{
    outcome_notice, plan_deploy, push_gate, started_notice, step_outcome, DeployAction, DeployOutcome, DeployProgress,
    DeployStep, PushGate, StepResult,
};
use github_deploy_helper::deploy::runner::CommandOutput;
use github_deploy_helper::notify::telegram::NotifyEvent;
use github_deploy_helper::webhook::payload::{CommitInfo, PushEvent, RepositoryInfo};

fn commands(restart: bool) -> Commands {
    Commands::from_toml(&TomlCommands {
        stop: Some("systemctl stop api".to_string()),
        pull: None,
        no_pull: None,
        init: Some("make init".to_string()),
        update: Some("make".to_string()),
        start: Some("systemctl start api".to_string()),
        restart: if restart {
            Some("systemctl restart api".to_string())
        } else {
            None
        },
    })
}

fn steps(plan: &github_deploy_helper::deploy::engine::DeployPlan) -> Vec<(DeployStep, String)> {
    plan.steps.iter().map(|s| (s.step, s.command.clone())).collect()
}

#[test]
fn first_deploy_runs_init_after_pull() {
    let plan = plan_deploy(&commands(false), true, false);
    let names: Vec<&str> = plan.steps.iter().map(|s| s.step.name()).collect();
    assert_eq!(names, vec!["stop", "pull", "init", "update", "start"]);
    assert_eq!(plan.mark_initialized_after, Some(3));
    assert_eq!(steps(&plan)[2], (DeployStep::Init, "make init".to_string()));
}

#[test]
fn restart_replaces_stop_and_start() {
    let plan = plan_deploy(&commands(true), false, false);
    let names: Vec<&str> = plan.steps.iter().map(|s| s.step.name()).collect();
    assert_eq!(names, vec!["pull", "update", "restart"]);
    assert_eq!(plan.mark_initialized_after, None);
}

fn ok() -> StepResult {
    StepResult::Exited(CommandOutput {
        stdout: "done".to_string(),
        stderr: String::new(),
        success: true,
    })
}

#[test]
fn progress_marks_init_then_runs_to_the_end() {
    let plan = plan_deploy(&commands(false), true, false);
    let mut p = DeployProgress::start();
    let mut seen = Vec::new();
    loop {
        match p.next_action(&plan) {
            DeployAction::MarkInitialized => {
                seen.push("mark".to_string());
                p.record_mark();
            }
            DeployAction::Run(i) => {
                seen.push(plan.steps[i].step.name().to_string());
                assert!(p.record_step(&plan, &ok()).is_none());
            }
            DeployAction::Finish => break,
            DeployAction::Bypass => panic!("the plan is not bypassed"),
        }
    }
    assert_eq!(seen, vec!["stop", "pull", "init", "mark", "update", "start"]);
}

#[test]
fn a_bypassed_project_runs_nothing() {
    let plan = plan_deploy(&commands(false), true, true);
    assert!(plan.steps.is_empty());
    assert_eq!(plan.mark_initialized_after, None);
    assert_eq!(DeployProgress::start().next_action(&plan), DeployAction::Bypass);
}

#[test]
fn a_failing_step_aborts_the_deploy() {
    let plan = plan_deploy(&commands(false), true, false);
    let mut p = DeployProgress::start();
    assert_eq!(p.next_action(&plan), DeployAction::Run(0));
    assert!(p.record_step(&plan, &ok()).is_none());
    let failed = StepResult::Exited(CommandOutput {
        stdout: String::new(),
        stderr: "no network".to_string(),
        success: false,
    });
    match p.record_step(&plan, &failed) {
        Some(DeployOutcome::Aborted { step, reason }) => {
            assert_eq!(step, DeployStep::Pull);
            assert_eq!(reason, "exit failure\nstderr: no network");
        }
        _ => panic!("expected an abort"),
    }
    assert_eq!(p.done, 1);
    assert!(!p.marked);
}

#[test]
fn a_step_that_cannot_run_aborts_with_its_reason() {
    match step_outcome(DeployStep::Update, &StepResult::Failed("Command timed out after 5s: make".to_string())) {
        Some(DeployOutcome::Aborted { step, reason }) => {
            assert_eq!(step, DeployStep::Update);
            assert_eq!(reason, "Command timed out after 5s: make");
        }
        _ => panic!("expected an abort"),
    }
    assert!(step_outcome(DeployStep::Update, &ok()).is_none());
}

#[test]
fn notices_follow_the_outcome() {
    let failed = DeployOutcome::Aborted {
        step: DeployStep::Start,
        reason: "a < b & c".to_string(),
    };
    let n = outcome_notice("api", &failed).unwrap();
    assert_eq!(
        n.message(),
        "❌ <b>api</b>: deploy failed at <code>start</code>\n<pre>a &lt; b &amp; c</pre>"
    );
    let s = outcome_notice("api", &DeployOutcome::Success).unwrap();
    assert_eq!(s.message(), "✅ <b>api</b>: deploy succeeded");
    assert!(outcome_notice("api", &DeployOutcome::Bypassed).is_none());
    let started = NotifyEvent::Started {
        project: "api".to_string(),
        summary: None,
    };
    assert_eq!(started.message(), "🚀 <b>api</b>: deploy started");
}

#[test]
fn started_notice_carries_the_commit_summary() {
    let mut c = CommitInfo::for_test(None, None);
    c.id = "0123456789".to_string();
    c.url = "u".to_string();
    c.message = "ship it".to_string();
    let mut e = push_to("refs/heads/main", &[]);
    e.commits = vec![c];
    let n = started_notice("api", &e);
    assert_eq!(
        n.message(),
        "🚀 <b>api</b>: deploy started\n\n🔨 <a href=\"u\">1 new commit</a> <b>to acme/api:main</b>:\n\n<a href=\"u\">01234567</a>: ship it"
    );
    e.commits[0].id = "abcdefgé".to_string();
    match started_notice("api", &e) {
        NotifyEvent::Started { summary, .. } => assert!(summary.is_none()),
        _ => panic!("expected a start notice"),
    }
}

fn project(filter: Option<CommitFilter>) -> Project {
    Project {
        name: "api".to_string(),
        http_path: "/webhook/api".to_string(),
        working_dir: "/srv/api".to_string(),
        git_url: None,
        secret: "s".to_string(),
        branch: "main".to_string(),
        effective_timeout: 30,
        bypass: false,
        commit_filter: filter,
        commit_verify: None,
        commands: commands(false),
        auth: ProjectAuth::Ssh,
    }
}

fn push_to(git_ref: &str, files: &[&str]) -> PushEvent {
    let mut c = CommitInfo::for_test(None, None);
    c.modified = files.iter().map(|f| f.to_string()).collect();
    c.message = "docs: typo".to_string();
    PushEvent {
        git_ref: git_ref.to_string(),
        after: "b".repeat(40),
        before: "a".repeat(40),
        commits: vec![c],
        compare: String::new(),
        repository: RepositoryInfo {
            full_name: "acme/api".to_string(),
        },
    }
}

#[test]
fn pushes_are_gated_by_branch_then_filter() {
    assert_eq!(push_gate(&push_to("refs/heads/dev", &["src/a.rs"]), &project(None)), PushGate::BranchMismatch);
    assert_eq!(push_gate(&push_to("refs/heads/main", &["src/a.rs"]), &project(None)), PushGate::Proceed);
    let docs_only = CommitFilter::from_toml(&TomlCommitFilter {
        mode: FilterMode::Exclude,
        globs: vec!["docs/**".to_string(), "*.md".to_string()],
        message_patterns: Vec::new(),
    });
    assert_eq!(
        push_gate(&push_to("refs/heads/main", &["docs/guide.md"]), &project(Some(docs_only))),
        PushGate::FilteredOut
    );
}

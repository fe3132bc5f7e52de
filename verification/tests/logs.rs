use github_deploy_helper::deploy::runner::CommandOutput;
use github_deploy_helper::logging::calendar::{civil_from_days, date_string};
use github_deploy_helper::logging::cleaner::{entry_action, retention_cutoff, EntryAction, NANOS_PER_DAY};
use github_deploy_helper::logging::project_log::{log_entry, log_file_name, ProjectLog};
use github_deploy_helper::logging::verbosity::noisy_directives;
use std::path::Path;

#[test]
fn civil_from_days_matches_known_dates() {
    assert_eq!(civil_from_days(0), (1970, 1, 1));
    assert_eq!(civil_from_days(19_723), (2024, 1, 1));
    assert_eq!(civil_from_days(20_458), (2026, 1, 5));
}

#[test]
fn civil_from_days_handles_leap_days_and_the_past() {
    assert_eq!(civil_from_days(59), (1970, 3, 1));
    assert_eq!(civil_from_days(11_016), (2000, 2, 29));
    assert_eq!(civil_from_days(11_017), (2000, 3, 1));
    assert_eq!(civil_from_days(-1), (1969, 12, 31));
    assert_eq!(civil_from_days(-719_468), (0, 3, 1));
    assert_eq!(civil_from_days(-719_469), (0, 2, 29));
    assert_eq!(civil_from_days(47_541), (2100, 3, 1));
}

#[test]
fn date_string_pads_each_part() {
    assert_eq!(date_string(0), "1970-01-01");
    assert_eq!(date_string(86_399), "1970-01-01");
    assert_eq!(date_string(1_700_000_000), "2023-11-14");
    assert_eq!(log_file_name(19_723 * 86_400 + 5), "2024-01-01.log");
}

#[test]
fn project_log_lives_in_a_folder_per_project() {
    let log = ProjectLog::new(Path::new("/var/log/helper"), "my-project");
    assert_eq!(log.dir(), &Path::new("/var/log/helper").join("my-project"));
    assert_eq!(
        log.file_for(20_458 * 86_400),
        Path::new("/var/log/helper/my-project").join("2026-01-05.log")
    );
}

#[test]
fn log_entry_records_stdout_and_stderr() {
    let ok = log_entry(
        7,
        "pull",
        "git fetch",
        &CommandOutput {
            stdout: "fetched 3 objects".to_owned(),
            stderr: String::new(),
            success: true,
        },
    );
    assert_eq!(ok, "==== unix=7 step=pull status=ok\n$ git fetch\nfetched 3 objects\n");
    let failed = log_entry(
        8,
        "start",
        "systemctl start x",
        &CommandOutput {
            stdout: String::new(),
            stderr: "unit not found".to_owned(),
            success: false,
        },
    );
    assert_eq!(
        failed,
        "==== unix=8 step=start status=failed\n$ systemctl start x\n-- stderr --\nunit not found\n"
    );
    assert!(failed.contains("step=start status=failed"));
    assert!(failed.contains("-- stderr --"));
}

#[test]
fn cleaner_keeps_nothing_older_than_the_cutoff() {
    assert_eq!(retention_cutoff(100 * NANOS_PER_DAY, 0), None);
    let cutoff = retention_cutoff(100 * NANOS_PER_DAY, 30).unwrap();
    assert_eq!(cutoff, 70 * NANOS_PER_DAY);
    assert_eq!(entry_action(false, true, Some(40 * NANOS_PER_DAY), cutoff), EntryAction::Remove);
    assert_eq!(entry_action(false, false, Some(40 * NANOS_PER_DAY), cutoff), EntryAction::Remove);
    assert_eq!(entry_action(false, true, Some(99 * NANOS_PER_DAY), cutoff), EntryAction::Keep);
    assert_eq!(entry_action(false, true, None, cutoff), EntryAction::Keep);
    assert_eq!(entry_action(true, true, None, cutoff), EntryAction::Descend);
    assert_eq!(entry_action(true, false, Some(0), cutoff), EntryAction::Keep);
}

#[test]
fn verbosity_unmutes_groups_step_by_step() {
    assert_eq!(noisy_directives(0).len(), 13);
    assert_eq!(noisy_directives(0)[12], "reqwest::connect=warn");
    assert_eq!(noisy_directives(1).len(), 12);
    assert_eq!(noisy_directives(4), vec!["quinn_proto::connection=warn"]);
    assert!(noisy_directives(5).is_empty());
    assert!(noisy_directives(200).is_empty());
}

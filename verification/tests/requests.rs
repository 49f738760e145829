use changelog::entry::{ChangelogEntry, ChangelogEntryType};
use changelog::events::{
    Commit, MoMMIConfig, PullRequest, PullRequestAction, PullRequestEvent, PushEvent, Repository,
    User,
};
use changelog::logs::{log_error, log_info, LogRecord};
use changelog::pull_request::{
    temp_changelog_path, temp_changelog_written, try_handle_changelog_pr,
};
use changelog::push::try_handle_changelog_push;

fn config(name: Option<&str>) -> MoMMIConfig {
    MoMMIConfig {
        changelog_repo_path: Some("/srv/repo".to_string()),
        changelog_repo_name: name.map(|n| n.to_string()),
        changelog_delay: 60,
        ssh_key: None,
        commloop: None,
    }
}

fn merge(body: &str) -> PullRequestEvent {
    PullRequestEvent {
        action: PullRequestAction::Closed,
        number: 21025,
        pull_request: PullRequest {
            merged: true,
            body: body.to_string(),
            user: User { login: "someone".to_string() },
        },
        repository: Repository { full_name: "station/code".to_string() },
    }
}

const BODY: &str = "Doors.\n:cl:\n * bugfix: Doors close again.\n * wip: Windows.\n";

fn received(action: &str, merged: bool) -> LogRecord {
    log_info(&format!("Received PR event: action={}, merged={}, PR#21025", action, merged))
}

#[test]
fn merge_with_entries_is_written() {
    for name in [None, Some("station/code")] {
        let plan = try_handle_changelog_pr(&merge(BODY), &config(name));
        assert_eq!(
            plan.logs,
            vec![received("Closed", true), log_info("Found 2 changelogs in PR#21025")]
        );
        let temp = plan.temp.unwrap();
        assert_eq!(temp.path, "html/changelogs/PR-21025-temp.yml");
        assert_eq!(temp.changelog.author, "someone");
        assert_eq!(temp.changelog.delete_after, Some(true));
        assert_eq!(
            temp.changelog.changes,
            vec![
                ChangelogEntry(ChangelogEntryType::Bugfix, "Doors close again.".to_string()),
                ChangelogEntry(ChangelogEntryType::Wip, "Windows.".to_string()),
            ]
        );
    }
}

#[test]
fn other_pull_request_events_are_skipped() {
    let skipping = log_info("PR not a merge or no changelog repo configured, skipping");

    let mut opened = merge(BODY);
    opened.action = PullRequestAction::Other("Opened".to_string());
    let plan = try_handle_changelog_pr(&opened, &config(None));
    assert_eq!(plan.logs, vec![received("Opened", true), skipping.clone()]);
    assert!(plan.temp.is_none());

    let mut refused = merge(BODY);
    refused.pull_request.merged = false;
    let plan = try_handle_changelog_pr(&refused, &config(None));
    assert_eq!(plan.logs, vec![received("Closed", false), skipping.clone()]);
    assert!(plan.temp.is_none());

    let mut without_path = config(None);
    without_path.changelog_repo_path = None;
    let plan = try_handle_changelog_pr(&merge(BODY), &without_path);
    assert_eq!(plan.logs, vec![received("Closed", true), skipping]);
    assert!(plan.temp.is_none());

    let plan = try_handle_changelog_pr(&merge(BODY), &config(Some("other/code")));
    assert_eq!(plan.logs, vec![received("Closed", true)]);
    assert!(plan.temp.is_none());

    let plan = try_handle_changelog_pr(&merge("Doors."), &config(None));
    assert_eq!(
        plan.logs,
        vec![received("Closed", true), log_info("No changelogs found in PR body")]
    );
    assert!(plan.temp.is_none());
}

#[test]
fn written_or_not_the_run_follows() {
    let after = temp_changelog_written(7, Ok(()));
    assert_eq!(after.log, log_info("Wrote temp changelog for PR-7"));
    assert!(after.process);
    let after = temp_changelog_written(7, Err("disk full".to_string()));
    assert_eq!(after.log, log_error("Error writing changelog temp file: disk full"));
    assert!(after.process);
}

#[test]
fn temp_paths() {
    assert_eq!(temp_changelog_path(0), "html/changelogs/PR-0-temp.yml");
    assert_eq!(temp_changelog_path(10), "html/changelogs/PR-10-temp.yml");
    assert_eq!(
        temp_changelog_path(u64::MAX),
        "html/changelogs/PR-18446744073709551615-temp.yml"
    );
}

fn push(commits: &[(&[&str], &[&str])]) -> PushEvent {
    let strings = |list: &[&str]| list.iter().map(|s| s.to_string()).collect::<Vec<String>>();
    PushEvent {
        commits: commits
            .iter()
            .map(|c| Commit { added: strings(c.0), modified: strings(c.1) })
            .collect(),
        repository: Repository { full_name: "station/code".to_string() },
    }
}

fn leads_to_run(path: &str) -> bool {
    let plan = try_handle_changelog_push(&push(&[(&[path], &[])]), &config(None));
    assert_eq!(plan.logs, vec![log_info(&format!("Push event file: {}", path))]);
    plan.process
}

#[test]
fn changelog_paths() {
    for path in [
        "html/changelogs/a.yml",
        "html/changelogs/PR-1-temp.yml",
        "html/changelogs/example.yml",
        "html/changelogs/sub/.hidden.yml",
        "html/changelogs/a.yml.yml",
        "html/changelogs/\n.yml",
        "html/changelogs/\u{1F191}.yml",
    ] {
        assert!(leads_to_run(path), "{:?}", path);
    }
    for path in [
        "",
        "a.yml",
        "html/changelogs/.yml",
        "html/changelogs/.all_changelog.yml",
        "html/changelogs/a.yaml",
        "html/changelogs/a.yml ",
        "html/changelogs/a.yml\n",
        "html/changelogs/a\nb.yml",
        "html/changelogs/ayml",
        "html/changelogs/",
        "html/changelog.html",
        "x/html/changelogs/a.yml",
        "html/changelogsa.yml",
        "HTML/changelogs/a.yml",
    ] {
        assert!(!leads_to_run(path), "{:?}", path);
    }
}

#[test]
fn temp_file_leads_to_run() {
    for number in [0, 1, 99, 12345] {
        assert!(leads_to_run(&temp_changelog_path(number)));
    }
}

#[test]
fn push_is_scanned_up_to_the_first_changelog() {
    let event = push(&[
        (&["code/a.dm"], &["code/b.dm"]),
        (&[], &[]),
        (&["code/c.dm"], &["html/changelogs/x.yml", "code/d.dm"]),
        (&["html/changelogs/y.yml"], &[]),
    ]);
    let plan = try_handle_changelog_push(&event, &config(Some("station/code")));
    assert!(plan.process);
    assert_eq!(
        plan.logs,
        vec![
            log_info("Push event file: code/a.dm"),
            log_info("Push event file: code/b.dm"),
            log_info("Push event file: code/c.dm"),
            log_info("Push event file: html/changelogs/x.yml"),
        ]
    );
}

#[test]
fn push_without_changelogs_or_to_another_repository() {
    let plan = try_handle_changelog_push(&push(&[(&["a"], &["b"])]), &config(None));
    assert!(!plan.process);
    assert_eq!(plan.logs, vec![log_info("Push event file: a"), log_info("Push event file: b")]);

    let event = push(&[(&["html/changelogs/x.yml"], &[])]);
    let plan = try_handle_changelog_push(&event, &config(Some("other/code")));
    assert!(!plan.process);
    assert_eq!(plan.logs, vec![]);

    let mut without_path = config(None);
    without_path.changelog_repo_path = None;
    assert!(try_handle_changelog_push(&event, &without_path).process);
}

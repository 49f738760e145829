use changelog::entry::{Changelog, ChangelogEntry, ChangelogEntryType};
use changelog::events::MoMMIConfig;
use changelog::logs::{log_error, log_info, log_warning};
use changelog::manager::{
    changelog_thread_started, handle_changelog_thread, process_changelogs, request_received,
    waiting_record, ChangelogManager, ThreadStep, TimeSpan,
};
use changelog::run::{announces, do_changelog, ChangelogRun, RunAction, RunEvent};

fn at(secs: u64, nanos: u32) -> TimeSpan {
    TimeSpan { secs, nanos }
}

#[test]
fn requests_share_one_thread() {
    assert_eq!(request_received(), log_info("process_changelogs called"));
    let mut manager = ChangelogManager::new();
    let first = process_changelogs(&mut manager, at(5, 0));
    assert!(first.spawn);
    assert_eq!(first.log, log_info("Spawning new changelog thread"));
    let second = process_changelogs(&mut manager, at(6, 0));
    assert!(!second.spawn);
    assert_eq!(second.log, log_info("Changelog thread already running, updated last_time"));
    assert_eq!(manager.last_time, Some(at(6, 0)));
    assert_eq!(manager.begin_run(), log_info("Running changelogs!"));
    assert_eq!(manager.last_time, None);
    assert!(process_changelogs(&mut manager, at(7, 0)).spawn);
}

fn wait(manager: &ChangelogManager, now: TimeSpan, delay: u64) -> Option<(TimeSpan, String)> {
    match handle_changelog_thread(manager, now, delay) {
        ThreadStep::Run(log) => {
            assert_eq!(log, log_info("Delay elapsed, starting changelog processing"));
            None
        }
        ThreadStep::Wait(time, log) => Some((time, log.message)),
    }
}

#[test]
fn thread_waits_for_the_delay() {
    let manager = ChangelogManager { last_time: Some(at(10, 500_000_000)) };
    let waiting = |time: TimeSpan, text: &str| {
        Some((time, format!("Waiting {} before processing", text)))
    };
    assert_eq!(wait(&manager, at(10, 500_000_000), 2), waiting(at(2, 0), "2s"));
    assert_eq!(wait(&manager, at(11, 0), 2), waiting(at(1, 500_000_000), "1.5s"));
    assert_eq!(wait(&manager, at(12, 499_999_999), 2), waiting(at(0, 1), "1ns"));
    assert_eq!(wait(&manager, at(12, 500_000_000), 2), waiting(at(0, 0), "0ns"));
    assert_eq!(wait(&manager, at(12, 500_000_001), 2), None);
    assert_eq!(wait(&manager, at(14, 0), 2), None);
    // The clock went back.
    assert_eq!(wait(&manager, at(3, 0), 2), waiting(at(2, 0), "2s"));
    assert_eq!(wait(&manager, at(10, 500_000_001), 0), None);
}

#[test]
fn a_request_restarts_the_delay() {
    let mut manager = ChangelogManager::new();
    process_changelogs(&mut manager, at(0, 0));
    assert_eq!(wait(&manager, at(61, 0), 60), None);
    process_changelogs(&mut manager, at(61, 0));
    assert_eq!(wait(&manager, at(61, 0), 60).unwrap().0, at(60, 0));
}

#[test]
fn one_run_after_the_delay_answers_all_requests() {
    let mut manager = ChangelogManager::new();
    let delay = 60;
    let mut threads = 0;
    let mut runs = Vec::new();
    // Requests at 0, 30, 80 and 300 seconds; the waiting thread looks every second.
    for second in 0..500 {
        if [0, 30, 80, 300].contains(&second) && process_changelogs(&mut manager, at(second, 0)).spawn
        {
            threads += 1;
        }
        if manager.last_time.is_some() && wait(&manager, at(second, 0), delay).is_none() {
            manager.begin_run();
            runs.push(second);
        }
    }
    assert_eq!(runs, vec![141, 361]);
    assert_eq!(threads, 2);
}

#[test]
fn waiting_is_logged() {
    assert_eq!(waiting_record("1.5s"), log_info("Waiting 1.5s before processing"));
    assert_eq!(waiting_record(""), log_info("Waiting  before processing"));
}

#[test]
fn time_differences() {
    assert_eq!(at(2, 5).checked_sub(at(1, 3)), Some(at(1, 2)));
    assert_eq!(at(2, 3).checked_sub(at(1, 5)), Some(at(0, 999_999_998)));
    assert_eq!(at(2, 3).checked_sub(at(2, 5)), None);
    assert_eq!(at(1, 9).checked_sub(at(2, 0)), None);
    assert_eq!(at(1, 9).checked_sub(at(1, 9)), Some(at(0, 0)));
    assert_eq!(at(u64::MAX, 0).checked_sub(at(0, 1)), Some(at(u64::MAX - 1, 999_999_999)));
}

#[test]
fn thread_start_is_logged() {
    assert_eq!(changelog_thread_started(60), log_info("Changelog thread started, delay=60s"));
}

fn config(commloop: bool) -> MoMMIConfig {
    MoMMIConfig {
        changelog_repo_path: Some("/srv/repo".to_string()),
        changelog_repo_name: None,
        changelog_delay: 60,
        ssh_key: Some("/srv/key".to_string()),
        commloop: if commloop { Some(("host:1".to_string(), "pw".to_string())) } else { None },
    }
}

fn one_change() -> Changelog {
    Changelog {
        author: "someone".to_string(),
        changes: vec![ChangelogEntry(ChangelogEntryType::Wip, "ab".to_string())],
        delete_after: Some(true),
    }
}

fn exited(success: bool) -> RunEvent {
    RunEvent::Exited(success, "exit status: 1".to_string(), b"fatal: \xff".to_vec())
}

// The action, in short.
fn action(run: &ChangelogRun) -> String {
    match run.action() {
        RunAction::Command(c) => {
            let ssh = c.ssh_command.unwrap_or("-".to_string());
            let shown = if c.captured { "" } else { ", shown" };
            format!("{} {} in {} with {}{}", c.program, c.args.join(" "), c.dir, ssh, shown)
        }
        RunAction::NextFile(dir) => format!("next in {}", dir),
        RunAction::Load(file_name) => format!("load {}", file_name),
        RunAction::Send(address, password, kind, subject, changelog) => {
            format!("send {} {} {} '{}' {}", address, password, kind, subject, changelog.author)
        }
        RunAction::Finish => "finish".to_string(),
    }
}

#[test]
fn run_without_announcements() {
    let mut run = do_changelog(&config(false));
    assert_eq!(action(&run), "git fetch origin in /srv/repo with ssh -i /srv/key");
    assert!(run.awaits(&exited(true)));
    assert!(!run.awaits(&RunEvent::Sent));
    assert_eq!(run.advance(exited(true)), vec![log_info("git fetch successful")]);
    assert_eq!(action(&run), "git reset --hard origin/Bleeding-Edge in /srv/repo with -");
    assert_eq!(run.advance(exited(true)), vec![log_info("git reset successful")]);
    assert_eq!(
        action(&run),
        "python tools/changelog/ss13_genchangelog.py html/changelog.html html/changelogs in /srv/repo with -, shown"
    );
    assert_eq!(
        run.advance(exited(true)),
        vec![
            log_info("Changelog script successful"),
            log_info("Changelog processing complete")
        ]
    );
    assert_eq!(action(&run), "finish");
    assert!(!run.awaits(&exited(true)));
}

#[test]
fn run_without_a_key() {
    let mut config = config(false);
    config.ssh_key = None;
    assert_eq!(action(&do_changelog(&config)), "git fetch origin in /srv/repo with -");
}

#[test]
fn git_failures_end_the_run() {
    let mut run = do_changelog(&config(true));
    assert_eq!(run.advance(exited(false)), vec![log_error("git fetch failed: fatal: \u{fffd}")]);
    assert_eq!(action(&run), "finish");

    let mut run = do_changelog(&config(true));
    assert_eq!(
        run.advance(RunEvent::NotStarted("no git".to_string())),
        vec![log_error("git fetch error: no git")]
    );
    assert_eq!(action(&run), "finish");

    let mut run = do_changelog(&config(true));
    run.advance(exited(true));
    assert_eq!(run.advance(exited(false)), vec![log_error("git reset failed: fatal: \u{fffd}")]);
    assert_eq!(action(&run), "finish");

    let mut run = do_changelog(&config(true));
    run.advance(exited(true));
    assert_eq!(
        run.advance(RunEvent::NotStarted("no git".to_string())),
        vec![log_error("git reset error: no git")]
    );
    assert_eq!(action(&run), "finish");
}

fn at_files() -> ChangelogRun {
    let mut run = do_changelog(&config(true));
    run.advance(exited(true));
    run.advance(exited(true));
    assert_eq!(action(&run), "next in html/changelogs");
    run
}

fn file(name: &str) -> RunEvent {
    RunEvent::File(Some(name.to_string()))
}

#[test]
fn files_are_announced_in_order_whatever_fails() {
    let mut run = at_files();
    for name in [".all.yml", "notes.txt", "example.yml", "AutoChangeLog-pr-1.yml"] {
        assert_eq!(run.advance(file(name)), vec![]);
        assert_eq!(action(&run), "next in html/changelogs");
    }

    assert_eq!(run.advance(file("a.yml")), vec![log_info("Processing changelog file: a.yml")]);
    assert_eq!(action(&run), "load a.yml");
    assert_eq!(
        run.advance(RunEvent::OpenFailed("gone".to_string())),
        vec![log_error("Failed to open a.yml: gone")]
    );

    run.advance(file("b.yml"));
    assert_eq!(
        run.advance(RunEvent::ParseFailed("bad".to_string())),
        vec![log_error("Failed to parse b.yml: bad")]
    );

    run.advance(file("c.yml"));
    let mut empty = one_change();
    empty.changes.clear();
    assert_eq!(
        run.advance(RunEvent::Loaded(empty)),
        vec![log_warning("Changelog c.yml has no changes, skipping")]
    );

    run.advance(file("d.yml"));
    assert_eq!(run.advance(RunEvent::Loaded(one_change())), vec![]);
    assert_eq!(action(&run), "send host:1 pw changelog '' someone");
    assert_eq!(
        run.advance(RunEvent::SendFailed("refused".to_string())),
        vec![log_error("Failed sending changelog for d.yml: refused")]
    );

    run.advance(file("e.yml"));
    run.advance(RunEvent::Loaded(one_change()));
    assert_eq!(
        run.advance(RunEvent::Sent),
        vec![log_info("Changelog for e.yml sent to commloop")]
    );
    assert_eq!(action(&run), "next in html/changelogs");

    assert_eq!(run.advance(RunEvent::File(None)), vec![]);
    assert!(action(&run).starts_with("python "));
    assert_eq!(
        run.advance(exited(false)),
        vec![
            log_error("Changelog script failed: exit status: 1"),
            log_info("Changelog processing complete")
        ]
    );
    assert_eq!(action(&run), "finish");
}

#[test]
fn script_that_does_not_start() {
    let mut run = at_files();
    run.advance(RunEvent::File(None));
    assert_eq!(
        run.advance(RunEvent::NotStarted("no python".to_string())),
        vec![
            log_error("Changelog script failed badly: no python"),
            log_info("Changelog processing complete")
        ]
    );
    assert_eq!(action(&run), "finish");
}

#[test]
fn announced_files() {
    for name in ["a.yml", "PR-1-temp.yml", "Example.yml", "example.yml.yml", "autochangelog.yml"] {
        assert!(announces(name), "{}", name);
    }
    for name in
        ["", ".yml", ".a.yml", "a.yaml", "a.yml~", "yml", "example.yml", "AutoChangeLog.yml"]
    {
        assert!(!announces(name), "{}", name);
    }
}

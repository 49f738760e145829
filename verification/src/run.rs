//! A run over the changelogs, step by step.
//!
//! A run brings the checkout up to date, announces each changelog in it, where a
//! service for that is configured, and has a script put them into the public
//! changelog. At each stage `action` says what to do, and `advance` takes what came
//! of it.

use vstd::prelude::*;
use vstd::string::*;

use crate::entry::{Changelog, ChangelogView};
use crate::events::MoMMIConfig;
use crate::logs;
use crate::logs::{LogLevel, LogRecord};
use crate::pull_request;
use crate::push;
use crate::text;

verus! {

/// Where a run stands: the action that it waits for.
#[derive(Debug, Clone)]
pub enum Stage {
    /// The remote repository is being fetched.
    Fetch,
    /// The checkout is being reset.
    Reset,
    /// The next file of the directory of changelogs is being looked up.
    NextFile,
    /// This file is being read.
    Load(String),
    /// The changelog of this file is being announced.
    Send(String, Changelog),
    /// The script is running.
    Script,
    /// The run is over.
    Done,
}

/// The view of a stage, with texts in place of strings.
pub enum StageView {
    Fetch,
    Reset,
    NextFile,
    Load(Seq<char>),
    Send(Seq<char>, ChangelogView),
    Script,
    Done,
}

impl View for Stage {
    type V = StageView;

    open spec fn view(&self) -> StageView {
        match self {
            Stage::Fetch => StageView::Fetch,
            Stage::Reset => StageView::Reset,
            Stage::NextFile => StageView::NextFile,
            Stage::Load(file_name) => StageView::Load(file_name@),
            Stage::Send(file_name, changelog) => StageView::Send(file_name@, changelog@),
            Stage::Script => StageView::Script,
            Stage::Done => StageView::Done,
        }
    }
}

/// What came of an action. Errors and exit statuses come as texts.
#[derive(Debug, Clone)]
pub enum RunEvent {
    /// A command ended: whether well, with what status, and what it wrote on
    /// standard error.
    Exited(bool, String, Vec<u8>),
    /// A command could not be started.
    NotStarted(String),
    /// The name of the next file, or that there is none.
    File(Option<String>),
    /// The file could not be opened.
    OpenFailed(String),
    /// The file holds no changelog.
    ParseFailed(String),
    /// What the file holds.
    Loaded(Changelog),
    /// The changelog was announced.
    Sent,
    /// The changelog could not be announced.
    SendFailed(String),
}

/// The view of an event, with texts in place of strings.
pub enum RunEventView {
    Exited(bool, Seq<char>, Seq<u8>),
    NotStarted(Seq<char>),
    File(Option<Seq<char>>),
    OpenFailed(Seq<char>),
    ParseFailed(Seq<char>),
    Loaded(ChangelogView),
    Sent,
    SendFailed(Seq<char>),
}

impl View for RunEvent {
    type V = RunEventView;

    open spec fn view(&self) -> RunEventView {
        match self {
            RunEvent::Exited(success, status, stderr) => RunEventView::Exited(
                *success,
                status@,
                stderr@,
            ),
            RunEvent::NotStarted(e) => RunEventView::NotStarted(e@),
            RunEvent::File(file_name) => RunEventView::File(text::optional_text(*file_name)),
            RunEvent::OpenFailed(e) => RunEventView::OpenFailed(e@),
            RunEvent::ParseFailed(e) => RunEventView::ParseFailed(e@),
            RunEvent::Loaded(changelog) => RunEventView::Loaded(changelog@),
            RunEvent::Sent => RunEventView::Sent,
            RunEvent::SendFailed(e) => RunEventView::SendFailed(e@),
        }
    }
}

/// A run.
#[derive(Debug, Clone)]
pub struct ChangelogRun {
    /// The checkout.
    pub repo_path: String,
    /// The command by which git connects to the remote repository.
    pub ssh_command: Option<String>,
    /// The address and the password of the service that announces changes.
    pub commloop: Option<(String, String)>,
    pub stage: Stage,
}

/// Whether the changelog in a file is announced: in a visible YAML file that is
/// neither the example nor the work of the automatic changelog.
pub open spec fn is_announced(file_name: Seq<char>) -> bool {
    &&& !"."@.is_prefix_of(file_name)
    &&& ".yml"@.is_suffix_of(file_name)
    &&& file_name != "example.yml"@
    &&& !"AutoChangeLog"@.is_prefix_of(file_name)
}

/// Whether the changelog in a file is announced.
pub fn announces(file_name: &str) -> (b: bool)
    ensures
        b == is_announced(file_name@),
{
    !(text::starts_with(file_name, ".") || !text::ends_with(file_name, ".yml")
        || file_name.to_owned() == "example.yml".to_owned() || text::starts_with(
        file_name,
        "AutoChangeLog",
    ))
}

/// Whether an event is one that the stage waits for.
pub open spec fn answers(event: RunEventView, stage: StageView) -> bool {
    match stage {
        StageView::Fetch | StageView::Reset | StageView::Script => event is Exited
            || event is NotStarted,
        StageView::NextFile => event is File,
        StageView::Load(_) => event is OpenFailed || event is ParseFailed || event is Loaded,
        StageView::Send(_, _) => event is Sent || event is SendFailed,
        StageView::Done => false,
    }
}

/// The stage that an event leads to. `commloop` says whether changelogs are
/// announced.
pub open spec fn next_stage(stage: StageView, event: RunEventView, commloop: bool) -> StageView {
    match (stage, event) {
        (StageView::Fetch, RunEventView::Exited(true, _, _)) => StageView::Reset,
        (StageView::Fetch, _) => StageView::Done,
        (StageView::Reset, RunEventView::Exited(true, _, _)) => if commloop {
            StageView::NextFile
        } else {
            StageView::Script
        },
        (StageView::Reset, _) => StageView::Done,
        (StageView::NextFile, RunEventView::File(Some(file_name))) => if is_announced(file_name) {
            StageView::Load(file_name)
        } else {
            StageView::NextFile
        },
        (StageView::NextFile, _) => StageView::Script,
        (StageView::Load(file_name), RunEventView::Loaded(changelog)) => if changelog.changes.len()
            > 0 {
            StageView::Send(file_name, changelog)
        } else {
            StageView::NextFile
        },
        (StageView::Load(_), _) => StageView::NextFile,
        (StageView::Send(_, _), _) => StageView::NextFile,
        (StageView::Script, _) => StageView::Done,
        (StageView::Done, _) => StageView::Done,
    }
}

/// What is logged when an event comes.
pub open spec fn step_logs(stage: StageView, event: RunEventView) -> Seq<(LogLevel, Seq<char>)> {
    match (stage, event) {
        (StageView::Fetch, RunEventView::Exited(true, _, _)) => seq![
            logs::info("git fetch successful"@),
        ],
        (StageView::Fetch, RunEventView::Exited(false, _, stderr)) => seq![
            logs::error("git fetch failed: "@ + text::utf8_lossy(stderr)),
        ],
        (StageView::Fetch, RunEventView::NotStarted(e)) => seq![
            logs::error("git fetch error: "@ + e),
        ],
        (StageView::Reset, RunEventView::Exited(true, _, _)) => seq![
            logs::info("git reset successful"@),
        ],
        (StageView::Reset, RunEventView::Exited(false, _, stderr)) => seq![
            logs::error("git reset failed: "@ + text::utf8_lossy(stderr)),
        ],
        (StageView::Reset, RunEventView::NotStarted(e)) => seq![
            logs::error("git reset error: "@ + e),
        ],
        (StageView::NextFile, RunEventView::File(Some(file_name))) => if is_announced(file_name) {
            seq![logs::info("Processing changelog file: "@ + file_name)]
        } else {
            seq![]
        },
        (StageView::Load(file_name), RunEventView::OpenFailed(e)) => seq![
            logs::error("Failed to open "@ + file_name + ": "@ + e),
        ],
        (StageView::Load(file_name), RunEventView::ParseFailed(e)) => seq![
            logs::error("Failed to parse "@ + file_name + ": "@ + e),
        ],
        (StageView::Load(file_name), RunEventView::Loaded(changelog)) => if changelog.changes.len()
            > 0 {
            seq![]
        } else {
            seq![logs::warning("Changelog "@ + file_name + " has no changes, skipping"@)]
        },
        (StageView::Send(file_name, _), RunEventView::Sent) => seq![
            logs::info("Changelog for "@ + file_name + " sent to commloop"@),
        ],
        (StageView::Send(file_name, _), RunEventView::SendFailed(e)) => seq![
            logs::error("Failed sending changelog for "@ + file_name + ": "@ + e),
        ],
        (StageView::Script, RunEventView::Exited(true, _, _)) => seq![
            logs::info("Changelog script successful"@),
            logs::info("Changelog processing complete"@),
        ],
        (StageView::Script, RunEventView::Exited(false, status, _)) => seq![
            logs::error("Changelog script failed: "@ + status),
            logs::info("Changelog processing complete"@),
        ],
        (StageView::Script, RunEventView::NotStarted(e)) => seq![
            logs::error("Changelog script failed badly: "@ + e),
            logs::info("Changelog processing complete"@),
        ],
        (_, _) => seq![],
    }
}

/// What holds of a stage in every run: a file is read only if its changelog is to
/// be announced, and only a changelog with changes is announced.
pub open spec fn stage_wf(stage: StageView, commloop: bool) -> bool {
    match stage {
        StageView::NextFile => commloop,
        StageView::Load(file_name) => commloop && is_announced(file_name),
        StageView::Send(file_name, changelog) => commloop && is_announced(file_name)
            && changelog.changes.len() > 0,
        _ => true,
    }
}

/// A command: the program, its arguments, the directory it runs in, what
/// `GIT_SSH_COMMAND` is set to in its environment, if it is set, and whether what it
/// prints is kept, rather than shown.
#[derive(Debug, Clone)]
pub struct CommandLine {
    pub program: String,
    pub args: Vec<String>,
    pub dir: String,
    pub ssh_command: Option<String>,
    pub captured: bool,
}

/// The view of a command, with texts in place of strings.
pub struct CommandView {
    pub program: Seq<char>,
    pub args: Seq<Seq<char>>,
    pub dir: Seq<char>,
    pub ssh_command: Option<Seq<char>>,
    pub captured: bool,
}

impl View for CommandLine {
    type V = CommandView;

    open spec fn view(&self) -> CommandView {
        CommandView {
            program: self.program@,
            args: text::texts(self.args@),
            dir: self.dir@,
            ssh_command: text::optional_text(self.ssh_command),
            captured: self.captured,
        }
    }
}

/// What to do at a stage.
#[derive(Debug)]
pub enum RunAction<'a> {
    /// Run a command.
    Command(CommandLine),
    /// Look up the next file in this directory of the checkout.
    NextFile(&'a str),
    /// Read the changelog from this file of that directory.
    Load(&'a str),
    /// Announce the changelog: to this address, with this password, under this
    /// kind and this subject.
    Send(&'a str, &'a str, &'a str, &'a str, &'a Changelog),
    /// Nothing is left to do.
    Finish,
}

/// The view of an action, with texts in place of strings.
pub enum RunActionView {
    Command(CommandView),
    NextFile(Seq<char>),
    Load(Seq<char>),
    Send(Seq<char>, Seq<char>, Seq<char>, Seq<char>, ChangelogView),
    Finish,
}

impl<'a> View for RunAction<'a> {
    type V = RunActionView;

    open spec fn view(&self) -> RunActionView {
        match self {
            RunAction::Command(command) => RunActionView::Command(command@),
            RunAction::NextFile(dir) => RunActionView::NextFile(dir@),
            RunAction::Load(file_name) => RunActionView::Load(file_name@),
            RunAction::Send(address, password, kind, subject, changelog) => RunActionView::Send(
                address@,
                password@,
                kind@,
                subject@,
                changelog@,
            ),
            RunAction::Finish => RunActionView::Finish,
        }
    }
}

/// The view of the announcing service.
pub open spec fn commloop_text(commloop: Option<(String, String)>) -> Option<
    (Seq<char>, Seq<char>),
> {
    match commloop {
        Some(pair) => Some((pair.0@, pair.1@)),
        None => None,
    }
}

/// What to do at a stage of the run over the checkout `repo_path`.
pub open spec fn action_at(
    stage: StageView,
    repo_path: Seq<char>,
    ssh_command: Option<Seq<char>>,
    commloop: Option<(Seq<char>, Seq<char>)>,
) -> RunActionView {
    match stage {
        StageView::Fetch => RunActionView::Command(
            CommandView {
                program: "git"@,
                args: seq!["fetch"@, "origin"@],
                dir: repo_path,
                ssh_command,
                captured: true,
            },
        ),
        StageView::Reset => RunActionView::Command(
            CommandView {
                program: "git"@,
                args: seq!["reset"@, "--hard"@, "origin/Bleeding-Edge"@],
                dir: repo_path,
                ssh_command: None,
                captured: true,
            },
        ),
        StageView::NextFile => RunActionView::NextFile("html/changelogs"@),
        StageView::Load(file_name) => RunActionView::Load(file_name),
        StageView::Send(_, changelog) => RunActionView::Send(
            (commloop->0).0,
            (commloop->0).1,
            "changelog"@,
            ""@,
            changelog,
        ),
        StageView::Script => RunActionView::Command(
            CommandView {
                program: "python"@,
                args: seq![
                    "tools/changelog/ss13_genchangelog.py"@,
                    "html/changelog.html"@,
                    "html/changelogs"@,
                ],
                dir: repo_path,
                ssh_command: None,
                captured: false,
            },
        ),
        StageView::Done => RunActionView::Finish,
    }
}

/// The command by which git connects with a key.
pub open spec fn ssh_text(key: Option<Seq<char>>) -> Option<Seq<char>> {
    match key {
        Some(key) => Some("ssh -i "@ + key),
        None => None,
    }
}

/// Starts a run.
pub fn do_changelog(config: &MoMMIConfig) -> (r: ChangelogRun)
    requires
        config.changelog_repo_path is Some,
    ensures
        r.wf(),
        r.stage@ is Fetch,
        r.repo_path@ == (config.changelog_repo_path->0)@,
        text::optional_text(r.ssh_command) == ssh_text(text::optional_text(config.ssh_key)),
        commloop_text(r.commloop) == commloop_text(config.commloop),
{
    let repo_path = match &config.changelog_repo_path {
        Some(path) => path.clone(),
        None => String::new(),
    };
    let ssh_command = match &config.ssh_key {
        Some(key) => {
            let mut command = "ssh -i ".to_owned();
            command.append(key.as_str());
            Some(command)
        },
        None => None,
    };
    let commloop = match &config.commloop {
        Some(pair) => Some((pair.0.clone(), pair.1.clone())),
        None => None,
    };
    ChangelogRun { repo_path, ssh_command, commloop, stage: Stage::Fetch }
}

fn command(program: &str, args: Vec<String>, dir: &String) -> (r: CommandLine)
    ensures
        r@ == (CommandView {
            program: program@,
            args: text::texts(args@),
            dir: dir@,
            ssh_command: None,
            captured: true,
        }),
{
    CommandLine {
        program: program.to_owned(),
        args,
        dir: dir.clone(),
        ssh_command: None,
        captured: true,
    }
}

impl ChangelogRun {
    /// The stage is one that the run can be at.
    pub open spec fn wf(self) -> bool {
        stage_wf(self.stage@, self.commloop is Some)
    }

    /// What to do now.
    pub fn action(&self) -> (r: RunAction<'_>)
        requires
            self.wf(),
        ensures
            r@ == action_at(
                self.stage@,
                self.repo_path@,
                text::optional_text(self.ssh_command),
                commloop_text(self.commloop),
            ),
    {
        match &self.stage {
            Stage::Fetch => {
                let args = vec!["fetch".to_owned(), "origin".to_owned()];
                assert(text::texts(args@) =~= seq!["fetch"@, "origin"@]);
                let mut fetch = command("git", args, &self.repo_path);
                fetch.ssh_command = self.ssh_command.clone();
                RunAction::Command(fetch)
            },
            Stage::Reset => {
                let args = vec![
                    "reset".to_owned(),
                    "--hard".to_owned(),
                    "origin/Bleeding-Edge".to_owned(),
                ];
                assert(text::texts(args@) =~= seq![
                    "reset"@,
                    "--hard"@,
                    "origin/Bleeding-Edge"@,
                ]);
                RunAction::Command(command("git", args, &self.repo_path))
            },
            Stage::NextFile => RunAction::NextFile("html/changelogs"),
            Stage::Load(file_name) => RunAction::Load(file_name.as_str()),
            Stage::Send(_, changelog) => match &self.commloop {
                Some(pair) => RunAction::Send(
                    pair.0.as_str(),
                    pair.1.as_str(),
                    "changelog",
                    "",
                    changelog,
                ),
                None => RunAction::Finish,
            },
            Stage::Script => {
                let args = vec![
                    "tools/changelog/ss13_genchangelog.py".to_owned(),
                    "html/changelog.html".to_owned(),
                    "html/changelogs".to_owned(),
                ];
                assert(text::texts(args@) =~= seq![
                    "tools/changelog/ss13_genchangelog.py"@,
                    "html/changelog.html"@,
                    "html/changelogs"@,
                ]);
                let mut script = command("python", args, &self.repo_path);
                script.captured = false;
                RunAction::Command(script)
            },
            Stage::Done => RunAction::Finish,
        }
    }

    /// Whether the run waits for this event.
    pub fn awaits(&self, event: &RunEvent) -> (b: bool)
        ensures
            b == answers(event@, self.stage@),
    {
        match (&self.stage, event) {
            (Stage::Fetch | Stage::Reset | Stage::Script, RunEvent::Exited(_, _, _)) => true,
            (Stage::Fetch | Stage::Reset | Stage::Script, RunEvent::NotStarted(_)) => true,
            (Stage::NextFile, RunEvent::File(_)) => true,
            (Stage::Load(_), RunEvent::OpenFailed(_)) => true,
            (Stage::Load(_), RunEvent::ParseFailed(_)) => true,
            (Stage::Load(_), RunEvent::Loaded(_)) => true,
            (Stage::Send(_, _), RunEvent::Sent) => true,
            (Stage::Send(_, _), RunEvent::SendFailed(_)) => true,
            _ => false,
        }
    }

    /// Takes what came of the action: the run moves on, and the result is what to
    /// log.
    pub fn advance(&mut self, event: RunEvent) -> (r: Vec<LogRecord>)
        requires
            old(self).wf(),
            answers(event@, old(self).stage@),
        ensures
            final(self).wf(),
            final(self).stage@ == next_stage(
                old(self).stage@,
                event@,
                old(self).commloop is Some,
            ),
            final(self).repo_path == old(self).repo_path,
            final(self).ssh_command == old(self).ssh_command,
            final(self).commloop == old(self).commloop,
            logs::records(r@) == step_logs(old(self).stage@, event@),
    {
        let commloop = match &self.commloop {
            Some(_) => true,
            None => false,
        };
        let mut stage = Stage::Done;
        std::mem::swap(&mut self.stage, &mut stage);
        let (next, logs) = match stage {
            Stage::Fetch => after_fetch(event),
            Stage::Reset => after_reset(event, commloop),
            Stage::NextFile => after_next_file(event),
            Stage::Load(file_name) => after_load(file_name, event),
            Stage::Send(file_name, changelog) => after_send(file_name, changelog, event),
            Stage::Script => after_script(event),
            Stage::Done => (Stage::Done, Vec::new()),
        };
        self.stage = next;
        logs
    }
}

/// A list of one record.
fn one(record: LogRecord) -> (r: Vec<LogRecord>)
    ensures
        logs::records(r@) == seq![record@],
{
    let r = vec![record];
    assert(logs::records(r@) =~= seq![record@]);
    r
}

/// A list of no records.
fn none() -> (r: Vec<LogRecord>)
    ensures
        logs::records(r@) == Seq::<(LogLevel, Seq<char>)>::empty(),
{
    let r: Vec<LogRecord> = Vec::new();
    assert(logs::records(r@) =~= Seq::<(LogLevel, Seq<char>)>::empty());
    r
}

fn after_fetch(event: RunEvent) -> (r: (Stage, Vec<LogRecord>))
    requires
        answers(event@, StageView::Fetch),
    ensures
        forall|commloop: bool| r.0@ == #[trigger] next_stage(StageView::Fetch, event@, commloop),
        logs::records(r.1@) == step_logs(StageView::Fetch, event@),
{
    match event {
        RunEvent::Exited(true, _, _) => (Stage::Reset, one(logs::log_info("git fetch successful"))),
        RunEvent::Exited(false, _, stderr) => {
            let stderr = text::from_utf8_lossy(stderr.as_slice());
            let message = text::concat2("git fetch failed: ", stderr.as_str());
            (Stage::Done, one(logs::log_error(message.as_str())))
        },
        RunEvent::NotStarted(e) => {
            let message = text::concat2("git fetch error: ", e.as_str());
            (Stage::Done, one(logs::log_error(message.as_str())))
        },
        _ => (Stage::Done, none()),
    }
}

fn after_reset(event: RunEvent, commloop: bool) -> (r: (Stage, Vec<LogRecord>))
    requires
        answers(event@, StageView::Reset),
    ensures
        r.0@ == next_stage(StageView::Reset, event@, commloop),
        logs::records(r.1@) == step_logs(StageView::Reset, event@),
{
    match event {
        RunEvent::Exited(true, _, _) => {
            let next = if commloop {
                Stage::NextFile
            } else {
                Stage::Script
            };
            (next, one(logs::log_info("git reset successful")))
        },
        RunEvent::Exited(false, _, stderr) => {
            let stderr = text::from_utf8_lossy(stderr.as_slice());
            let message = text::concat2("git reset failed: ", stderr.as_str());
            (Stage::Done, one(logs::log_error(message.as_str())))
        },
        RunEvent::NotStarted(e) => {
            let message = text::concat2("git reset error: ", e.as_str());
            (Stage::Done, one(logs::log_error(message.as_str())))
        },
        _ => (Stage::Done, none()),
    }
}

fn after_next_file(event: RunEvent) -> (r: (Stage, Vec<LogRecord>))
    requires
        answers(event@, StageView::NextFile),
    ensures
        forall|commloop: bool|
            r.0@ == #[trigger] next_stage(StageView::NextFile, event@, commloop),
        logs::records(r.1@) == step_logs(StageView::NextFile, event@),
{
    match event {
        RunEvent::File(Some(file_name)) => {
            if !announces(file_name.as_str()) {
                return (Stage::NextFile, none());
            }
            let message = text::concat2("Processing changelog file: ", file_name.as_str());
            (Stage::Load(file_name), one(logs::log_info(message.as_str())))
        },
        _ => (Stage::Script, none()),
    }
}

fn after_load(file_name: String, event: RunEvent) -> (r: (Stage, Vec<LogRecord>))
    requires
        answers(event@, StageView::Load(file_name@)),
    ensures
        forall|commloop: bool|
            r.0@ == #[trigger] next_stage(StageView::Load(file_name@), event@, commloop),
        logs::records(r.1@) == step_logs(StageView::Load(file_name@), event@),
{
    match event {
        RunEvent::OpenFailed(e) => {
            let message = text::concat4("Failed to open ", file_name.as_str(), ": ", e.as_str());
            (Stage::NextFile, one(logs::log_error(message.as_str())))
        },
        RunEvent::ParseFailed(e) => {
            let message = text::concat4("Failed to parse ", file_name.as_str(), ": ", e.as_str());
            (Stage::NextFile, one(logs::log_error(message.as_str())))
        },
        RunEvent::Loaded(changelog) => {
            if changelog.changes.len() == 0 {
                let message = text::concat3(
                    "Changelog ",
                    file_name.as_str(),
                    " has no changes, skipping",
                );
                return (Stage::NextFile, one(logs::log_warning(message.as_str())));
            }
            (Stage::Send(file_name, changelog), none())
        },
        _ => (Stage::NextFile, none()),
    }
}

fn after_send(file_name: String, changelog: Changelog, event: RunEvent) -> (r: (
    Stage,
    Vec<LogRecord>,
))
    requires
        answers(event@, StageView::Send(file_name@, changelog@)),
    ensures
        forall|commloop: bool|
            r.0@ == #[trigger] next_stage(
                StageView::Send(file_name@, changelog@),
                event@,
                commloop,
            ),
        logs::records(r.1@) == step_logs(StageView::Send(file_name@, changelog@), event@),
{
    match event {
        RunEvent::Sent => {
            let message = text::concat3("Changelog for ", file_name.as_str(), " sent to commloop");
            (Stage::NextFile, one(logs::log_info(message.as_str())))
        },
        RunEvent::SendFailed(e) => {
            let message = text::concat4(
                "Failed sending changelog for ",
                file_name.as_str(),
                ": ",
                e.as_str(),
            );
            (Stage::NextFile, one(logs::log_error(message.as_str())))
        },
        _ => (Stage::NextFile, none()),
    }
}

fn after_script(event: RunEvent) -> (r: (Stage, Vec<LogRecord>))
    requires
        answers(event@, StageView::Script),
    ensures
        forall|commloop: bool| r.0@ == #[trigger] next_stage(StageView::Script, event@, commloop),
        logs::records(r.1@) == step_logs(StageView::Script, event@),
{
    let first = match event {
        RunEvent::Exited(true, _, _) => logs::log_info("Changelog script successful"),
        RunEvent::Exited(false, status, _) => {
            let message = text::concat2("Changelog script failed: ", status.as_str());
            logs::log_error(message.as_str())
        },
        RunEvent::NotStarted(e) => {
            let message = text::concat2("Changelog script failed badly: ", e.as_str());
            logs::log_error(message.as_str())
        },
        _ => {
            return (Stage::Done, none());
        },
    };
    let logs = vec![first, logs::log_info("Changelog processing complete")];
    assert(logs::records(logs@) =~= seq![
        first@,
        logs::info("Changelog processing complete"@),
    ]);
    (Stage::Done, logs)
}

/// Where a run stands that was at `stage` when the events came.
pub open spec fn stage_after(
    stage: StageView,
    events: Seq<RunEventView>,
    commloop: bool,
) -> StageView
    decreases events.len(),
{
    if events.len() == 0 {
        stage
    } else {
        next_stage(stage_after(stage, events.drop_last(), commloop), events.last(), commloop)
    }
}

/// The changelogs that the events lead to announcements of, each with its file, in
/// order.
pub open spec fn announced(
    stage: StageView,
    events: Seq<RunEventView>,
    commloop: bool,
) -> Seq<(Seq<char>, ChangelogView)>
    decreases events.len(),
{
    if events.len() == 0 {
        Seq::empty()
    } else {
        let earlier = announced(stage, events.drop_last(), commloop);
        match stage_after(stage, events, commloop) {
            StageView::Send(file_name, changelog) => earlier.push((file_name, changelog)),
            _ => earlier,
        }
    }
}

/// At every point of every run the stage is sound: nothing is read or announced
/// without a service to announce it, no file that is to be left alone is read, and
/// no changelog without changes is announced.
pub proof fn law_every_stage_is_sound(events: Seq<RunEventView>, commloop: bool)
    ensures
        stage_wf(stage_after(StageView::Fetch, events, commloop), commloop),
    decreases events.len(),
{
    if events.len() > 0 {
        law_every_stage_is_sound(events.drop_last(), commloop);
        lemma_step_keeps_the_stage_sound(
            stage_after(StageView::Fetch, events.drop_last(), commloop),
            events.last(),
            commloop,
        );
    }
}

proof fn lemma_step_keeps_the_stage_sound(stage: StageView, event: RunEventView, commloop: bool)
    requires
        stage_wf(stage, commloop),
    ensures
        stage_wf(next_stage(stage, event, commloop), commloop),
{
}

/// A run that is over stays so.
pub proof fn law_a_finished_run_stays_finished(events: Seq<RunEventView>, commloop: bool)
    ensures
        stage_after(StageView::Done, events, commloop) is Done,
    decreases events.len(),
{
    if events.len() > 0 {
        law_a_finished_run_stays_finished(events.drop_last(), commloop);
    }
}

/// A run in which git fails, be it to fetch or to reset, is over: whatever comes
/// later, nothing is announced and no script runs.
pub proof fn law_failed_git_ends_the_run(
    stage: StageView,
    failure: RunEventView,
    later: Seq<RunEventView>,
    commloop: bool,
)
    requires
        stage is Fetch || stage is Reset,
        failure matches RunEventView::Exited(success, _, _) ==> !success,
    ensures
        stage_after(next_stage(stage, failure, commloop), later, commloop) is Done,
        announced(next_stage(stage, failure, commloop), later, commloop) == Seq::<
            (Seq<char>, ChangelogView),
        >::empty(),
    decreases later.len(),
{
    law_a_finished_run_stays_finished(later, commloop);
    if later.len() > 0 {
        law_failed_git_ends_the_run(stage, failure, later.drop_last(), commloop);
    }
}

/// Where git succeeds, the run goes on to the files, or to the script where nothing
/// is announced.
pub proof fn law_after_git_come_the_files_or_the_script(
    fetched: RunEventView,
    reset: RunEventView,
    commloop: bool,
)
    requires
        fetched matches RunEventView::Exited(success, _, _) && success,
        reset matches RunEventView::Exited(success, _, _) && success,
    ensures
        stage_after(StageView::Fetch, seq![fetched, reset], commloop) == if commloop {
            StageView::NextFile
        } else {
            StageView::Script
        },
{
    let events = seq![fetched, reset];
    assert(events.drop_last() =~= seq![fetched]);
    assert(seq![fetched].drop_last() =~= Seq::empty());
    assert(stage_after(StageView::Fetch, seq![fetched].drop_last(), commloop)
        == StageView::Fetch);
    assert(stage_after(StageView::Fetch, seq![fetched], commloop) == StageView::Reset);
}

/// What comes of a file: it cannot be opened, it holds no changelog, or it holds
/// one, with what comes of announcing that.
pub enum FileOutcome {
    OpenFailed(Seq<char>),
    ParseFailed(Seq<char>),
    Loaded(ChangelogView, Result<(), Seq<char>>),
}

/// A file of the directory of changelogs.
pub struct Visit {
    pub file_name: Seq<char>,
    pub outcome: FileOutcome,
}

/// The events of a file.
pub open spec fn visit_events(visit: Visit) -> Seq<RunEventView> {
    let file = RunEventView::File(Some(visit.file_name));
    if !is_announced(visit.file_name) {
        seq![file]
    } else {
        match visit.outcome {
            FileOutcome::OpenFailed(e) => seq![file, RunEventView::OpenFailed(e)],
            FileOutcome::ParseFailed(e) => seq![file, RunEventView::ParseFailed(e)],
            FileOutcome::Loaded(changelog, sent) => if changelog.changes.len() == 0 {
                seq![file, RunEventView::Loaded(changelog)]
            } else {
                seq![
                    file,
                    RunEventView::Loaded(changelog),
                    match sent {
                        Ok(()) => RunEventView::Sent,
                        Err(e) => RunEventView::SendFailed(e),
                    },
                ]
            },
        }
    }
}

/// The events of the files of a directory.
pub open spec fn directory_events(visits: Seq<Visit>) -> Seq<RunEventView>
    decreases visits.len(),
{
    if visits.len() == 0 {
        Seq::empty()
    } else {
        directory_events(visits.drop_last()) + visit_events(visits.last())
    }
}

/// The changelogs to announce from a directory: of each file that is not to be left
/// alone, and can be read, the changelog, if it has changes.
pub open spec fn to_announce(visits: Seq<Visit>) -> Seq<(Seq<char>, ChangelogView)>
    decreases visits.len(),
{
    if visits.len() == 0 {
        Seq::empty()
    } else {
        let earlier = to_announce(visits.drop_last());
        let visit = visits.last();
        match visit.outcome {
            FileOutcome::Loaded(changelog, _) => if is_announced(visit.file_name)
                && changelog.changes.len() > 0 {
                earlier.push((visit.file_name, changelog))
            } else {
                earlier
            },
            _ => earlier,
        }
    }
}

proof fn lemma_events_in_two_parts(
    stage: StageView,
    a: Seq<RunEventView>,
    b: Seq<RunEventView>,
    commloop: bool,
)
    ensures
        stage_after(stage, a + b, commloop) == stage_after(
            stage_after(stage, a, commloop),
            b,
            commloop,
        ),
        announced(stage, a + b, commloop) == announced(stage, a, commloop) + announced(
            stage_after(stage, a, commloop),
            b,
            commloop,
        ),
    decreases b.len(),
{
    let middle = stage_after(stage, a, commloop);
    if b.len() == 0 {
        assert(a + b =~= a);
        assert(announced(stage, a, commloop) + announced(middle, b, commloop) =~= announced(
            stage,
            a,
            commloop,
        ));
    } else {
        lemma_events_in_two_parts(stage, a, b.drop_last(), commloop);
        assert((a + b).drop_last() =~= a + b.drop_last());
        assert((a + b).last() == b.last());
        assert(announced(stage, a + b, commloop) =~= announced(stage, a, commloop) + announced(
            middle,
            b,
            commloop,
        ));
    }
}

proof fn lemma_visit(visit: Visit)
    ensures
        stage_after(StageView::NextFile, visit_events(visit), true) is NextFile,
        announced(StageView::NextFile, visit_events(visit), true) == to_announce(seq![visit]),
{
    let events = visit_events(visit);
    reveal_with_fuel(stage_after, 4);
    reveal_with_fuel(announced, 4);
    assert(seq![visit].drop_last() =~= Seq::empty());
    assert(to_announce(seq![visit].drop_last()) =~= Seq::empty());
    if events.len() == 1 {
        assert(events.drop_last() =~= Seq::empty());
    } else if events.len() == 2 {
        assert(events.drop_last() =~= seq![events[0]]);
        assert(seq![events[0]].drop_last() =~= Seq::empty());
    } else {
        assert(events.drop_last() =~= seq![events[0], events[1]]);
        assert(seq![events[0], events[1]].drop_last() =~= seq![events[0]]);
        assert(seq![events[0]].drop_last() =~= Seq::empty());
    }
    assert(announced(StageView::NextFile, events, true) =~= to_announce(seq![visit]));
}

proof fn lemma_visits(visits: Seq<Visit>)
    ensures
        stage_after(StageView::NextFile, directory_events(visits), true) is NextFile,
        announced(StageView::NextFile, directory_events(visits), true) == to_announce(visits),
    decreases visits.len(),
{
    if visits.len() > 0 {
        let front = visits.drop_last();
        lemma_visits(front);
        lemma_visit(visits.last());
        lemma_events_in_two_parts(
            StageView::NextFile,
            directory_events(front),
            visit_events(visits.last()),
            true,
        );
        let last = seq![visits.last()];
        assert(last.drop_last() =~= Seq::empty());
        assert(to_announce(last.drop_last()) =~= Seq::empty());
        assert(to_announce(visits) =~= to_announce(front) + to_announce(last));
    }
}

/// Each changelog of the directory that is to be announced is announced once, in
/// the order of the files, and no other is. Whatever fails on the way, be it to
/// read a file or to announce a changelog, the other files are still looked at and
/// the script runs in the end.
pub proof fn law_directory_is_announced_and_the_script_runs(visits: Seq<Visit>)
    ensures
        stage_after(
            StageView::NextFile,
            directory_events(visits).push(RunEventView::File(None)),
            true,
        ) is Script,
        announced(
            StageView::NextFile,
            directory_events(visits).push(RunEventView::File(None)),
            true,
        ) == to_announce(visits),
{
    lemma_visits(visits);
    let events = directory_events(visits).push(RunEventView::File(None));
    assert(events.drop_last() =~= directory_events(visits));
}

/// The changelog that is written for a merged pull request goes to a file whose
/// changelog is announced.
pub proof fn law_temp_file_is_announced(number: nat)
    ensures
        ({
            let file_name = "PR-"@ + text::decimal(number) + "-temp.yml"@;
            &&& pull_request::temp_path(number) == "html/changelogs"@ + "/"@ + file_name
            &&& is_announced(file_name)
        }),
{
    reveal_strlit("html/changelogs/PR-");
    reveal_strlit("html/changelogs");
    reveal_strlit("/");
    reveal_strlit("PR-");
    reveal_strlit("-temp.yml");
    reveal_strlit(".yml");
    reveal_strlit(".");
    reveal_strlit("example.yml");
    reveal_strlit("AutoChangeLog");
    let file_name = "PR-"@ + text::decimal(number) + "-temp.yml"@;
    assert(pull_request::temp_path(number) =~= "html/changelogs"@ + "/"@ + file_name);
    assert(file_name[0] == 'P');
    assert("."@[0] == '.');
    assert("example.yml"@[0] == 'e');
    assert("AutoChangeLog"@[0] == 'A');
    assert(".yml"@ =~= file_name.subrange(file_name.len() - 4, file_name.len() as int));
}

/// A file whose changelog is announced is one whose push leads to a run, unless its
/// name has a line feed in it.
pub proof fn law_announced_files_lead_to_runs(file_name: Seq<char>)
    requires
        is_announced(file_name),
        !file_name.contains('\n'),
    ensures
        push::is_changelog_path("html/changelogs"@ + "/"@ + file_name),
{
    reveal_strlit("html/changelogs/");
    reveal_strlit("html/changelogs");
    reveal_strlit("/");
    reveal_strlit(".yml");
    reveal_strlit(".");
    let n = file_name.len() as int;
    let c = file_name[0];
    assert(".yml"@ =~= file_name.subrange(n - 4, n));
    assert(c != '.') by {
        if c == '.' {
            assert("."@ =~= file_name.subrange(0, 1));
        }
    }
    assert(n > 4) by {
        if n == 4 {
            assert(file_name[0] == ".yml"@[0]);
        }
    }
    let middle = file_name.subrange(1, n - 4);
    assert forall|k: int| 0 <= k < middle.len() implies middle[k] != '\n' by {
        assert(file_name.contains(file_name[k + 1]));
    }
    assert forall|k: int| n - 4 <= k < n implies file_name[k] == ".yml"@[k - (n - 4)] by {
        assert(file_name.subrange(n - 4, n)[k - (n - 4)] == file_name[k]);
    }
    assert("html/changelogs"@ + "/"@ + file_name =~= push::changelog_path(c, middle));
}

/// By the characters of its name, a file is announced exactly where the name ends in
/// the extension, does not begin with a full stop, is not that of the example, and
/// does not begin with all the letters of the automatic changelog's name.
pub proof fn law_announced_names_by_their_characters(name: Seq<char>)
    ensures
        is_announced(name) <==> {
            let n = name.len();
            &&& n > 4
            &&& name[0] != '.'
            &&& name[n - 4] == '.' && name[n - 3] == 'y' && name[n - 2] == 'm' && name[n - 1] == 'l'
            &&& name != seq!['e', 'x', 'a', 'm', 'p', 'l', 'e', '.', 'y', 'm', 'l']
            &&& n >= 13 ==> name.subrange(0, 13) != seq![
                'A',
                'u',
                't',
                'o',
                'C',
                'h',
                'a',
                'n',
                'g',
                'e',
                'L',
                'o',
                'g',
            ]
        },
{
    reveal_strlit(".");
    reveal_strlit(".yml");
    reveal_strlit("example.yml");
    reveal_strlit("AutoChangeLog");
    let n = name.len() as int;
    assert("."@ =~= seq!['.']);
    assert(".yml"@ =~= seq!['.', 'y', 'm', 'l']);
    assert("example.yml"@ =~= seq!['e', 'x', 'a', 'm', 'p', 'l', 'e', '.', 'y', 'm', 'l']);
    assert("AutoChangeLog"@ =~= seq![
        'A',
        'u',
        't',
        'o',
        'C',
        'h',
        'a',
        'n',
        'g',
        'e',
        'L',
        'o',
        'g',
    ]);
    assert("."@.is_prefix_of(name) <==> n >= 1 && name[0] == '.') by {
        if n >= 1 && name[0] == '.' {
            assert("."@ =~= name.subrange(0, 1));
        }
        if "."@.is_prefix_of(name) {
            assert(name.subrange(0, 1)[0] == name[0]);
        }
    }
    if n >= 4 {
        let end = name.subrange(n - 4, n);
        assert(end[0] == name[n - 4] && end[1] == name[n - 3] && end[2] == name[n - 2] && end[3]
            == name[n - 1]);
        if name[n - 4] == '.' && name[n - 3] == 'y' && name[n - 2] == 'm' && name[n - 1] == 'l' {
            assert(".yml"@ =~= end);
        }
    }
}

/// What is done at a stage depends on the announcing service only where something is
/// announced, and on the command for git's connection only where git connects.
pub proof fn law_actions_depend_on_what_they_need(
    stage: StageView,
    repo_path: Seq<char>,
    ssh_a: Option<Seq<char>>,
    ssh_b: Option<Seq<char>>,
    a: Option<(Seq<char>, Seq<char>)>,
    b: Option<(Seq<char>, Seq<char>)>,
)
    ensures
        !(stage is Send) ==> action_at(stage, repo_path, ssh_a, a) == action_at(
            stage,
            repo_path,
            ssh_a,
            b,
        ),
        !(stage is Fetch) ==> action_at(stage, repo_path, ssh_a, a) == action_at(
            stage,
            repo_path,
            ssh_b,
            a,
        ),
{
}

/// Whether or not changelogs are announced, the script is the same one: it runs in the
/// checkout, on the page to write and on the directory that is walked for files.
pub proof fn law_the_script_reads_the_directory_that_is_walked(
    repo_path: Seq<char>,
    ssh_command: Option<Seq<char>>,
    a: Option<(Seq<char>, Seq<char>)>,
    b: Option<(Seq<char>, Seq<char>)>,
)
    ensures
        action_at(StageView::Script, repo_path, ssh_command, a) is Command,
        ({
            let script = action_at(StageView::Script, repo_path, ssh_command, a)->Command_0;
            &&& script.program == "python"@
            &&& script.args.len() == 3
            &&& script.args[0] == "tools/changelog/ss13_genchangelog.py"@
            &&& script.args[1] == "html/changelog.html"@
            &&& script.args[2] == "html/changelogs"@
            &&& action_at(StageView::NextFile, repo_path, ssh_command, b)
                == RunActionView::NextFile(script.args[2])
            &&& script.dir == repo_path
            &&& script.ssh_command is None
            &&& !script.captured
        }),
{
}

/// Git is called twice in the checkout: to fetch, with the command for its connection,
/// and to reset to what was fetched, with none.
pub proof fn law_git_fetches_and_resets(
    repo_path: Seq<char>,
    ssh_command: Option<Seq<char>>,
    commloop: Option<(Seq<char>, Seq<char>)>,
)
    ensures
        action_at(StageView::Fetch, repo_path, ssh_command, commloop) is Command,
        action_at(StageView::Reset, repo_path, ssh_command, commloop) is Command,
        ({
            let fetch = action_at(StageView::Fetch, repo_path, ssh_command, commloop)->Command_0;
            let reset = action_at(StageView::Reset, repo_path, ssh_command, commloop)->Command_0;
            &&& fetch.program == "git"@ && reset.program == "git"@
            &&& fetch.args.len() == 2 && reset.args.len() == 3
            &&& fetch.args[0] == "fetch"@ && fetch.args[1] == "origin"@
            &&& reset.args[0] == "reset"@ && reset.args[1] == "--hard"@
            &&& reset.args[2] == "origin/Bleeding-Edge"@
            &&& fetch.dir == repo_path && reset.dir == repo_path
            &&& fetch.ssh_command == ssh_command && reset.ssh_command is None
            &&& fetch.captured && reset.captured
        }),
{
}

/// A file is read by its own name, and its changelog is announced as it is, to the
/// address of the service and with its password; at the end nothing is done.
pub proof fn law_files_are_read_and_announced_as_they_are(
    file_name: Seq<char>,
    changelog: ChangelogView,
    repo_path: Seq<char>,
    ssh_command: Option<Seq<char>>,
    address: Seq<char>,
    password: Seq<char>,
)
    ensures
        ({
            let commloop = Some((address, password));
            let load = action_at(StageView::Load(file_name), repo_path, ssh_command, commloop);
            let send = action_at(
                StageView::Send(file_name, changelog),
                repo_path,
                ssh_command,
                commloop,
            );
            &&& load == RunActionView::Load(file_name)
            &&& send is Send
            &&& send->Send_0 == address && send->Send_1 == password
            &&& send->Send_2 == "changelog"@ && send->Send_3.len() == 0
            &&& send->Send_4 == changelog
            &&& action_at(StageView::Done, repo_path, ssh_command, commloop) is Finish
        }),
{
    reveal_strlit("");
}

/// The command for git's connection names the key, as it is, and the announcing service
/// is the configured one.
pub proof fn law_key_and_service_are_taken_over(key: Seq<char>, commloop: Option<(String, String)>)
    ensures
        ssh_text(None) is None,
        ssh_text(Some(key)) is Some,
        ssh_text(Some(key))->0.len() == key.len() + 7,
        ssh_text(Some(key))->0.subrange(0, 7) == seq!['s', 's', 'h', ' ', '-', 'i', ' '],
        ssh_text(Some(key))->0.skip(7) == key,
        commloop_text(commloop) is Some <==> commloop is Some,
        commloop is Some ==> (commloop_text(commloop)->0).0 == (commloop->0).0@
            && (commloop_text(commloop)->0).1 == (commloop->0).1@,
{
    reveal_strlit("ssh -i ");
    let command = ssh_text(Some(key))->0;
    assert(command.subrange(0, 7) =~= seq!['s', 's', 'h', ' ', '-', 'i', ' ']);
    assert(command.skip(7) =~= key);
}

/// Git has to succeed twice for a run to go on; a file is read exactly where it is to be
/// announced; a changelog that was read is announced exactly where it has changes; and
/// whatever comes of the announcement, the next file follows.
pub proof fn law_what_leads_where(
    event: RunEventView,
    file_name: Seq<char>,
    changelog: ChangelogView,
    commloop: bool,
)
    ensures
        ({
            let succeeded = event is Exited && event->Exited_0;
            let next = |stage: StageView| next_stage(stage, event, commloop);
            &&& next(StageView::Fetch) is Reset <==> succeeded
            &&& next(StageView::Fetch) is Done <==> !succeeded
            &&& next(StageView::Reset) is NextFile <==> succeeded && commloop
            &&& next(StageView::Reset) is Script <==> succeeded && !commloop
            &&& next(StageView::Reset) is Done <==> !succeeded
            &&& event == RunEventView::File(Some(file_name)) ==> next(StageView::NextFile)
                == if is_announced(file_name) {
                StageView::Load(file_name)
            } else {
                StageView::NextFile
            }
            &&& event == RunEventView::File(None) ==> next(StageView::NextFile) is Script
            &&& event is Loaded && (event->Loaded_0).changes.len() > 0 ==> next(
                StageView::Load(file_name),
            ) == StageView::Send(file_name, event->Loaded_0)
            &&& !(event is Loaded && (event->Loaded_0).changes.len() > 0) ==> next(
                StageView::Load(file_name),
            ) is NextFile
            &&& next(StageView::Send(file_name, changelog)) is NextFile
            &&& next(StageView::Script) is Done
            &&& next(StageView::Done) is Done
        }),
{
}

/// Each stage waits for what can come of its action, and for nothing else.
pub proof fn law_which_events_are_awaited(
    event: RunEventView,
    file_name: Seq<char>,
    changelog: ChangelogView,
)
    ensures
        ({
            let ended = event is Exited || event is NotStarted;
            let read = event is OpenFailed || event is ParseFailed || event is Loaded;
            &&& answers(event, StageView::Fetch) <==> ended
            &&& answers(event, StageView::Reset) <==> ended
            &&& answers(event, StageView::Script) <==> ended
            &&& answers(event, StageView::NextFile) <==> event is File
            &&& answers(event, StageView::Load(file_name)) <==> read
            &&& answers(event, StageView::Send(file_name, changelog)) <==> event is Sent
                || event is SendFailed
            &&& !answers(event, StageView::Done)
        }),
{
}

/// What git came to is logged: that it succeeded, or else what it wrote or why it did
/// not start.
pub proof fn law_git_is_logged(status: Seq<char>, stderr: Seq<u8>, e: Seq<char>)
    ensures
        ({
            let ok = RunEventView::Exited(true, status, stderr);
            let failed = RunEventView::Exited(false, status, stderr);
            let not_started = RunEventView::NotStarted(e);
            let said = text::utf8_lossy(stderr);
            let fetch = StageView::Fetch;
            let reset = StageView::Reset;
            &&& step_logs(fetch, ok) == seq![(LogLevel::Info, "git fetch successful"@)]
            &&& step_logs(fetch, failed) == seq![(LogLevel::Error, "git fetch failed: "@ + said)]
            &&& step_logs(fetch, not_started) == seq![(LogLevel::Error, "git fetch error: "@ + e)]
            &&& step_logs(reset, ok) == seq![(LogLevel::Info, "git reset successful"@)]
            &&& step_logs(reset, failed) == seq![(LogLevel::Error, "git reset failed: "@ + said)]
            &&& step_logs(reset, not_started) == seq![(LogLevel::Error, "git reset error: "@ + e)]
        }),
{
}

/// What came of a file is logged with the whole of its name; a file that is left alone
/// and a changelog that is about to be announced are not logged.
pub proof fn law_files_are_logged_by_name(file_name: Seq<char>, changelog: ChangelogView, e: Seq<char>)
    ensures
        ({
            let load = StageView::Load(file_name);
            let send = StageView::Send(file_name, changelog);
            let file = RunEventView::File(Some(file_name));
            let nothing = Seq::<(LogLevel, Seq<char>)>::empty();
            &&& step_logs(StageView::NextFile, RunEventView::File(None)) == nothing
            &&& !is_announced(file_name) ==> step_logs(StageView::NextFile, file) == nothing
            &&& is_announced(file_name) ==> step_logs(StageView::NextFile, file) == seq![
                (LogLevel::Info, "Processing changelog file: "@ + file_name),
            ]
            &&& step_logs(load, RunEventView::OpenFailed(e)) == seq![
                (LogLevel::Error, "Failed to open "@ + file_name + ": "@ + e),
            ]
            &&& step_logs(load, RunEventView::ParseFailed(e)) == seq![
                (LogLevel::Error, "Failed to parse "@ + file_name + ": "@ + e),
            ]
            &&& changelog.changes.len() > 0 ==> step_logs(load, RunEventView::Loaded(changelog))
                == nothing
            &&& changelog.changes.len() == 0 ==> step_logs(load, RunEventView::Loaded(changelog))
                == seq![
                (LogLevel::Warning, "Changelog "@ + file_name + " has no changes, skipping"@),
            ]
            &&& step_logs(send, RunEventView::Sent) == seq![
                (LogLevel::Info, "Changelog for "@ + file_name + " sent to commloop"@),
            ]
            &&& step_logs(send, RunEventView::SendFailed(e)) == seq![
                (LogLevel::Error, "Failed sending changelog for "@ + file_name + ": "@ + e),
            ]
        }),
{
}

/// However the script ends, that is logged first, and then that the run is over.
pub proof fn law_the_script_is_logged(
    event: RunEventView,
    status: Seq<char>,
    stderr: Seq<u8>,
    e: Seq<char>,
)
    requires
        event is Exited || event is NotStarted,
    ensures
        ({
            let logged = step_logs(StageView::Script, event);
            &&& logged.len() == 2
            &&& logged[1] == (LogLevel::Info, "Changelog processing complete"@)
            &&& event == RunEventView::Exited(true, status, stderr) ==> logged[0] == (
                LogLevel::Info,
                "Changelog script successful"@,
            )
            &&& event == RunEventView::Exited(false, status, stderr) ==> logged[0] == (
                LogLevel::Error,
                "Changelog script failed: "@ + status,
            )
            &&& event == RunEventView::NotStarted(e) ==> logged[0] == (
                LogLevel::Error,
                "Changelog script failed badly: "@ + e,
            )
        }),
{
}

/// The view of a command leaves nothing of it out.
pub proof fn law_view_of_a_command_is_whole(command: CommandLine)
    ensures
        command@.program == command.program@,
        command@.args.len() == command.args@.len(),
        forall|k: int|
            0 <= k < command.args@.len() ==> #[trigger] command@.args[k] == command.args@[k]@,
        command@.dir == command.dir@,
        command@.ssh_command is Some <==> command.ssh_command is Some,
        command.ssh_command is Some ==> command@.ssh_command->0 == (command.ssh_command->0)@,
        command@.captured == command.captured,
{
}

/// The views of stages and events leave nothing of them out.
pub proof fn law_views_of_stages_and_events_are_whole(
    file_name: String,
    changelog: Changelog,
    success: bool,
    status: String,
    stderr: Vec<u8>,
)
    ensures
        Stage::Load(file_name)@ == StageView::Load(file_name@),
        Stage::Send(file_name, changelog)@ == StageView::Send(file_name@, changelog@),
        RunEvent::Exited(success, status, stderr)@ == RunEventView::Exited(
            success,
            status@,
            stderr@,
        ),
        RunEvent::NotStarted(status)@ == RunEventView::NotStarted(status@),
        RunEvent::File(Some(file_name))@ == RunEventView::File(Some(file_name@)),
        RunEvent::File(None)@ == RunEventView::File(None),
        RunEvent::OpenFailed(status)@ == RunEventView::OpenFailed(status@),
        RunEvent::ParseFailed(status)@ == RunEventView::ParseFailed(status@),
        RunEvent::Loaded(changelog)@ == RunEventView::Loaded(changelog@),
        RunEvent::SendFailed(status)@ == RunEventView::SendFailed(status@),
{
}

} // verus!

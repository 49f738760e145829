//! What a pull request event leads to.

use vstd::prelude::*;
use vstd::string::*;

use crate::body;
use crate::entry;
use crate::entry::{Changelog, ChangelogEntryType, ChangelogView};
use crate::events::{MoMMIConfig, PullRequestAction, PullRequestEvent};
use crate::logs;
use crate::logs::{LogLevel, LogRecord};
use crate::text;

verus! {

/// A changelog to write, and the file it goes to.
#[derive(Debug, Clone)]
pub struct TempChangelog {
    /// Relative to the checkout.
    pub path: String,
    pub changelog: Changelog,
}

/// What to log and, where the event leads to work, the changelog to write.
#[derive(Debug, Clone)]
pub struct PullRequestPlan {
    pub logs: Vec<LogRecord>,
    pub temp: Option<TempChangelog>,
}

/// The file for the changelog of a pull request, relative to the checkout.
pub open spec fn temp_path(number: nat) -> Seq<char> {
    "html/changelogs/PR-"@ + text::decimal(number) + "-temp.yml"@
}

/// "true" or "false".
pub open spec fn bool_text(b: bool) -> Seq<char> {
    if b {
        "true"@
    } else {
        "false"@
    }
}

/// The message that an event came in.
pub open spec fn received_message(event: PullRequestEvent) -> Seq<char> {
    "Received PR event: action="@ + event.action.spec_name() + ", merged="@ + bool_text(
        event.pull_request.merged,
    ) + ", PR#"@ + text::decimal(event.number as nat)
}

/// The message that entries were found.
pub open spec fn found_message(count: nat, number: nat) -> Seq<char> {
    "Found "@ + text::decimal(count) + " changelogs in PR#"@ + text::decimal(number)
}

/// Whether the event is a merge, and there is a checkout to work on.
pub open spec fn is_merge(event: PullRequestEvent, config: MoMMIConfig) -> bool {
    &&& event.action is Closed
    &&& event.pull_request.merged
    &&& config.changelog_repo_path is Some
}

/// What is logged when an event comes in.
pub open spec fn plan_logs(event: PullRequestEvent, config: MoMMIConfig) -> Seq<
    (LogLevel, Seq<char>),
> {
    let additions = body::parsed_body(event.pull_request.body@);
    let received = seq![logs::info(received_message(event))];
    if !is_merge(event, config) {
        received.push(
            logs::info("PR not a merge or no changelog repo configured, skipping"@),
        )
    } else if !config.spec_concerns(event.repository.full_name@) {
        received
    } else if additions.len() == 0 {
        received.push(logs::info("No changelogs found in PR body"@))
    } else {
        received.push(logs::info(found_message(additions.len(), event.number as nat)))
    }
}

/// The changelog that an event leads to, if it leads to one: the merge of a pull
/// request, in the repository that counts, whose text has entries.
pub open spec fn planned_changelog(event: PullRequestEvent, config: MoMMIConfig) -> Option<
    ChangelogView,
> {
    let additions = body::parsed_body(event.pull_request.body@);
    if is_merge(event, config) && config.spec_concerns(event.repository.full_name@)
        && additions.len() > 0 {
        Some(
            ChangelogView {
                author: event.pull_request.user.login@,
                changes: additions,
                delete_after: Some(true),
            },
        )
    } else {
        None
    }
}

fn bool_word(b: bool) -> (r: &'static str)
    ensures
        r@ == bool_text(b),
{
    if b {
        "true"
    } else {
        "false"
    }
}

fn received_text(event: &PullRequestEvent) -> (r: String)
    ensures
        r@ == received_message(*event),
{
    let mut message = "Received PR event: action=".to_owned();
    message.append(event.action.name());
    message.append(", merged=");
    message.append(bool_word(event.pull_request.merged));
    message.append(", PR#");
    message.append(text::decimal_text(event.number).as_str());
    message
}

fn found_text(count: usize, number: u64) -> (r: String)
    ensures
        r@ == found_message(count as nat, number as nat),
{
    let count = text::decimal_text(count as u64);
    let number = text::decimal_text(number);
    text::concat4("Found ", count.as_str(), " changelogs in PR#", number.as_str())
}

/// The file for the changelog of a pull request, relative to the checkout.
pub fn temp_changelog_path(number: u64) -> (r: String)
    ensures
        r@ == temp_path(number as nat),
{
    text::concat3("html/changelogs/PR-", text::decimal_text(number).as_str(), "-temp.yml")
}

/// What an event leads to. Once the changelog is written, or has failed to be,
/// `temp_changelog_written` says how to go on.
pub fn try_handle_changelog_pr(event: &PullRequestEvent, config: &MoMMIConfig) -> (r:
    PullRequestPlan)
    ensures
        logs::records(r.logs@) == plan_logs(*event, *config),
        match r.temp {
            Some(temp) => {
                &&& planned_changelog(*event, *config) == Some(temp.changelog@)
                &&& temp.path@ == temp_path(event.number as nat)
                &&& temp.changelog.author@ == event.pull_request.user.login@
                &&& entry::entries(temp.changelog.changes@) == body::parsed_body(
                    event.pull_request.body@,
                )
                &&& temp.changelog.delete_after == Some(true)
            },
            None => planned_changelog(*event, *config) is None,
        },
{
    let mut logs: Vec<LogRecord> = Vec::new();
    logs.push(logs::log_info(received_text(event).as_str()));
    assert(logs::records(logs@) =~= seq![logs::info(received_message(*event))]);
    let ghost received = logs@;

    let closed = match &event.action {
        PullRequestAction::Closed => true,
        PullRequestAction::Other(_) => false,
    };
    if !closed || !event.pull_request.merged || !config.has_changelog_repo_path() {
        logs.push(logs::log_info("PR not a merge or no changelog repo configured, skipping"));
        assert(logs::records(logs@) =~= logs::records(received).push(logs@.last()@));
        return PullRequestPlan { logs, temp: None };
    }
    if !config.concerns(&event.repository.full_name) {
        return PullRequestPlan { logs, temp: None };
    }
    let additions = body::parse_body_changelog(event.pull_request.body.as_str());
    assert(additions@.len() == entry::entries(additions@).len());
    if additions.len() == 0 {
        logs.push(logs::log_info("No changelogs found in PR body"));
        assert(logs::records(logs@) =~= logs::records(received).push(logs@.last()@));
        return PullRequestPlan { logs, temp: None };
    }
    logs.push(logs::log_info(found_text(additions.len(), event.number).as_str()));
    assert(logs::records(logs@) =~= logs::records(received).push(logs@.last()@));

    let changelog = Changelog {
        author: event.pull_request.user.login.clone(),
        changes: additions,
        delete_after: Some(true),
    };
    let path = temp_changelog_path(event.number);
    PullRequestPlan { logs, temp: Some(TempChangelog { path, changelog }) }
}

/// What follows the attempt to write a changelog.
#[derive(Debug, Clone)]
pub struct AfterWrite {
    pub log: LogRecord,
    /// Whether to ask for a run over the changelogs.
    pub process: bool,
}

/// What is logged about the attempt to write a changelog.
pub open spec fn written_record(number: nat, outcome: Result<(), Seq<char>>) -> (
    LogLevel,
    Seq<char>,
) {
    match outcome {
        Ok(()) => logs::info("Wrote temp changelog for PR-"@ + text::decimal(number)),
        Err(e) => logs::error("Error writing changelog temp file: "@ + e),
    }
}

/// What follows the attempt to write the changelog of a pull request; `outcome`
/// holds the text of the error where it failed. Changelogs are run either way.
pub fn temp_changelog_written(number: u64, outcome: Result<(), String>) -> (r: AfterWrite)
    ensures
        r.log@ == written_record(
            number as nat,
            match outcome {
                Ok(()) => Ok(()),
                Err(e) => Err(e@),
            },
        ),
        r.process,
{
    let log = match outcome {
        Err(e) => {
            let message = text::concat2("Error writing changelog temp file: ", e.as_str());
            logs::log_error(message.as_str())
        },
        Ok(()) => {
            let number = text::decimal_text(number);
            let message = text::concat2("Wrote temp changelog for PR-", number.as_str());
            logs::log_info(message.as_str())
        },
    };
    AfterWrite { log, process: true }
}

/// Only the merge of a pull request with a changelog in its text leads to a file,
/// and that changelog is marked to be deleted once it is used.
pub proof fn law_only_merges_with_entries_are_written(
    event: PullRequestEvent,
    config: MoMMIConfig,
)
    ensures
        planned_changelog(event, config) matches Some(changelog) ==> {
            &&& is_merge(event, config)
            &&& config.spec_concerns(event.repository.full_name@)
            &&& body::section(event.pull_request.body@) is Some
            &&& changelog.changes.len() > 0
            &&& changelog.delete_after == Some(true)
        },
{
}

/// Different pull requests have different files.
pub proof fn law_temp_paths_are_distinct(a: nat, b: nat)
    requires
        temp_path(a) == temp_path(b),
    ensures
        a == b,
{
    let front = "html/changelogs/PR-"@;
    let back = "-temp.yml"@;
    let n = front.len() as int;
    assert(temp_path(a).len() == n + text::decimal(a).len() + back.len());
    assert(temp_path(b).len() == n + text::decimal(b).len() + back.len());
    assert(text::decimal(a) =~= temp_path(a).subrange(n, n + text::decimal(a).len()));
    assert(text::decimal(b) =~= temp_path(b).subrange(n, n + text::decimal(b).len()));
    text::law_decimal_is_injective(a, b);
}

/// A changelog is planned for every merge in a repository that counts whose text has
/// entries, and for nothing else: by the author of the pull request, with all the
/// entries of its text, in order.
pub proof fn law_merges_lead_to_all_their_entries(event: PullRequestEvent, config: MoMMIConfig)
    ensures
        planned_changelog(event, config) is Some <==> {
            &&& event.action is Closed
            &&& event.pull_request.merged
            &&& config.changelog_repo_path is Some
            &&& config.changelog_repo_name is Some ==> (config.changelog_repo_name->0)@
                == event.repository.full_name@
            &&& body::parsed_body(event.pull_request.body@).len() > 0
        },
        planned_changelog(event, config) matches Some(changelog) ==> {
            &&& changelog.author == event.pull_request.user.login@
            &&& changelog.changes.len() == body::parsed_body(event.pull_request.body@).len()
            &&& forall|k: int|
                0 <= k < changelog.changes.len() ==> #[trigger] changelog.changes[k]
                    == body::parsed_body(event.pull_request.body@)[k]
            &&& changelog.delete_after == Some(true)
        },
{
}

/// Two pull requests with one text that both lead to changelogs lead to the same
/// changes, and to the same changelog exactly where they have one author.
pub proof fn law_the_plan_depends_on_text_and_author(
    a: PullRequestEvent,
    b: PullRequestEvent,
    config: MoMMIConfig,
)
    requires
        a.pull_request.body@ == b.pull_request.body@,
        planned_changelog(a, config) is Some,
        planned_changelog(b, config) is Some,
    ensures
        planned_changelog(a, config)->0.changes == planned_changelog(b, config)->0.changes,
        planned_changelog(a, config) == planned_changelog(b, config)
            <==> a.pull_request.user.login@ == b.pull_request.user.login@,
{
}

/// The file of a pull request is named by its number, in the directory of changelogs.
pub proof fn law_temp_path_holds_the_number(number: nat)
    ensures
        ({
            let path = temp_path(number);
            let n = text::decimal(number).len() as int;
            &&& path.len() == n + 28
            &&& path.subrange(0, 16) == "html/changelogs/"@
            &&& path.subrange(16, 19) == seq!['P', 'R', '-']
            &&& path.subrange(19, 19 + n) == text::decimal(number)
            &&& path.subrange(19 + n, 28 + n) == seq!['-', 't', 'e', 'm', 'p', '.', 'y', 'm', 'l']
        }),
{
    reveal_strlit("html/changelogs/PR-");
    reveal_strlit("html/changelogs/");
    reveal_strlit("-temp.yml");
    let path = temp_path(number);
    let n = text::decimal(number).len() as int;
    assert(path.subrange(0, 16) =~= "html/changelogs/"@);
    assert(path.subrange(16, 19) =~= seq!['P', 'R', '-']);
    assert(path.subrange(19, 19 + n) =~= text::decimal(number));
    assert(path.subrange(19 + n, 28 + n) =~= seq!['-', 't', 'e', 'm', 'p', '.', 'y', 'm', 'l']);
}

/// Every event is logged, with its action, whether it is a merge, and its number;
/// what is logged next says why it leads to nothing, or what was found.
pub proof fn law_events_are_logged_with_their_outcome(event: PullRequestEvent, config: MoMMIConfig)
    ensures
        ({
            let logged = plan_logs(event, config);
            let count = body::parsed_body(event.pull_request.body@).len();
            let merge = event.action is Closed && event.pull_request.merged
                && config.changelog_repo_path is Some;
            let counts = config.changelog_repo_name is Some ==> (config.changelog_repo_name->0)@
                == event.repository.full_name@;
            &&& logged.len() == if merge && !counts {
                1nat
            } else {
                2nat
            }
            &&& forall|k: int| 0 <= k < logged.len() ==> (#[trigger] logged[k]).0 == LogLevel::Info
            &&& logged[0].1 == "Received PR event: action="@ + event.action.spec_name()
                + ", merged="@ + (if event.pull_request.merged {
                "true"@
            } else {
                "false"@
            }) + ", PR#"@ + text::decimal(event.number as nat)
            &&& !merge ==> logged[1].1
                == "PR not a merge or no changelog repo configured, skipping"@
            &&& merge && counts && count == 0 ==> logged[1].1 == "No changelogs found in PR body"@
            &&& merge && counts && count > 0 ==> logged[1].1 == "Found "@ + text::decimal(count)
                + " changelogs in PR#"@ + text::decimal(event.number as nat)
        }),
{
}

/// What is logged about the attempt to write a changelog tells whose it is, or what
/// went wrong.
pub proof fn law_written_or_not_is_logged(number: nat, e: Seq<char>)
    ensures
        written_record(number, Ok(())) == (
            LogLevel::Info,
            "Wrote temp changelog for PR-"@ + text::decimal(number),
        ),
        written_record(number, Err(e)) == (
            LogLevel::Error,
            "Error writing changelog temp file: "@ + e,
        ),
{
}

} // verus!

//! What a push event leads to.

use regex::Regex;
use vstd::prelude::*;
use vstd::string::*;

use crate::events::{Commit, MoMMIConfig, PushEvent};
use crate::logs;
use crate::logs::{LogLevel, LogRecord};
use crate::pull_request;
use crate::text;

verus! {

/// The files that hold changelogs.
pub const IS_CHANGELOG_RE: &'static str = "^html/changelogs/[^.].*\\.yml$";

/// Whether the file at `path` holds a changelog: a visible YAML file in the
/// directory of changelogs or below it.
pub open spec fn is_changelog_path(path: Seq<char>) -> bool {
    exists|c: char, middle: Seq<char>|
        {
            &&& path == #[trigger] changelog_path(c, middle)
            &&& c != '.'
            &&& !middle.contains('\n')
        }
}

/// The path of a changelog: after the directory one character, `c`, then `middle`,
/// then the extension.
pub open spec fn changelog_path(c: char, middle: Seq<char>) -> Seq<char> {
    "html/changelogs/"@ + seq![c] + middle + ".yml"@
}

/// Builds the pattern with `Regex::new` and searches with `Regex::is_match`.
///
/// The pattern is valid. In it `^` and `$` hold at the two ends of the text alone, `[^.]` is
/// one character other than a full stop, and `.*` is any run of characters
/// without a line feed.
#[verifier::external_body]
fn is_match(pattern: &str, haystack: &str) -> (b: bool)
    requires
        pattern@ == IS_CHANGELOG_RE@,
    ensures
        b == is_changelog_path(haystack@),
{
    Regex::new(pattern).unwrap().is_match(haystack)
}

/// What to log, and whether to ask for a run over the changelogs.
#[derive(Debug, Clone)]
pub struct PushPlan {
    pub logs: Vec<LogRecord>,
    pub process: bool,
}

/// The files of the commits, in order: of each those added, then those changed.
pub open spec fn pushed_files(commits: Seq<Commit>) -> Seq<Seq<char>>
    decreases commits.len(),
{
    if commits.len() == 0 {
        Seq::empty()
    } else {
        text::texts(commits.first().added@) + text::texts(commits.first().modified@) + pushed_files(
            commits.drop_first(),
        )
    }
}

/// Whether one of the files holds a changelog.
pub open spec fn any_changelog(files: Seq<Seq<char>>) -> bool {
    exists|k: int| 0 <= k < files.len() && is_changelog_path(#[trigger] files[k])
}

/// What is logged about the files: each of them, up to the first that holds a
/// changelog.
pub open spec fn file_logs(files: Seq<Seq<char>>) -> Seq<(LogLevel, Seq<char>)>
    decreases files.len(),
{
    if files.len() == 0 {
        Seq::empty()
    } else {
        let first = seq![logs::info("Push event file: "@ + files.first())];
        if is_changelog_path(files.first()) {
            first
        } else {
            first + file_logs(files.drop_first())
        }
    }
}

/// Logs the files up to the first that holds a changelog, and says whether there
/// is one.
fn scan_files(files: &Vec<String>, logs: &mut Vec<LogRecord>) -> (found: bool)
    ensures
        logs::records(final(logs)@) == logs::records(old(logs)@) + file_logs(text::texts(files@)),
        found == any_changelog(text::texts(files@)),
{
    let ghost all = text::texts(files@);
    let ghost start = logs::records(logs@);
    let mut k: usize = 0;
    assert(all.skip(0) =~= all);
    assert(start + Seq::<(LogLevel, Seq<char>)>::empty() =~= start);
    while k < files.len()
        invariant
            k <= files@.len(),
            all == text::texts(files@),
            start == logs::records(old(logs)@),
            start + file_logs(all) == logs::records(logs@) + file_logs(all.skip(k as int)),
            forall|m: int| 0 <= m < k ==> !is_changelog_path(#[trigger] all[m]),
        decreases files@.len() - k,
    {
        let ghost before = logs@;
        let ghost rest = all.skip(k as int);
        let message = text::concat2("Push event file: ", files[k].as_str());
        logs.push(logs::log_info(message.as_str()));
        proof {
            assert(rest.first() == files@[k as int]@);
            assert(rest.drop_first() =~= all.skip(k + 1));
            assert(logs::records(logs@) =~= logs::records(before).push(
                logs::info("Push event file: "@ + rest.first()),
            ));
            assert(all[k as int] == files@[k as int]@);
        }
        if is_match(IS_CHANGELOG_RE, files[k].as_str()) {
            assert(logs::records(logs@) =~= logs::records(before) + file_logs(rest));
            return true;
        }
        assert(logs::records(logs@) + file_logs(all.skip(k + 1)) =~= logs::records(before)
            + file_logs(rest));
        k += 1;
    }
    assert(logs::records(logs@) + file_logs(all.skip(k as int)) =~= logs::records(logs@));
    false
}

/// The files of a push are looked through one part after the other, up to the
/// first that holds a changelog.
pub proof fn law_files_are_scanned_in_order(a: Seq<Seq<char>>, b: Seq<Seq<char>>)
    ensures
        any_changelog(a + b) == (any_changelog(a) || any_changelog(b)),
        file_logs(a + b) == if any_changelog(a) {
            file_logs(a)
        } else {
            file_logs(a) + file_logs(b)
        },
    decreases a.len(),
{
    assert(any_changelog(a + b) == (any_changelog(a) || any_changelog(b))) by {
        if any_changelog(a) {
            let k = choose|k: int| 0 <= k < a.len() && is_changelog_path(#[trigger] a[k]);
            assert((a + b)[k] == a[k]);
        }
        if any_changelog(b) {
            let k = choose|k: int| 0 <= k < b.len() && is_changelog_path(#[trigger] b[k]);
            assert((a + b)[a.len() + k] == b[k]);
        }
    }
    if a.len() == 0 {
        assert(a + b =~= b);
        assert(file_logs(a) + file_logs(b) =~= file_logs(b));
    } else {
        let rest = a.drop_first();
        law_files_are_scanned_in_order(rest, b);
        assert((a + b).drop_first() =~= rest + b);
        assert((a + b).first() == a.first());
        if is_changelog_path(a.first()) {
            assert(is_changelog_path(a[0]));
        } else {
            assert(any_changelog(a) == any_changelog(rest)) by {
                if any_changelog(a) {
                    let k = choose|k: int| 0 <= k < a.len() && is_changelog_path(#[trigger] a[k]);
                    assert(rest[k - 1] == a[k]);
                }
                if any_changelog(rest) {
                    let k = choose|k: int|
                        0 <= k < rest.len() && is_changelog_path(#[trigger] rest[k]);
                    assert(a[k + 1] == rest[k]);
                }
            }
            if !any_changelog(a) {
                assert(file_logs(a + b) =~= file_logs(a) + file_logs(b));
            }
        }
    }
}

/// What a push leads to: a run over the changelogs, where the repository counts
/// and one of the pushed files holds a changelog.
pub fn try_handle_changelog_push(event: &PushEvent, config: &MoMMIConfig) -> (r: PushPlan)
    ensures
        config.spec_concerns(event.repository.full_name@) ==> {
            &&& r.process == any_changelog(pushed_files(event.commits@))
            &&& logs::records(r.logs@) == file_logs(pushed_files(event.commits@))
        },
        !config.spec_concerns(event.repository.full_name@) ==> !r.process && r.logs@.len() == 0,
        r.process <==> config.spec_concerns(event.repository.full_name@) && ((exists|
            k: int,
            m: int,
        |
            0 <= k < event.commits@.len() && 0 <= m < event.commits@[k].added@.len()
                && is_changelog_path(#[trigger] event.commits@[k].added@[m]@)) || (exists|
            k: int,
            m: int,
        |
            0 <= k < event.commits@.len() && 0 <= m < event.commits@[k].modified@.len()
                && is_changelog_path(#[trigger] event.commits@[k].modified@[m]@))),
{
    let mut logs: Vec<LogRecord> = Vec::new();
    if !config.concerns(&event.repository.full_name) {
        return PushPlan { logs, process: false };
    }
    let ghost all = pushed_files(event.commits@);
    let mut k: usize = 0;
    assert(event.commits@.skip(0) =~= event.commits@);
    assert(logs::records(logs@) + file_logs(all) =~= file_logs(all));
    while k < event.commits.len()
        invariant
            k <= event.commits@.len(),
            all == pushed_files(event.commits@),
            file_logs(all) == logs::records(logs@) + file_logs(
                pushed_files(event.commits@.skip(k as int)),
            ),
            any_changelog(all) == any_changelog(pushed_files(event.commits@.skip(k as int))),
            config.spec_concerns(event.repository.full_name@),
        decreases event.commits@.len() - k,
    {
        let commit = &event.commits[k];
        let ghost before = logs::records(logs@);
        let ghost rest = event.commits@.skip(k as int);
        let ghost added = text::texts(commit.added@);
        let ghost modified = text::texts(commit.modified@);
        proof {
            assert(rest.first() == *commit);
            assert(rest.drop_first() =~= event.commits@.skip(k + 1));
            let later = pushed_files(rest.drop_first());
            law_files_are_scanned_in_order(added + modified, later);
            law_files_are_scanned_in_order(added, modified);
            law_a_changelog_in_any_commit_counts(event.commits@);
        }
        if scan_files(&commit.added, &mut logs) {
            return PushPlan { logs, process: true };
        }
        if scan_files(&commit.modified, &mut logs) {
            assert(logs::records(logs@) =~= before + (file_logs(added) + file_logs(modified)));
            return PushPlan { logs, process: true };
        }
        assert(logs::records(logs@) + file_logs(pushed_files(rest.drop_first())) =~= before + (
        file_logs(added) + file_logs(modified) + file_logs(pushed_files(rest.drop_first()))));
        k += 1;
    }
    assert(pushed_files(event.commits@.skip(k as int)) =~= Seq::empty());
    assert(logs::records(logs@) =~= file_logs(all));
    proof {
        law_a_changelog_in_any_commit_counts(event.commits@);
    }
    PushPlan { logs, process: false }
}

/// The file that a merged pull request leads to is one that holds a changelog, so
/// that the push that brings it in leads to a run.
pub proof fn law_temp_file_is_a_changelog(number: nat)
    ensures
        is_changelog_path(pull_request::temp_path(number)),
{
    reveal_strlit("html/changelogs/PR-");
    reveal_strlit("html/changelogs/");
    reveal_strlit("-temp.yml");
    reveal_strlit(".yml");
    let middle = seq!['R', '-'] + text::decimal(number) + seq!['-', 't', 'e', 'm', 'p'];
    text::lemma_decimal_digits(number);
    assert(!middle.contains('\n'));
    assert(pull_request::temp_path(number) =~= changelog_path('P', middle));
}

/// A path is that of a changelog by its characters: the directory, then at least one
/// character that is no full stop, then the extension, with no line feed between.
pub proof fn law_changelog_paths_by_their_characters(path: Seq<char>)
    ensures
        is_changelog_path(path) <==> {
            let n = path.len();
            &&& n >= 21
            &&& path.subrange(0, 16) == seq![
                'h',
                't',
                'm',
                'l',
                '/',
                'c',
                'h',
                'a',
                'n',
                'g',
                'e',
                'l',
                'o',
                'g',
                's',
                '/',
            ]
            &&& path[16] != '.'
            &&& forall|k: int| 17 <= k < n - 4 ==> #[trigger] path[k] != '\n'
            &&& path[n - 4] == '.' && path[n - 3] == 'y' && path[n - 2] == 'm' && path[n - 1]
                == 'l'
        },
{
    reveal_strlit("html/changelogs/");
    reveal_strlit(".yml");
    let n = path.len() as int;
    let dir = seq!['h', 't', 'm', 'l', '/', 'c', 'h', 'a', 'n', 'g', 'e', 'l', 'o', 'g', 's', '/'];
    assert("html/changelogs/"@ =~= dir);
    assert(".yml"@ =~= seq!['.', 'y', 'm', 'l']);
    if is_changelog_path(path) {
        let (c, middle) = choose|c: char, middle: Seq<char>|
            {
                &&& path == #[trigger] changelog_path(c, middle)
                &&& c != '.'
                &&& !middle.contains('\n')
            };
        assert(path.subrange(0, 16) =~= dir);
        assert forall|k: int| 17 <= k < n - 4 implies #[trigger] path[k] != '\n' by {
            assert(path[k] == middle[k - 17]);
            assert(middle.contains(middle[k - 17]));
        }
    }
    if n >= 21 && path.subrange(0, 16) == dir && path[16] != '.' && (forall|k: int|
        17 <= k < n - 4 ==> #[trigger] path[k] != '\n') && path[n - 4] == '.' && path[n - 3] == 'y'
        && path[n - 2] == 'm' && path[n - 1] == 'l' {
        let middle = path.subrange(17, n - 4);
        assert(path =~= changelog_path(path[16], middle)) by {
            assert forall|k: int| 0 <= k < 16 implies path[k] == dir[k] by {
                assert(path.subrange(0, 16)[k] == path[k]);
            }
        }
        assert(!middle.contains('\n'));
    }
}

/// The files of one commit are those it added and those it changed, and the files of
/// commits are those of the first ones, followed by those of the others.
pub proof fn law_pushed_files_are_those_of_the_commits(
    commit: Commit,
    a: Seq<Commit>,
    b: Seq<Commit>,
)
    ensures
        pushed_files(seq![commit]) == text::texts(commit.added@) + text::texts(commit.modified@),
        pushed_files(a + b) == pushed_files(a) + pushed_files(b),
    decreases a.len(),
{
    assert(seq![commit].drop_first() =~= Seq::empty());
    assert(pushed_files(seq![commit].drop_first()) =~= Seq::empty());
    assert(pushed_files(seq![commit]) =~= text::texts(commit.added@) + text::texts(
        commit.modified@,
    ));
    if a.len() == 0 {
        assert(a + b =~= b);
        assert(pushed_files(a) + pushed_files(b) =~= pushed_files(b));
    } else {
        law_pushed_files_are_those_of_the_commits(commit, a.drop_first(), b);
        assert((a + b).drop_first() =~= a.drop_first() + b);
        assert((a + b).first() == a.first());
        assert(pushed_files(a + b) =~= pushed_files(a) + pushed_files(b));
    }
}

/// A push brings changelogs exactly where some commit added or changed one, be it the
/// only file of its commit or one of many.
pub proof fn law_a_changelog_in_any_commit_counts(commits: Seq<Commit>)
    ensures
        any_changelog(pushed_files(commits)) <==> ((exists|k: int, m: int|
            0 <= k < commits.len() && 0 <= m < commits[k].added@.len() && is_changelog_path(
                #[trigger] commits[k].added@[m]@,
            )) || (exists|k: int, m: int|
            0 <= k < commits.len() && 0 <= m < commits[k].modified@.len() && is_changelog_path(
                #[trigger] commits[k].modified@[m]@,
            ))),
    decreases commits.len(),
{
    if commits.len() > 0 {
        let c = commits.first();
        let rest = commits.drop_first();
        let added = text::texts(c.added@);
        let modified = text::texts(c.modified@);
        law_a_changelog_in_any_commit_counts(rest);
        law_files_are_scanned_in_order(added, modified);
        law_files_are_scanned_in_order(added + modified, pushed_files(rest));
        assert(c == commits[0]);
        if any_changelog(added) {
            let m = choose|m: int| 0 <= m < added.len() && is_changelog_path(#[trigger] added[m]);
            assert(is_changelog_path(commits[0].added@[m]@));
        }
        if any_changelog(modified) {
            let m = choose|m: int|
                0 <= m < modified.len() && is_changelog_path(#[trigger] modified[m]);
            assert(is_changelog_path(commits[0].modified@[m]@));
        }
        if exists|k: int, m: int|
            0 <= k < rest.len() && 0 <= m < rest[k].added@.len() && is_changelog_path(
                #[trigger] rest[k].added@[m]@,
            ) {
            let (k, m) = choose|k: int, m: int|
                0 <= k < rest.len() && 0 <= m < rest[k].added@.len() && is_changelog_path(
                    #[trigger] rest[k].added@[m]@,
                );
            assert(commits[k + 1] == rest[k]);
            assert(is_changelog_path(commits[k + 1].added@[m]@));
        }
        if exists|k: int, m: int|
            0 <= k < rest.len() && 0 <= m < rest[k].modified@.len() && is_changelog_path(
                #[trigger] rest[k].modified@[m]@,
            ) {
            let (k, m) = choose|k: int, m: int|
                0 <= k < rest.len() && 0 <= m < rest[k].modified@.len() && is_changelog_path(
                    #[trigger] rest[k].modified@[m]@,
                );
            assert(commits[k + 1] == rest[k]);
            assert(is_changelog_path(commits[k + 1].modified@[m]@));
        }
        if exists|k: int, m: int|
            0 <= k < commits.len() && 0 <= m < commits[k].added@.len() && is_changelog_path(
                #[trigger] commits[k].added@[m]@,
            ) {
            let (k, m) = choose|k: int, m: int|
                0 <= k < commits.len() && 0 <= m < commits[k].added@.len() && is_changelog_path(
                    #[trigger] commits[k].added@[m]@,
                );
            if k == 0 {
                assert(is_changelog_path(added[m]));
            } else {
                assert(rest[k - 1] == commits[k]);
                assert(is_changelog_path(rest[k - 1].added@[m]@));
            }
        }
        if exists|k: int, m: int|
            0 <= k < commits.len() && 0 <= m < commits[k].modified@.len() && is_changelog_path(
                #[trigger] commits[k].modified@[m]@,
            ) {
            let (k, m) = choose|k: int, m: int|
                0 <= k < commits.len() && 0 <= m < commits[k].modified@.len() && is_changelog_path(
                    #[trigger] commits[k].modified@[m]@,
                );
            if k == 0 {
                assert(is_changelog_path(modified[m]));
            } else {
                assert(rest[k - 1] == commits[k]);
                assert(is_changelog_path(rest[k - 1].modified@[m]@));
            }
        }
    }
}

/// Each file is logged by its name, in order; all of them where none holds a
/// changelog, and else those up to the first that does, with it and none behind it.
pub proof fn law_files_are_logged_up_to_the_first_changelog(files: Seq<Seq<char>>)
    ensures
        ({
            let logged = file_logs(files);
            &&& logged.len() <= files.len()
            &&& forall|k: int|
                0 <= k < logged.len() ==> #[trigger] logged[k] == (
                    LogLevel::Info,
                    "Push event file: "@ + files[k],
                )
            &&& forall|k: int|
                0 <= k < logged.len() - 1 ==> !is_changelog_path(#[trigger] files[k])
            &&& logged.len() < files.len() ==> logged.len() > 0 && is_changelog_path(
                files[logged.len() - 1],
            )
        }),
    decreases files.len(),
{
    if files.len() > 0 && !is_changelog_path(files.first()) {
        let rest = files.drop_first();
        law_files_are_logged_up_to_the_first_changelog(rest);
        let logged = file_logs(files);
        assert forall|k: int| 0 <= k < logged.len() implies #[trigger] logged[k] == (
            LogLevel::Info,
            "Push event file: "@ + files[k],
        ) by {
            if k > 0 {
                assert(logged[k] == file_logs(rest)[k - 1]);
                assert(rest[k - 1] == files[k]);
            }
        }
        assert forall|k: int| 0 <= k < logged.len() - 1 implies !is_changelog_path(
            #[trigger] files[k],
        ) by {
            if k > 0 {
                assert(rest[k - 1] == files[k]);
            }
        }
        if logged.len() < files.len() {
            assert(rest[file_logs(rest).len() - 1] == files[logged.len() - 1]);
        }
    }
}

/// The pattern, word for word: what is claimed of the search is claimed of it alone.
pub proof fn law_the_pattern_of_changelog_paths()
    ensures
        IS_CHANGELOG_RE@ == "^html/changelogs/[^.].*\\.yml$"@,
{
}

} // verus!

//! When a run over the changelogs starts.
//!
//! The first request starts a thread. The thread waits until no request has come
//! for the configured delay, and then does the run. A request that comes while a
//! thread waits moves the start of the run, and starts no second thread.

use std::time::Duration;
use vstd::prelude::*;
use vstd::string::*;

use crate::events::MoMMIConfig;
use crate::logs;
use crate::logs::{LogLevel, LogRecord};
use crate::text;

verus! {

/// The nanoseconds of a second.
pub const NANOS_PER_SEC: u32 = 1_000_000_000;

/// A length of time. Its view is the number of nanoseconds.
#[derive(Debug, Clone, Copy, PartialEq, Eq, Structural)]
pub struct TimeSpan {
    pub secs: u64,
    /// Less than a second.
    pub nanos: u32,
}

impl View for TimeSpan {
    type V = nat;

    open spec fn view(&self) -> nat {
        self.secs as nat * NANOS_PER_SEC as nat + self.nanos as nat
    }
}

/// The nanoseconds of a number of seconds.
pub open spec fn seconds(secs: nat) -> nat {
    secs * NANOS_PER_SEC as nat
}

impl TimeSpan {
    /// The nanoseconds make up less than a second.
    pub open spec fn wf(self) -> bool {
        self.nanos < NANOS_PER_SEC
    }

    /// A number of seconds.
    pub fn from_secs(secs: u64) -> (r: TimeSpan)
        ensures
            r.wf(),
            r@ == seconds(secs as nat),
            r.secs == secs,
            r.nanos == 0,
    {
        TimeSpan { secs, nanos: 0 }
    }

    /// What is left of this time when `other` is taken from it, unless `other` is
    /// longer.
    pub fn checked_sub(self, other: TimeSpan) -> (r: Option<TimeSpan>)
        requires
            self.wf(),
            other.wf(),
        ensures
            match r {
                Some(rest) => rest.wf() && self@ == other@ + rest@,
                None => self@ < other@,
            },
    {
        if self.secs < other.secs {
            return None;
        }
        if self.nanos >= other.nanos {
            Some(TimeSpan { secs: self.secs - other.secs, nanos: self.nanos - other.nanos })
        } else if self.secs == other.secs {
            None
        } else {
            Some(
                TimeSpan {
                    secs: self.secs - other.secs - 1,
                    nanos: NANOS_PER_SEC - other.nanos + self.nanos,
                },
            )
        }
    }
}

/// How `std::time::Duration` shows a time with `{:?}`.
pub uninterp spec fn duration_debug(secs: u64, nanos: u32) -> Seq<char>;

/// Formats a `std::time::Duration` with `{:?}`. The text depends on the time alone.
#[verifier::external_body]
fn duration_text(secs: u64, nanos: u32) -> (r: String)
    requires
        nanos < NANOS_PER_SEC,
    ensures
        r@ == duration_debug(secs, nanos),
{
    format!("{:?}", Duration::new(secs, nanos))
}

/// The requests for a run. Times are counted from a start that all of them share.
#[derive(Debug, Clone, Copy, PartialEq, Eq, Structural)]
pub struct ChangelogManager {
    /// When the last request came; `None` where no thread waits.
    pub last_time: Option<TimeSpan>,
}

/// What to log, and whether to start a thread.
#[derive(Debug, Clone)]
pub struct ProcessPlan {
    pub log: LogRecord,
    pub spawn: bool,
}

/// What a waiting thread does next, and what it logs.
#[derive(Debug, Clone)]
pub enum ThreadStep {
    /// Start the run.
    Run(LogRecord),
    /// Sleep this long, and look again.
    Wait(TimeSpan, LogRecord),
}

impl ChangelogManager {
    /// The time of the last request is one.
    pub open spec fn wf(self) -> bool {
        self.last_time matches Some(time) ==> time.wf()
    }

    /// No request has come.
    pub fn new() -> (r: ChangelogManager)
        ensures
            r.wf(),
            r.last_time is None,
    {
        ChangelogManager { last_time: None }
    }

    /// How long ago the last request came; no time at all where the clock seems to
    /// have gone back.
    pub open spec fn spec_elapsed(self, now: nat) -> nat {
        let last = (self.last_time->0)@;
        if last <= now {
            (now - last) as nat
        } else {
            0
        }
    }

    /// How long ago the last request came.
    pub fn elapsed(&self, now: TimeSpan) -> (r: TimeSpan)
        requires
            self.wf(),
            self.last_time is Some,
            now.wf(),
        ensures
            r.wf(),
            r@ == self.spec_elapsed(now@),
    {
        match self.last_time {
            Some(last) => match now.checked_sub(last) {
                Some(elapsed) => elapsed,
                None => TimeSpan::from_secs(0),
            },
            None => TimeSpan::from_secs(0),
        }
    }

    /// The thread's wait is over and the run starts: the next request starts a
    /// thread again.
    pub fn begin_run(&mut self) -> (r: LogRecord)
        ensures
            *final(self) == run_begun(*old(self)),
            r@ == logs::info("Running changelogs!"@),
    {
        self.last_time = None;
        logs::log_info("Running changelogs!")
    }
}

/// The manager once a request has come.
pub open spec fn requested(manager: ChangelogManager, now: TimeSpan) -> ChangelogManager {
    ChangelogManager { last_time: Some(now) }
}

/// Whether a request starts a thread.
pub open spec fn spawns(manager: ChangelogManager) -> bool {
    manager.last_time is None
}

/// The manager once a run has started.
pub open spec fn run_begun(manager: ChangelogManager) -> ChangelogManager {
    ChangelogManager { last_time: None }
}

/// What is logged about a request once it is known whether a thread waits.
pub open spec fn request_log(manager: ChangelogManager) -> (LogLevel, Seq<char>) {
    if spawns(manager) {
        logs::info("Spawning new changelog thread"@)
    } else {
        logs::info("Changelog thread already running, updated last_time"@)
    }
}

/// What is logged first when a request comes, before the manager is looked at.
pub fn request_received() -> (r: LogRecord)
    ensures
        r@ == logs::info("process_changelogs called"@),
{
    logs::log_info("process_changelogs called")
}

/// A request for a run, which comes at the time `now`.
pub fn process_changelogs(manager: &mut ChangelogManager, now: TimeSpan) -> (r: ProcessPlan)
    requires
        now.wf(),
    ensures
        *final(manager) == requested(*old(manager), now),
        final(manager).wf(),
        r.spawn == spawns(*old(manager)),
        r.log@ == request_log(*old(manager)),
{
    let spawn = match manager.last_time {
        Some(_) => false,
        None => true,
    };
    manager.last_time = Some(now);
    let log = if spawn {
        logs::log_info("Spawning new changelog thread")
    } else {
        logs::log_info("Changelog thread already running, updated last_time")
    };
    ProcessPlan { log, spawn }
}

/// What a thread logs when it starts.
pub fn changelog_thread_started(delay: u64) -> (r: LogRecord)
    ensures
        r@ == logs::info(
            "Changelog thread started, delay="@ + text::decimal(delay as nat) + "s"@,
        ),
{
    let delay = text::decimal_text(delay);
    let message = text::concat3("Changelog thread started, delay=", delay.as_str(), "s");
    logs::log_info(message.as_str())
}

/// What a thread logs before it sleeps.
pub open spec fn waiting_log(duration: Seq<char>) -> (LogLevel, Seq<char>) {
    logs::info("Waiting "@ + duration + " before processing"@)
}

/// What a thread logs before it sleeps; `duration` says for how long.
pub fn waiting_record(duration: &str) -> (r: LogRecord)
    ensures
        r@ == waiting_log(duration@),
{
    let message = text::concat3("Waiting ", duration, " before processing");
    logs::log_info(message.as_str())
}

/// Whether the run is due at the time `now`: the last request is longer ago than
/// `delay` seconds.
pub open spec fn is_due(manager: ChangelogManager, now: nat, delay: nat) -> bool {
    manager.spec_elapsed(now) > seconds(delay)
}

/// What a waiting thread does next at the time `now`: it starts the run where the
/// last request is longer ago than `delay` seconds, and sleeps for what is left of
/// the delay where it is not.
pub fn handle_changelog_thread(manager: &ChangelogManager, now: TimeSpan, delay: u64) -> (r:
    ThreadStep)
    requires
        manager.wf(),
        manager.last_time is Some,
        now.wf(),
    ensures
        r is Run <==> is_due(*manager, now@, delay as nat),
        r is Run <==> (now.secs - (manager.last_time->0).secs) * 1_000_000_000 + now.nanos - (
        manager.last_time->0).nanos > delay * 1_000_000_000,
        match r {
            ThreadStep::Run(log) => log@ == logs::info(
                "Delay elapsed, starting changelog processing"@,
            ),
            ThreadStep::Wait(time, log) => {
                &&& time.wf()
                &&& manager.spec_elapsed(now@) + time@ == seconds(delay as nat)
                &&& ({
                    let last = manager.last_time->0;
                    let passed = (now.secs - last.secs) * 1_000_000_000 + now.nanos - last.nanos;
                    time.secs * 1_000_000_000 + time.nanos == delay * 1_000_000_000 - (if passed
                        > 0 {
                        passed
                    } else {
                        0
                    })
                })
                &&& log@ == waiting_log(duration_debug(time.secs, time.nanos))
            },
        },
{
    let elapsed = manager.elapsed(now);
    if elapsed.secs > delay {
        return ThreadStep::Run(logs::log_info("Delay elapsed, starting changelog processing"));
    }
    match TimeSpan::from_secs(delay).checked_sub(elapsed) {
        Some(time) => {
            let duration = duration_text(time.secs, time.nanos);
            ThreadStep::Wait(time, waiting_record(duration.as_str()))
        },
        None => ThreadStep::Run(logs::log_info("Delay elapsed, starting changelog processing")),
    }
}

/// What happens to a manager: a request comes, with the configuration for the
/// thread that it may start, or the waiting thread looks whether the run is due.
pub enum Happening {
    Request(TimeSpan, MoMMIConfig),
    Check(TimeSpan),
}

/// A manager, and the threads that wait, each with its configuration.
pub struct Waiting {
    pub manager: ChangelogManager,
    pub threads: Seq<MoMMIConfig>,
}

/// Whether the waiting thread finds its run due, and starts it.
pub open spec fn runs(state: Waiting, happening: Happening) -> bool {
    &&& happening matches Happening::Check(now)
    &&& state.threads.len() > 0
    &&& is_due(state.manager, now@, state.threads[0].changelog_delay as nat)
}

/// What is left after something happened. A run ends the wait of its thread.
pub open spec fn happened(state: Waiting, happening: Happening) -> Waiting {
    match happening {
        Happening::Request(now, config) => Waiting {
            manager: requested(state.manager, now),
            threads: if spawns(state.manager) {
                state.threads.push(config)
            } else {
                state.threads
            },
        },
        Happening::Check(_) => if runs(state, happening) {
            Waiting { manager: run_begun(state.manager), threads: state.threads.drop_first() }
        } else {
            state
        },
    }
}

/// What is left after all that happened, from the state in which no request has
/// come.
pub open spec fn history(happenings: Seq<Happening>) -> Waiting
    decreases happenings.len(),
{
    if happenings.len() == 0 {
        Waiting { manager: ChangelogManager { last_time: None }, threads: Seq::empty() }
    } else {
        happened(history(happenings.drop_last()), happenings.last())
    }
}

/// When the latest request came.
pub open spec fn latest_request(happenings: Seq<Happening>) -> Option<TimeSpan>
    decreases happenings.len(),
{
    if happenings.len() == 0 {
        None
    } else {
        match happenings.last() {
            Happening::Request(now, _) => Some(now),
            Happening::Check(_) => latest_request(happenings.drop_last()),
        }
    }
}

/// Whether the `k`th happening is the start of a run.
pub open spec fn run_at(happenings: Seq<Happening>, k: int) -> bool {
    0 <= k < happenings.len() && runs(history(happenings.take(k)), happenings[k])
}

/// Whether the `k`th happening is a request that starts a thread with this
/// configuration.
pub open spec fn thread_at(happenings: Seq<Happening>, k: int, config: MoMMIConfig) -> bool {
    &&& 0 <= k < happenings.len()
    &&& happenings[k] matches Happening::Request(_, c)
    &&& c == config
    &&& spawns(history(happenings.take(k)).manager)
}

/// How many threads were started.
pub open spec fn threads_started(happenings: Seq<Happening>) -> nat
    decreases happenings.len(),
{
    if happenings.len() == 0 {
        0
    } else {
        let earlier = threads_started(happenings.drop_last());
        if happenings.last() is Request && spawns(history(happenings.drop_last()).manager) {
            earlier + 1
        } else {
            earlier
        }
    }
}

/// How many runs were started.
pub open spec fn runs_started(happenings: Seq<Happening>) -> nat
    decreases happenings.len(),
{
    if happenings.len() == 0 {
        0
    } else {
        let earlier = runs_started(happenings.drop_last());
        if runs(history(happenings.drop_last()), happenings.last()) {
            earlier + 1
        } else {
            earlier
        }
    }
}

/// Whatever happens, one thread waits where a request is open, and none where none
/// is: so a waiting thread always finds the time of the last request, which is that
/// of the latest.
pub proof fn law_one_thread_waits_for_open_requests(happenings: Seq<Happening>)
    ensures
        ({
            let state = history(happenings);
            if state.manager.last_time is Some {
                &&& state.threads.len() == 1
                &&& state.manager.last_time == latest_request(happenings)
            } else {
                state.threads.len() == 0
            }
        }),
    decreases happenings.len(),
{
    if happenings.len() > 0 {
        law_one_thread_waits_for_open_requests(happenings.drop_last());
    }
}

/// Whatever happens, a run starts only when more than the delay has passed since
/// the latest request. The delay is that of the thread's own configuration. With the
/// run no request is open, and no thread waits.
pub proof fn law_a_run_comes_after_the_delay(happenings: Seq<Happening>, k: int)
    requires
        run_at(happenings, k),
    ensures
        ({
            let before = happenings.take(k);
            let after = history(happenings.take(k + 1));
            let config = history(before).threads[0];
            &&& happenings[k] matches Happening::Check(now)
            &&& latest_request(before) matches Some(latest)
            &&& latest@ + seconds(config.changelog_delay as nat) < now@
            &&& after.manager.last_time is None
            &&& after.threads.len() == 0
        }),
{
    let before = happenings.take(k);
    law_one_thread_waits_for_open_requests(before);
    assert(happenings.take(k + 1).drop_last() =~= before);
    assert(happenings.take(k + 1).last() == happenings[k]);
}

/// Whatever happens, a run is made with the configuration that its thread was
/// started with, and a thread makes one run: none starts between the request that
/// started the thread and the run.
pub proof fn law_a_thread_makes_its_own_run(happenings: Seq<Happening>, k: int)
    requires
        run_at(happenings, k),
    ensures
        exists|start: int|
            {
                &&& start < k
                &&& #[trigger] thread_at(happenings, start, history(happenings.take(k)).threads[0])
                &&& forall|m: int| start < m < k ==> !#[trigger] run_at(happenings, m)
            },
{
    let before = happenings.take(k);
    law_one_thread_waits_for_open_requests(before);
    lemma_a_waiting_thread_was_started(before);
    let config = history(before).threads[0];
    let start = choose|start: int|
        {
            &&& #[trigger] thread_at(before, start, config)
            &&& forall|m: int| start < m < before.len() ==> !#[trigger] run_at(before, m)
        };
    assert(before.take(start) =~= happenings.take(start));
    assert(thread_at(happenings, start, config));
    assert forall|m: int| start < m < k implies !#[trigger] run_at(happenings, m) by {
        assert(before.take(m) =~= happenings.take(m));
        assert(!run_at(before, m));
    }
}

proof fn lemma_a_waiting_thread_was_started(happenings: Seq<Happening>)
    requires
        history(happenings).threads.len() > 0,
    ensures
        exists|start: int|
            {
                &&& #[trigger] thread_at(happenings, start, history(happenings).threads[0])
                &&& forall|m: int|
                    start < m < happenings.len() ==> !#[trigger] run_at(happenings, m)
            },
    decreases happenings.len(),
{
    let front = happenings.drop_last();
    let last = happenings.len() - 1;
    let config = history(happenings).threads[0];
    law_one_thread_waits_for_open_requests(happenings);
    law_one_thread_waits_for_open_requests(front);
    assert(happenings.take(last) =~= front);
    if history(front).threads.len() == 0 {
        assert(thread_at(happenings, last, config));
    } else {
        lemma_a_waiting_thread_was_started(front);
        let start = choose|start: int|
            {
                &&& #[trigger] thread_at(front, start, history(front).threads[0])
                &&& forall|m: int| start < m < front.len() ==> !#[trigger] run_at(front, m)
            };
        assert(front.take(start) =~= happenings.take(start));
        assert(thread_at(happenings, start, config));
        assert forall|m: int| start < m < happenings.len() implies !#[trigger] run_at(
            happenings,
            m,
        ) by {
            if m < last {
                assert(front.take(m) =~= happenings.take(m));
                assert(!run_at(front, m));
            }
        }
    }
}

/// Whatever happens, one run answers all the requests before it: another run
/// follows only where another request has come.
pub proof fn law_a_run_answers_all_earlier_requests(happenings: Seq<Happening>, k: int, next: int)
    requires
        run_at(happenings, k),
        run_at(happenings, next),
        k < next,
    ensures
        exists|r: int| k < r < next && #[trigger] happenings[r] is Request,
{
    law_a_thread_makes_its_own_run(happenings, next);
    let config = history(happenings.take(next)).threads[0];
    let start = choose|start: int|
        {
            &&& start < next
            &&& #[trigger] thread_at(happenings, start, config)
            &&& forall|m: int| start < m < next ==> !#[trigger] run_at(happenings, m)
        };
    assert(happenings[start] is Request);
}

/// Whatever happens, each thread that was started has made one run, but for the one
/// that waits.
pub proof fn law_every_thread_runs_once(happenings: Seq<Happening>)
    ensures
        threads_started(happenings) == runs_started(happenings) + history(
            happenings,
        ).threads.len(),
    decreases happenings.len(),
{
    if happenings.len() > 0 {
        law_every_thread_runs_once(happenings.drop_last());
    }
}

/// A request that follows another, with no run between them, starts no thread; a
/// request that follows a run does.
pub proof fn law_requests_share_a_thread(manager: ChangelogManager, first: TimeSpan)
    ensures
        !spawns(requested(manager, first)),
        spawns(run_begun(manager)),
{
}

/// A request while a thread waits puts the run off: at that time nothing of the
/// delay has passed.
pub proof fn law_a_request_restarts_the_delay(manager: ChangelogManager, now: TimeSpan)
    ensures
        requested(manager, now).spec_elapsed(now@) == 0,
{
}

/// A thread that sleeps for what is left of the delay, `time`, finds the delay
/// passed when it wakes up, and not a moment before, unless a request came.
pub proof fn law_the_sleep_ends_with_the_delay(
    manager: ChangelogManager,
    now: nat,
    time: nat,
    delay: nat,
    wake: nat,
)
    requires
        manager.last_time is Some,
        (manager.last_time->0)@ <= now,
        manager.spec_elapsed(now) + time == seconds(delay),
        now <= wake,
    ensures
        manager.spec_elapsed(wake) >= seconds(delay) <==> wake >= now + time,
{
}

/// A time is its seconds and its nanoseconds, a thousand million of which make a
/// second; times that are equally long are the same.
pub proof fn law_time_is_counted_in_nanoseconds(a: TimeSpan, b: TimeSpan)
    ensures
        a@ == a.secs * 1_000_000_000 + a.nanos,
        a.wf() <==> a.nanos < 1_000_000_000,
        a.wf() && b.wf() && a@ == b@ ==> a == b,
        a.wf() && b.wf() && a.secs < b.secs ==> a@ < b@,
{
}

/// A run is due exactly when, in nanoseconds, the last request is longer ago than
/// the delay, whatever the delay; until then what is left to wait is the delay
/// without the time that has passed, and the whole delay where the clock went back.
pub proof fn law_a_run_is_due_after_the_whole_delay(
    manager: ChangelogManager,
    now: TimeSpan,
    delay: u64,
    time: TimeSpan,
)
    requires
        manager.last_time is Some,
    ensures
        ({
            let last = manager.last_time->0;
            let passed = (now.secs * 1_000_000_000 + now.nanos) - (last.secs * 1_000_000_000
                + last.nanos);
            let whole = delay * 1_000_000_000;
            let left = time.secs * 1_000_000_000 + time.nanos;
            &&& manager.spec_elapsed(now@) == if passed > 0 {
                passed
            } else {
                0
            }
            &&& seconds(delay as nat) == whole
            &&& is_due(manager, now@, delay as nat) <==> passed > whole
            &&& manager.spec_elapsed(now@) + time@ == seconds(delay as nat) ==> {
                &&& !is_due(manager, now@, delay as nat)
                &&& passed >= 0 ==> left == whole - passed
                &&& passed < 0 ==> left == whole
            }
        }),
{
}

/// A longer delay is never over before a shorter one, and each second of it counts.
pub proof fn law_each_second_of_the_delay_counts(
    manager: ChangelogManager,
    now: TimeSpan,
    delay: u64,
    more: u64,
)
    requires
        manager.last_time is Some,
        delay + more <= u64::MAX,
        now.secs + more <= u64::MAX,
    ensures
        is_due(manager, now@, (delay + more) as nat) ==> is_due(manager, now@, delay as nat),
        manager.last_time->0.secs <= now.secs && manager.last_time->0.nanos <= now.nanos ==> (
        is_due(manager, now@, delay as nat) <==> is_due(
            manager,
            (TimeSpan { secs: (now.secs + more) as u64, nanos: now.nanos })@,
            (delay + more) as nat,
        )),
{
}

/// A request is remembered by its time and a run forgets it; a request starts a
/// thread exactly where none is remembered.
pub proof fn law_requests_are_remembered_until_a_run(manager: ChangelogManager, now: TimeSpan)
    ensures
        requested(manager, now).last_time == Some(now),
        run_begun(manager).last_time is None,
        spawns(manager) <==> manager.last_time is None,
        manager.wf() <==> (manager.last_time is Some ==> manager.last_time->0.nanos
            < 1_000_000_000),
{
}

/// What is logged about requests and about waiting.
pub proof fn law_request_messages(manager: ChangelogManager, duration: Seq<char>)
    ensures
        manager.last_time is None ==> request_log(manager) == (
            LogLevel::Info,
            "Spawning new changelog thread"@,
        ),
        manager.last_time is Some ==> request_log(manager) == (
            LogLevel::Info,
            "Changelog thread already running, updated last_time"@,
        ),
        waiting_log(duration).0 == LogLevel::Info,
        waiting_log(duration).1 == "Waiting "@ + duration + " before processing"@,
{
}

} // verus!

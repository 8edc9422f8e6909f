use std::time::Instant;
use vstd::prelude::*;

verus! {

/// Nanoseconds in one second.
pub const NANOS_PER_SEC: u128 = 1_000_000_000;

/// The most nanoseconds that a `std::time::Duration` can hold:
/// `u64::MAX` whole seconds and 999 999 999 nanoseconds.
pub open spec fn max_duration_nanos() -> int {
    u64::MAX as int * NANOS_PER_SEC as int + 999_999_999
}

/// Whether `minutes` whole minutes, counted in seconds, fit in a `u64`.
pub open spec fn minutes_fit(minutes: u64) -> bool {
    minutes * 60 <= u64::MAX
}

/// The length of a session of `minutes` minutes, in nanoseconds.
pub open spec fn session_nanos(minutes: u64) -> nat {
    (minutes * 60 * NANOS_PER_SEC) as nat
}

#[verifier::external_type_specification]
#[verifier::external_body]
pub struct ExInstant(Instant);

/// Calls `std::time::Instant::now`. The clock decides the result, so nothing
/// is claimed of it.
#[verifier::external_body]
fn instant_now() -> Instant {
    Instant::now()
}

/// Calls `std::time::Instant::elapsed` on `since` and reads the duration with
/// `Duration::as_nanos`. The clock decides the result; the one claim is the
/// range of a `Duration`, as its documentation gives it (`Duration::MAX`).
#[verifier::external_body]
fn elapsed_nanos(since: &Instant) -> (nanos: u128)
    ensures
        nanos <= max_duration_nanos(),
{
    since.elapsed().as_nanos()
}

/// The phase of the Pomodoro cycle.
#[derive(Debug, Clone, Copy, PartialEq, Eq, Structural)]
pub enum TimerState {
    Idle,
    Pomodoro,
    ShortBreak,
    LongBreak,
}

/// What a `Timer` is, seen from outside: the session length and the time left
/// (in nanoseconds), the three flags, and whether a start instant is held.
pub struct TimerView {
    pub total: nat,
    pub remaining: nat,
    pub running: bool,
    pub paused: bool,
    pub finished: bool,
    pub ticking: bool,
}

impl TimerView {
    /// What every timer satisfies.
    pub open spec fn valid(self) -> bool {
        &&& self.remaining <= self.total
        &&& self.total <= u64::MAX as int * NANOS_PER_SEC as int
        &&& self.paused ==> self.running
        &&& self.finished ==> self.running
        &&& self.ticking <==> (self.running && !self.paused)
    }

    pub open spec fn is_idle(self) -> bool {
        !self.running && !self.finished
    }

    pub open spec fn is_running(self) -> bool {
        self.running && !self.paused
    }

    pub open spec fn is_paused(self) -> bool {
        self.running && self.paused
    }

    /// A fresh timer, never started.
    pub open spec fn initial() -> TimerView {
        TimerView {
            total: 0,
            remaining: 0,
            running: false,
            paused: false,
            finished: false,
            ticking: false,
        }
    }

    /// A timer just started on a session of `minutes` minutes.
    pub open spec fn started(minutes: u64) -> TimerView {
        TimerView {
            total: session_nanos(minutes),
            remaining: session_nanos(minutes),
            running: true,
            paused: false,
            finished: false,
            ticking: true,
        }
    }

    /// The time left once `elapsed` nanoseconds have passed since the last
    /// start or resume; a timer that is not counting down keeps its value.
    pub open spec fn remaining_after(self, elapsed: int) -> nat {
        if self.running && !self.paused && self.ticking {
            if elapsed >= self.remaining {
                0
            } else {
                (self.remaining - elapsed) as nat
            }
        } else {
            self.remaining
        }
    }

    /// Pausing `elapsed` nanoseconds after the last start or resume.
    pub open spec fn paused_after(self, elapsed: int) -> TimerView {
        if self.running && !self.paused {
            TimerView {
                remaining: self.remaining_after(elapsed),
                paused: true,
                ticking: false,
                ..self
            }
        } else {
            self
        }
    }

    pub open spec fn resumed(self) -> TimerView {
        if self.running && self.paused {
            TimerView { paused: false, ticking: true, ..self }
        } else {
            self
        }
    }

    pub open spec fn stopped(self) -> TimerView {
        TimerView {
            total: self.total,
            remaining: 0,
            running: false,
            paused: false,
            finished: false,
            ticking: false,
        }
    }

    /// Whether a check `elapsed` nanoseconds after the last start or resume
    /// reports the end of the session.
    pub open spec fn finish_due(self, elapsed: int) -> bool {
        &&& self.running
        &&& !self.paused
        &&& !self.finished
        &&& self.ticking
        &&& elapsed >= self.remaining
    }

    /// The timer after such a check.
    pub open spec fn checked_after(self, elapsed: int) -> TimerView {
        if self.finish_due(elapsed) {
            TimerView { finished: true, ..self }
        } else {
            self
        }
    }
}

/// A countdown over one session. Durations are held in nanoseconds.
pub struct Timer {
    total_duration: u128,
    remaining: u128,
    running: bool,
    paused: bool,
    finished: bool,
    last_tick: Option<Instant>,
}

impl View for Timer {
    type V = TimerView;

    closed spec fn view(&self) -> TimerView {
        TimerView {
            total: self.total_duration as nat,
            remaining: self.remaining as nat,
            running: self.running,
            paused: self.paused,
            finished: self.finished,
            ticking: self.last_tick is Some,
        }
    }
}

impl Timer {
    #[verifier::type_invariant]
    pub(crate) open spec fn inv(self) -> bool {
        self@.valid()
    }

    pub fn new() -> (timer: Timer)
        ensures
            timer@ == TimerView::initial(),
    {
        Timer {
            total_duration: 0,
            remaining: 0,
            running: false,
            paused: false,
            finished: false,
            last_tick: None,
        }
    }

    fn start_session(&mut self, minutes: u64)
        requires
            minutes_fit(minutes),
        ensures
            final(self)@ == TimerView::started(minutes),
    {
        let secs: u64 = minutes * 60;
        let total: u128 = secs as u128 * NANOS_PER_SEC;
        *self = Timer {
            total_duration: total,
            remaining: total,
            running: true,
            paused: false,
            finished: false,
            last_tick: Some(instant_now()),
        };
    }

    /// Starts a focus session of `minutes` minutes.
    pub fn start_pomodoro(&mut self, minutes: u64)
        requires
            minutes_fit(minutes),
        ensures
            final(self)@ == TimerView::started(minutes),
    {
        self.start_session(minutes);
    }

    /// Starts a break of `minutes` minutes.
    pub fn start_break(&mut self, minutes: u64)
        requires
            minutes_fit(minutes),
        ensures
            final(self)@ == TimerView::started(minutes),
    {
        self.start_session(minutes);
    }

    /// The time left once `elapsed` nanoseconds have passed since the last
    /// start or resume.
    pub fn remaining_after(&self, elapsed: u128) -> (left: u128)
        ensures
            left == self@.remaining_after(elapsed as int),
    {
        if self.running && !self.paused {
            if self.last_tick.is_some() {
                if elapsed >= self.remaining {
                    return 0;
                }
                return self.remaining - elapsed;
            }
        }
        self.remaining
    }

    /// The time left now, read from the clock.
    pub fn remaining(&self) -> (left: u128)
        ensures
            exists|elapsed: nat| left == #[trigger] self@.remaining_after(elapsed as int),
    {
        let elapsed: u128 = match &self.last_tick {
            Some(last) => elapsed_nanos(last),
            None => 0,
        };
        let left: u128 = self.remaining_after(elapsed);
        assert(left == self@.remaining_after(elapsed as nat as int));
        left
    }

    /// Pauses a counting timer `elapsed` nanoseconds after its last start or
    /// resume, keeping the time left at that moment.
    pub fn pause_after(&mut self, elapsed: u128)
        ensures
            final(self)@ == old(self)@.paused_after(elapsed as int),
    {
        proof {
            use_type_invariant(&*self);
        }
        if self.running && !self.paused {
            let left: u128 = self.remaining_after(elapsed);
            *self = Timer {
                total_duration: self.total_duration,
                remaining: left,
                running: true,
                paused: true,
                finished: self.finished,
                last_tick: None,
            };
        }
    }

    /// Pauses a counting timer now, keeping the time left.
    pub fn pause(&mut self)
        ensures
            exists|elapsed: nat| final(self)@ == #[trigger] old(self)@.paused_after(elapsed as int),
    {
        proof {
            use_type_invariant(&*self);
        }
        let ghost before = self@;
        if self.running && !self.paused {
            let elapsed: u128 = match &self.last_tick {
                Some(last) => elapsed_nanos(last),
                None => 0,
            };
            self.pause_after(elapsed);
            assert(self@ == before.paused_after(elapsed as nat as int));
        } else {
            assert(self@ == before.paused_after(0nat as int));
        }
    }

    /// Resumes a paused timer.
    pub fn resume(&mut self)
        ensures
            final(self)@ == old(self)@.resumed(),
    {
        proof {
            use_type_invariant(&*self);
        }
        if self.running && self.paused {
            *self = Timer {
                total_duration: self.total_duration,
                remaining: self.remaining,
                running: true,
                paused: false,
                finished: self.finished,
                last_tick: Some(instant_now()),
            };
        }
    }

    /// Stops the timer and clears the time left.
    pub fn stop(&mut self)
        ensures
            final(self)@ == old(self)@.stopped(),
    {
        proof {
            use_type_invariant(&*self);
        }
        *self = Timer {
            total_duration: self.total_duration,
            remaining: 0,
            running: false,
            paused: false,
            finished: false,
            last_tick: None,
        };
    }

    pub fn is_idle(&self) -> (idle: bool)
        ensures
            idle == self@.is_idle(),
    {
        !self.running && !self.finished
    }

    pub fn is_running(&self) -> (counting: bool)
        ensures
            counting == self@.is_running(),
    {
        self.running && !self.paused
    }

    pub fn is_paused(&self) -> (paused: bool)
        ensures
            paused == self@.is_paused(),
    {
        self.running && self.paused
    }

    /// The length of the current session, in nanoseconds.
    pub fn total_duration(&self) -> (total: u128)
        ensures
            total == self@.total,
    {
        self.total_duration
    }

    /// Reports, once per session, that the time ran out, given that `elapsed`
    /// nanoseconds have passed since the last start or resume.
    pub fn check_finished_after(&mut self, elapsed: u128) -> (fired: bool)
        ensures
            fired == old(self)@.finish_due(elapsed as int),
            final(self)@ == old(self)@.checked_after(elapsed as int),
    {
        proof {
            use_type_invariant(&*self);
        }
        if self.running && !self.paused && !self.finished {
            if self.last_tick.is_some() {
                if elapsed >= self.remaining {
                    *self = Timer {
                        total_duration: self.total_duration,
                        remaining: self.remaining,
                        running: true,
                        paused: false,
                        finished: true,
                        last_tick: self.last_tick,
                    };
                    return true;
                }
            }
        }
        false
    }

    /// Reports, once per session, that the time ran out, reading the clock.
    pub fn check_finished(&mut self) -> (fired: bool)
        ensures
            exists|elapsed: nat|
                {
                    &&& fired == #[trigger] old(self)@.finish_due(elapsed as int)
                    &&& final(self)@ == old(self)@.checked_after(elapsed as int)
                },
    {
        let ghost before = self@;
        let elapsed: u128 = match &self.last_tick {
            Some(last) => elapsed_nanos(last),
            None => 0,
        };
        let fired: bool = self.check_finished_after(elapsed);
        assert(fired == before.finish_due(elapsed as nat as int));
        fired
    }
}

/// A timer is always in exactly one of three conditions: idle, counting down,
/// or paused.
pub proof fn lemma_exactly_one_status(t: TimerView)
    requires
        t.valid(),
    ensures
        t.is_idle() || t.is_running() || t.is_paused(),
        !(t.is_idle() && t.is_running()),
        !(t.is_idle() && t.is_paused()),
        !(t.is_running() && t.is_paused()),
{
}

/// Every operation of a timer keeps it valid: starting, pausing, resuming,
/// stopping and checking for the end of the session.
pub proof fn lemma_operations_keep_valid(t: TimerView, minutes: u64, elapsed: nat)
    requires
        t.valid(),
        minutes_fit(minutes),
    ensures
        TimerView::initial().valid(),
        TimerView::started(minutes).valid(),
        t.paused_after(elapsed as int).valid(),
        t.resumed().valid(),
        t.stopped().valid(),
        t.checked_after(elapsed as int).valid(),
{
    assert(minutes * 60 * NANOS_PER_SEC <= u64::MAX as int * NANOS_PER_SEC as int) by (nonlinear_arith)
        requires
            minutes * 60 <= u64::MAX,
    ;
}

/// The time left never grows as time passes, and never exceeds what was left
/// at the last start or resume.
pub proof fn lemma_remaining_never_grows(t: TimerView, earlier: nat, later: nat)
    requires
        earlier <= later,
    ensures
        t.remaining_after(later as int) <= t.remaining_after(earlier as int),
        t.remaining_after(earlier as int) <= t.remaining,
{
}

/// A timer that is paused or idle does not count down: its time left is the
/// same whatever time has passed.
pub proof fn lemma_stopped_clock_frozen(t: TimerView, elapsed: nat)
    requires
        t.valid(),
        !t.is_running(),
    ensures
        t.remaining_after(elapsed as int) == t.remaining,
{
}

/// Pausing and then resuming gives a counting timer again, with the time left
/// at the moment of the pause and the same session.
pub proof fn lemma_pause_then_resume(t: TimerView, elapsed: nat)
    requires
        t.valid(),
        t.is_running(),
    ensures
        t.paused_after(elapsed as int).is_paused(),
        t.paused_after(elapsed as int).resumed().is_running(),
        t.paused_after(elapsed as int).resumed().remaining == t.remaining_after(elapsed as int),
        t.paused_after(elapsed as int).resumed().total == t.total,
        t.paused_after(elapsed as int).resumed().finished == t.finished,
{
}

/// Pausing a timer that is not counting, or resuming one that is not paused,
/// changes nothing.
pub proof fn lemma_pause_resume_idempotent(t: TimerView, elapsed: nat)
    requires
        t.valid(),
    ensures
        !t.is_running() ==> t.paused_after(elapsed as int) == t,
        !t.is_paused() ==> t.resumed() == t,
{
}

/// The end of a session is reported exactly when a counting, unfinished timer
/// has no time left.
pub proof fn lemma_finish_when_time_runs_out(t: TimerView, elapsed: nat)
    requires
        t.valid(),
        t.is_running(),
        !t.finished,
    ensures
        t.finish_due(elapsed as int) <==> t.remaining_after(elapsed as int) == 0,
{
}

/// The end of a session is reported at most once: after a check that reports
/// it, no later check does, until the timer is started again.
pub proof fn lemma_finish_reported_once(t: TimerView, first: nat, second: nat)
    requires
        t.finish_due(first as int),
    ensures
        !t.checked_after(first as int).finish_due(second as int),
{
}

/// Stopping leaves the timer idle with nothing left; starting leaves it
/// counting down with the whole session left.
pub proof fn lemma_stop_and_start(t: TimerView, minutes: u64)
    ensures
        t.stopped().is_idle(),
        t.stopped().remaining == 0,
        TimerView::started(minutes).is_running(),
        TimerView::started(minutes).remaining == TimerView::started(minutes).total,
        TimerView::started(minutes).total == minutes * 60 * 1_000_000_000,
{
}


/// A counting timer read `elapsed` nanoseconds after its last start or
/// resume shows what was left then, less the time spent, and never less than
/// nothing: the time shown and the time spent add up to what was left, until
/// the time is all spent.
pub proof fn lemma_time_left_plus_time_spent(t: TimerView, elapsed: nat)
    requires
        t.valid(),
        t.is_running(),
    ensures
        elapsed <= t.remaining ==> t.remaining_after(elapsed as int) + elapsed == t.remaining,
        elapsed >= t.remaining ==> t.remaining_after(elapsed as int) == 0,
{
}

/// A session of `minutes` minutes, just started, shows its whole length less
/// the time spent, and reports its end exactly when the time spent reaches
/// its length: 25 minutes into a 25-minute session the check fires, one
/// nanosecond before it does not.
pub proof fn lemma_session_ends_after_its_length(minutes: u64, elapsed: nat)
    requires
        minutes_fit(minutes),
    ensures
        TimerView::started(minutes).finish_due(elapsed as int) <==> elapsed >= minutes * 60
            * 1_000_000_000,
        elapsed <= minutes * 60 * 1_000_000_000 ==> TimerView::started(minutes).remaining_after(
            elapsed as int,
        ) == minutes * 60 * 1_000_000_000 - elapsed,
{
}

/// A pause keeps exactly the time left at the moment of the pause, and that
/// time stays put while paused. The time spent before and after a pause adds
/// up: pausing after `before` nanoseconds, then resuming and reading `after`
/// nanoseconds later, shows what a reading after `before + after` nanoseconds
/// with no pause would show.
pub proof fn lemma_pause_keeps_time_spent(t: TimerView, before: nat, while_paused: nat, after: nat)
    requires
        t.valid(),
        t.is_running(),
    ensures
        t.paused_after(before as int).remaining == t.remaining_after(before as int),
        t.paused_after(before as int).remaining_after(while_paused as int) == t.remaining_after(
            before as int,
        ),
        before <= t.remaining ==> t.paused_after(before as int).remaining + before == t.remaining,
        t.paused_after(before as int).resumed().remaining_after(after as int) == t.remaining_after(
            (before + after) as int,
        ),
{
}

/// An operation on a timer, as the laws about sequences of calls see it: a
/// start (by `start_pomodoro` or `start_break`, which act alike), a pause or
/// a check at a given time since the last start or resume, a resume, a stop.
/// Reads and status queries change nothing and are left out.
pub enum TimerOp {
    Start(u64),
    Pause(nat),
    Resume,
    Stop,
    Check(nat),
}

impl TimerView {
    /// The timer after `op`.
    pub open spec fn after_op(self, op: TimerOp) -> TimerView {
        match op {
            TimerOp::Start(minutes) => TimerView::started(minutes),
            TimerOp::Pause(elapsed) => self.paused_after(elapsed as int),
            TimerOp::Resume => self.resumed(),
            TimerOp::Stop => self.stopped(),
            TimerOp::Check(elapsed) => self.checked_after(elapsed as int),
        }
    }

    /// Whether `op` is a check that reports the end of the session.
    pub open spec fn reports_end(self, op: TimerOp) -> bool {
        match op {
            TimerOp::Check(elapsed) => self.finish_due(elapsed as int),
            _ => false,
        }
    }
}

/// The timer after the operations `ops`, in order.
pub open spec fn run_ops(t: TimerView, ops: Seq<TimerOp>) -> TimerView
    decreases ops.len(),
{
    if ops.len() == 0 {
        t
    } else {
        run_ops(t, ops.drop_last()).after_op(ops.last())
    }
}

/// Whether some check among `ops` reports the end of the session.
pub open spec fn end_reported_during(t: TimerView, ops: Seq<TimerOp>) -> bool
    decreases ops.len(),
{
    if ops.len() == 0 {
        false
    } else {
        end_reported_during(t, ops.drop_last()) || run_ops(t, ops.drop_last()).reports_end(
            ops.last(),
        )
    }
}

/// Whether `ops` holds a start.
pub open spec fn starts_among(ops: Seq<TimerOp>) -> bool {
    exists|i: int| 0 <= i < ops.len() && #[trigger] ops[i] is Start
}

/// A timer that has reported its end, or is not running, reports no end
/// until it is started again, whatever pauses, resumes, stops and checks
/// come in between.
proof fn lemma_no_report_without_start(t: TimerView, ops: Seq<TimerOp>)
    requires
        t.finished || !t.running,
        !starts_among(ops),
    ensures
        !end_reported_during(t, ops),
        run_ops(t, ops).finished || !run_ops(t, ops).running,
    decreases ops.len(),
{
    if ops.len() > 0 {
        let prefix = ops.drop_last();
        assert forall|i: int| 0 <= i < prefix.len() implies !(#[trigger] prefix[i] is Start) by {
            assert(prefix[i] == ops[i]);
        }
        lemma_no_report_without_start(t, prefix);
        assert(!(ops[ops.len() - 1] is Start));
    }
}

/// The end of a session is reported at most once: once a check has reported
/// it, no later check does until the timer is started again, whatever pauses,
/// resumes, stops and checks come in between.
pub proof fn lemma_end_reported_once(t: TimerView, elapsed: nat, ops: Seq<TimerOp>)
    requires
        t.finish_due(elapsed as int),
        !starts_among(ops),
    ensures
        !end_reported_during(t.checked_after(elapsed as int), ops),
{
    lemma_no_report_without_start(t.checked_after(elapsed as int), ops);
}

/// The timer after the checks `readings`, each given as the time since the
/// last start or resume.
pub open spec fn after_checks(t: TimerView, readings: Seq<nat>) -> TimerView
    decreases readings.len(),
{
    if readings.len() == 0 {
        t
    } else {
        after_checks(t, readings.drop_last()).checked_after(readings.last() as int)
    }
}

/// What each of the checks `readings` reports, in order.
pub open spec fn check_results(t: TimerView, readings: Seq<nat>) -> Seq<bool>
    decreases readings.len(),
{
    if readings.len() == 0 {
        Seq::empty()
    } else {
        check_results(t, readings.drop_last()).push(
            after_checks(t, readings.drop_last()).finish_due(readings.last() as int),
        )
    }
}

/// Whether one of the first `count` readings comes at or after the end of
/// the session.
pub open spec fn end_reached_before(t: TimerView, readings: Seq<nat>, count: int) -> bool {
    exists|j: int| 0 <= j < count && #[trigger] readings[j] >= t.remaining
}

proof fn lemma_after_checks(t: TimerView, readings: Seq<nat>)
    requires
        t.is_running(),
        t.ticking,
        !t.finished,
    ensures
        after_checks(t, readings) == (if end_reached_before(t, readings, readings.len() as int) {
            TimerView { finished: true, ..t }
        } else {
            t
        }),
    decreases readings.len(),
{
    if readings.len() > 0 {
        let prefix = readings.drop_last();
        lemma_after_checks(t, prefix);
        let last = readings.len() - 1;
        if end_reached_before(t, prefix, prefix.len() as int) {
            let j = choose|j: int| 0 <= j < prefix.len() && #[trigger] prefix[j] >= t.remaining;
            assert(readings[j] == prefix[j]);
        }
        if end_reached_before(t, readings, readings.len() as int) {
            let j = choose|j: int| 0 <= j < readings.len() && #[trigger] readings[j] >= t.remaining;
            if j < last {
                assert(prefix[j] == readings[j]);
            }
        }
    }
}

/// Over a series of checks on a counting session, with no pause, resume,
/// stop or start in between, a check reports the end exactly when it comes
/// at or after the end and no earlier check did: the first such check fires,
/// every check before it and after it stays silent.
pub proof fn lemma_first_check_after_end_fires(t: TimerView, readings: Seq<nat>)
    requires
        t.valid(),
        t.is_running(),
        !t.finished,
    ensures
        check_results(t, readings).len() == readings.len(),
        forall|i: int|
            0 <= i < readings.len() ==> #[trigger] check_results(t, readings)[i] == (readings[i]
                >= t.remaining && !end_reached_before(t, readings, i)),
    decreases readings.len(),
{
    if readings.len() > 0 {
        let prefix = readings.drop_last();
        let last = readings.len() - 1;
        lemma_first_check_after_end_fires(t, prefix);
        lemma_after_checks(t, prefix);
        assert forall|i: int| 0 <= i < readings.len() implies #[trigger] check_results(
            t,
            readings,
        )[i] == (readings[i] >= t.remaining && !end_reached_before(t, readings, i)) by {
            if i < last {
                assert(check_results(t, readings)[i] == check_results(t, prefix)[i]);
                assert(prefix[i] == readings[i]);
                if end_reached_before(t, readings, i) {
                    let j = choose|j: int| 0 <= j < i && #[trigger] readings[j] >= t.remaining;
                    assert(prefix[j] == readings[j]);
                }
                if end_reached_before(t, prefix, i) {
                    let j = choose|j: int| 0 <= j < i && #[trigger] prefix[j] >= t.remaining;
                    assert(prefix[j] == readings[j]);
                }
            } else {
                if end_reached_before(t, readings, i) {
                    let j = choose|j: int| 0 <= j < i && #[trigger] readings[j] >= t.remaining;
                    assert(prefix[j] == readings[j]);
                }
                if end_reached_before(t, prefix, prefix.len() as int) {
                    let j = choose|j: int| 0 <= j < prefix.len() && #[trigger] prefix[j] >= t.remaining;
                    assert(prefix[j] == readings[j]);
                }
            }
        }
    }
}

/// Whether, after `ops` from a fresh timer, the timer is counting down: the
/// last start or stop was a start, and after it either no pause or a resume
/// after the last pause.
pub open spec fn history_running(ops: Seq<TimerOp>) -> bool
    decreases ops.len(), 1int,
{
    if ops.len() == 0 {
        false
    } else {
        match ops.last() {
            TimerOp::Start(_) => true,
            TimerOp::Stop => false,
            TimerOp::Pause(_) => false,
            TimerOp::Resume => history_running(ops.drop_last()) || history_paused(ops.drop_last()),
            TimerOp::Check(_) => history_running(ops.drop_last()),
        }
    }
}

/// Whether, after `ops` from a fresh timer, the timer is paused: the last
/// start or stop was a start, and a pause came after it with no resume after
/// the last pause.
pub open spec fn history_paused(ops: Seq<TimerOp>) -> bool
    decreases ops.len(), 0int,
{
    if ops.len() == 0 {
        false
    } else {
        match ops.last() {
            TimerOp::Start(_) => false,
            TimerOp::Stop => false,
            TimerOp::Pause(_) => history_running(ops.drop_last()) || history_paused(ops.drop_last()),
            TimerOp::Resume => false,
            TimerOp::Check(_) => history_paused(ops.drop_last()),
        }
    }
}

/// Whether, after `ops` from a fresh timer, the timer is idle: it was never
/// started, or it was stopped after its last start.
pub open spec fn history_idle(ops: Seq<TimerOp>) -> bool
    decreases ops.len(),
{
    if ops.len() == 0 {
        true
    } else {
        match ops.last() {
            TimerOp::Start(_) => false,
            TimerOp::Stop => true,
            _ => history_idle(ops.drop_last()),
        }
    }
}

/// From a fresh timer, any sequence of operations leaves it idle exactly when
/// it was never started or was stopped after its last start; counting down
/// exactly when the last start was followed by no pause, or by a resume after
/// the last pause, with no stop since; and paused otherwise. Running out of
/// time and reporting the end change none of this.
pub proof fn lemma_status_from_history(ops: Seq<TimerOp>)
    ensures
        run_ops(TimerView::initial(), ops).is_running() == history_running(ops),
        run_ops(TimerView::initial(), ops).is_paused() == history_paused(ops),
        run_ops(TimerView::initial(), ops).is_idle() == history_idle(ops),
        history_idle(ops) == !(history_running(ops) || history_paused(ops)),
        run_ops(TimerView::initial(), ops).finished ==> run_ops(TimerView::initial(), ops).running,
    decreases ops.len(),
{
    if ops.len() > 0 {
        lemma_status_from_history(ops.drop_last());
    }
}

/// A start forgets the past: two timers in any states, started with the same
/// length and then given the same operations, end in the same state.
pub proof fn lemma_start_forgets_past(t1: TimerView, t2: TimerView, ops: Seq<TimerOp>)
    requires
        ops.len() > 0,
        ops[0] is Start,
    ensures
        run_ops(t1, ops) == run_ops(t2, ops),
    decreases ops.len(),
{
    if ops.len() > 1 {
        lemma_start_forgets_past(t1, t2, ops.drop_last());
    }
}

} // verus!

//! The clock behind the deadlines of the local private channel.

use vstd::prelude::*;

use std::time::Instant;

use crate::identity::TimeSpan;

verus! {

/// The nanoseconds of one second.
pub const NANOSECONDS_PER_SECOND: u128 = 1000000000;

// ---------------------------------------------------------------------------
// Spans
// ---------------------------------------------------------------------------

/// One span as whole seconds and the nanoseconds that remain, if the seconds can be counted.
pub open spec fn span_parts(span: TimeSpan) -> Option<(u64, u32)> {
    if span.nanoseconds / NANOSECONDS_PER_SECOND <= u64::MAX {
        Some(
            (
                (span.nanoseconds / NANOSECONDS_PER_SECOND) as u64,
                (span.nanoseconds % NANOSECONDS_PER_SECOND) as u32,
            ),
        )
    } else {
        None
    }
}

/// Splits one span into whole seconds and the nanoseconds that remain.
pub fn split_span(span: TimeSpan) -> (parts: Option<(u64, u32)>)
    ensures
        parts == span_parts(span),
        parts matches Some(parts) ==> parts.1 < 1_000_000_000,
{
    let seconds: u128 = span.nanoseconds / NANOSECONDS_PER_SECOND;
    let nanoseconds: u128 = span.nanoseconds % NANOSECONDS_PER_SECOND;
    if seconds > 0xffff_ffff_ffff_ffff {
        return None;
    }
    Some((seconds as u64, nanoseconds as u32))
}

/// The span of whole seconds and remaining nanoseconds.
pub open spec fn parts_span(seconds: u64, nanoseconds: u32) -> TimeSpan {
    TimeSpan { nanoseconds: (seconds * NANOSECONDS_PER_SECOND + nanoseconds) as u128 }
}

/// Joins whole seconds and remaining nanoseconds into one span.
pub fn join_span(seconds: u64, nanoseconds: u32) -> (span: TimeSpan)
    ensures
        span == parts_span(seconds, nanoseconds),
        span.nanoseconds == seconds * NANOSECONDS_PER_SECOND + nanoseconds,
{
    TimeSpan::from_nanos(seconds as u128 * NANOSECONDS_PER_SECOND + nanoseconds as u128)
}

/// Joining the parts of one span gives the span back.
pub proof fn law_span_parts_round_trip(span: TimeSpan)
    ensures
        span_parts(span) matches Some(parts) ==> parts_span(parts.0, parts.1) == span,
{
    let nanoseconds = span.nanoseconds as int;
    vstd::arithmetic::div_mod::lemma_fundamental_div_mod(nanoseconds, 1000000000);
}

// ---------------------------------------------------------------------------
// The port
// ---------------------------------------------------------------------------

/// One question to a clock: the start of a deadline some span ahead, or the current moment.
pub enum LocalClockCall {
    Start { span: TimeSpan },
    Read,
}

/// One question with its answer: the moment at which it was asked, in nanoseconds from the clock's
/// own origin, and whether the clock can count as far as the question asks.
pub struct LocalClockEvent {
    pub call: LocalClockCall,
    pub now: u128,
    pub counted: bool,
}

/// Every question to one clock, in order, with its answer.
pub type LocalClockTrace = Seq<LocalClockEvent>;

/// The deadline some span after one moment, if the clock can count that far.
pub open spec fn deadline_of(now: u128, span: TimeSpan, counted: bool) -> Option<u128> {
    if counted && now + span.nanoseconds <= u128::MAX {
        Some((now + span.nanoseconds) as u128)
    } else {
        None
    }
}

/// The positive time from one moment to a deadline that is ahead.
pub open spec fn time_before(deadline: u128, now: u128) -> Option<TimeSpan> {
    if now < deadline {
        Some(TimeSpan { nanoseconds: (deadline - now) as u128 })
    } else {
        None
    }
}

/// Returns the positive time from one moment to a deadline that is ahead.
pub fn remaining_duration(deadline: u128, now: u128) -> (left: Option<TimeSpan>)
    ensures
        left == time_before(deadline, now),
{
    if now < deadline {
        Some(TimeSpan::from_nanos(deadline - now))
    } else {
        None
    }
}

/// Measures the deadlines of one connection. A clock remembers what it was asked and answered.
pub trait NodePrivateLocalClock {
    /// Every question so far, with its answer.
    spec fn trace(&self) -> LocalClockTrace;

    /// Starts one deadline, exactly the span after the current moment.
    fn start(&mut self, span: TimeSpan) -> (deadline: Option<u128>)
        ensures
            ({
                let event = final(self).trace().last();
                &&& final(self).trace() == old(self).trace().push(event)
                &&& event.call == (LocalClockCall::Start { span })
                &&& deadline == deadline_of(event.now, span, event.counted)
            }),
    ;

    /// Returns the current moment.
    fn now(&mut self) -> (now: u128)
        ensures
            final(self).trace() == old(self).trace().push(
                LocalClockEvent { call: LocalClockCall::Read, now, counted: true },
            ),
    ;
}

/// Everything that a clock will answer at each position of its trace.
pub struct LocalClockScript {
    pub now: spec_fn(nat) -> u128,
    pub counts: spec_fn(nat) -> bool,
}

/// A clock: what it will answer, and which questions it was asked.
pub struct LocalClockWorld {
    pub script: LocalClockScript,
    pub calls: Seq<LocalClockCall>,
}

impl LocalClockWorld {
    /// The clock after one more question.
    pub open spec fn after(self, call: LocalClockCall) -> LocalClockWorld {
        LocalClockWorld { script: self.script, calls: self.calls.push(call) }
    }

    /// The moment at which the next question is answered.
    pub open spec fn moment(self) -> u128 {
        (self.script.now)(self.calls.len())
    }

    /// The clock after one deadline was started, and that deadline.
    pub open spec fn started(self, span: TimeSpan) -> (LocalClockWorld, Option<u128>) {
        (
            self.after(LocalClockCall::Start { span }),
            deadline_of(self.moment(), span, (self.script.counts)(self.calls.len())),
        )
    }
}

/// The questions of one trace.
pub open spec fn calls_of(trace: Seq<LocalClockEvent>) -> Seq<LocalClockCall> {
    Seq::new(trace.len(), |i: int| trace[i].call)
}

/// The answers of one trace, at their positions.
pub open spec fn script_of(trace: Seq<LocalClockEvent>) -> LocalClockScript {
    LocalClockScript {
        now: |at: nat| trace[at as int].now,
        counts: |at: nat| trace[at as int].counted,
    }
}

/// A clock with the given answers, after the questions of one trace.
pub open spec fn clock_world(
    script: LocalClockScript,
    trace: Seq<LocalClockEvent>,
) -> LocalClockWorld {
    LocalClockWorld { script, calls: calls_of(trace) }
}

/// The clock that gave the answers of a whole trace, after the questions of its earlier part.
pub open spec fn clock_shown(
    whole: Seq<LocalClockEvent>,
    earlier: Seq<LocalClockEvent>,
) -> LocalClockWorld {
    clock_world(script_of(whole), earlier)
}

/// The script gives the answers of one trace.
pub open spec fn answers(script: LocalClockScript, trace: Seq<LocalClockEvent>) -> bool {
    forall|i: int|
        0 <= i < trace.len() ==> (script.now)(i as nat) == (#[trigger] trace[i]).now && (
        script.counts)(i as nat) == trace[i].counted
}

/// The answers of one trace answer it.
pub(crate) proof fn lemma_script_answers(trace: Seq<LocalClockEvent>)
    ensures
        answers(script_of(trace), trace),
{
}

/// A script that answers one trace answers every earlier part of it.
pub(crate) proof fn lemma_answers_earlier(
    earlier: Seq<LocalClockEvent>,
    later: Seq<LocalClockEvent>,
)
    requires
        earlier.is_prefix_of(later),
    ensures
        forall|script: LocalClockScript| #[trigger]
            answers(script, later) ==> answers(script, earlier),
{
    assert forall|script: LocalClockScript| #[trigger] answers(script, later) implies answers(
        script,
        earlier,
    ) by {
        assert forall|i: int| 0 <= i < earlier.len() implies (script.now)(i as nat) == (
        #[trigger] earlier[i]).now && (script.counts)(i as nat) == earlier[i].counted by {
            assert(later[i] == earlier[i]);
        }
    }
}

/// One more question with its answer, as the clock's world sees it.
pub(crate) proof fn lemma_event_added(earlier: Seq<LocalClockEvent>, event: LocalClockEvent)
    ensures
        earlier.is_prefix_of(earlier.push(event)),
        calls_of(earlier.push(event)) == calls_of(earlier).push(event.call),
        forall|script: LocalClockScript| #[trigger]
            answers(script, earlier.push(event)) ==> {
                let before = clock_world(script, earlier);
                &&& answers(script, earlier)
                &&& before.moment() == event.now
                &&& (script.counts)(before.calls.len()) == event.counted
                &&& clock_world(script, earlier.push(event)) == before.after(event.call)
            },
{
    let later = earlier.push(event);
    assert(calls_of(later) =~= calls_of(earlier).push(event.call));
    lemma_answers_earlier(earlier, later);
    assert forall|script: LocalClockScript| #[trigger] answers(script, later) implies {
        let before = clock_world(script, earlier);
        &&& answers(script, earlier)
        &&& before.moment() == event.now
        &&& (script.counts)(before.calls.len()) == event.counted
        &&& clock_world(script, later) == before.after(event.call)
    } by {
        assert(later[earlier.len() as int] == event);
    }
}

/// What comes first in the first part comes first in the whole.
pub(crate) proof fn lemma_prefixes_joined(
    first: Seq<LocalClockEvent>,
    second: Seq<LocalClockEvent>,
    third: Seq<LocalClockEvent>,
)
    requires
        first.is_prefix_of(second),
        second.is_prefix_of(third),
    ensures
        first.is_prefix_of(third),
{
    assert forall|i: int| 0 <= i < first.len() implies first[i] == third[i] by {
        assert(first[i] == second[i]);
    }
}

/// The spans of the deadlines that were started, in order.
pub open spec fn spans_started(calls: Seq<LocalClockCall>) -> Seq<TimeSpan>
    decreases calls.len(),
{
    if calls.len() == 0 {
        Seq::empty()
    } else {
        match calls.last() {
            LocalClockCall::Start { span } => spans_started(calls.drop_last()).push(span),
            LocalClockCall::Read => spans_started(calls.drop_last()),
        }
    }
}

// ---------------------------------------------------------------------------
// The system's clock
// ---------------------------------------------------------------------------

/// An opaque point of the monotonic clock.
#[verifier::external_type_specification]
#[verifier::external_body]
pub struct ExInstant(Instant);

/// Calls `std::time::Instant::now`. Nothing is claimed of the reading: it depends on the clock.
#[verifier::external_body]
fn instant_now() -> (now: Instant) {
    Instant::now()
}

/// Calls `std::time::Instant::checked_add`. Nothing is claimed of the sum: it depends on the
/// reading and on how far the platform's clock can count.
#[verifier::external_body]
fn instant_after(now: Instant, seconds: u64, nanoseconds: u32) -> (later: Option<Instant>)
    requires
        nanoseconds < 1_000_000_000,
{
    now.checked_add(std::time::Duration::new(seconds, nanoseconds))
}

/// Calls `std::time::Instant::checked_duration_since`: the whole seconds and the remaining
/// nanoseconds from `now` to `later`, of which there are less than a second's, or nothing when
/// `later` is behind.
#[verifier::external_body]
fn instant_until(later: Instant, now: Instant) -> (parts: Option<(u64, u32)>)
    ensures
        parts matches Some(parts) ==> parts.1 < 1_000_000_000,
{
    later.checked_duration_since(now).map(|span| (span.as_secs(), span.subsec_nanos()))
}

/// The system's monotonic clock; its origin is the moment of its creation.
pub struct SystemLocalClock {
    origin: Instant,
    trace: Ghost<Seq<LocalClockEvent>>,
}

impl SystemLocalClock {
    /// Starts counting now.
    pub fn new() -> (clock: SystemLocalClock)
        ensures
            clock.trace() == Seq::<LocalClockEvent>::empty(),
    {
        SystemLocalClock { origin: instant_now(), trace: Ghost(Seq::empty()) }
    }
}

impl NodePrivateLocalClock for SystemLocalClock {
    closed spec fn trace(&self) -> LocalClockTrace {
        self.trace@
    }

    /// Starts one deadline, if the platform's clock can count that far.
    fn start(&mut self, span: TimeSpan) -> (deadline: Option<u128>) {
        let instant = instant_now();
        let now: u128 = match instant_until(instant, self.origin) {
            Some((seconds, nanoseconds)) => join_span(seconds, nanoseconds).nanoseconds,
            None => 0,
        };
        let counted = match split_span(span) {
            Some((seconds, nanoseconds)) => instant_after(instant, seconds, nanoseconds).is_some(),
            None => false,
        };
        self.trace = Ghost(
            self.trace@.push(
                LocalClockEvent { call: LocalClockCall::Start { span }, now, counted },
            ),
        );
        if counted && span.nanoseconds <= u128::MAX - now {
            Some(now + span.nanoseconds)
        } else {
            None
        }
    }

    /// Reads the platform's clock.
    fn now(&mut self) -> (now: u128) {
        let now: u128 = match instant_until(instant_now(), self.origin) {
            Some((seconds, nanoseconds)) => join_span(seconds, nanoseconds).nanoseconds,
            None => 0,
        };
        self.trace = Ghost(
            self.trace@.push(LocalClockEvent { call: LocalClockCall::Read, now, counted: true }),
        );
        now
    }
}

/// A clock that stands still. A frame without a deadline never asks it.
pub(crate) struct StoppedClock {
    trace: Ghost<Seq<LocalClockEvent>>,
}

impl StoppedClock {
    pub(crate) fn new() -> (clock: StoppedClock)
        ensures
            clock.trace() == Seq::<LocalClockEvent>::empty(),
    {
        StoppedClock { trace: Ghost(Seq::empty()) }
    }
}

impl NodePrivateLocalClock for StoppedClock {
    closed spec fn trace(&self) -> LocalClockTrace {
        self.trace@
    }

    fn start(&mut self, span: TimeSpan) -> (deadline: Option<u128>) {
        self.trace = Ghost(
            self.trace@.push(
                LocalClockEvent { call: LocalClockCall::Start { span }, now: 0, counted: false },
            ),
        );
        None
    }

    fn now(&mut self) -> (now: u128) {
        self.trace = Ghost(
            self.trace@.push(
                LocalClockEvent { call: LocalClockCall::Read, now: 0, counted: true },
            ),
        );
        0
    }
}

} // verus!

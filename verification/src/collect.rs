//! Completion collection: consume one signal per dispatched request from the
//! completion channel and detect stalls.
//!
//! The collector repeatedly waits, up to a fixed timeout, for the next
//! signal. The timeout is a liveness probe re-armed after every received
//! signal: a signal arriving within it means progress, a full quiet period
//! means the system has wedged. What the collector decides depends only on
//! the sequence of things it observed — a signal, a timed-out wait, or the
//! channel closing — so that sequence is the input here; the waiting itself
//! is the caller's.

use vstd::prelude::*;
use crate::report::{spec_classify, RunClassification};
use crate::signal::{CompletionSignal, ErrorCause};

verus! {

/// How long, in milliseconds, the collector waits for each next signal
/// before declaring the run wedged. A liveness heuristic — much longer than
/// the expected per-exchange latency — not a correctness guarantee.
pub const RECEIVE_TIMEOUT_MS: u64 = 500;

/// One observation made by the collector's receive loop: a completion signal
/// arrived, a wait for the next signal timed out, or the channel closed
/// because every sender was dropped.
#[derive(Clone, Copy, Debug, PartialEq, Eq, Structural)]
pub enum CollectorEvent {
    Arrived(CompletionSignal),
    TimedOut,
    ChannelClosed,
}

/// How collection ended: the loop drained what it could (stopped by a
/// timeout, the channel closing, or the observations running out), or it
/// failed fast on the first error signal. Either way `collected` is the
/// number of success signals consumed before the stop.
#[derive(Clone, Copy, Debug, PartialEq, Eq, Structural)]
pub enum CollectResult {
    Drained { collected: usize },
    Failed { cause: ErrorCause, collected: usize },
}

impl CollectResult {
    pub open spec fn collected_count(self) -> nat {
        match self {
            CollectResult::Drained { collected } => collected as nat,
            CollectResult::Failed { collected, .. } => collected as nat,
        }
    }

    pub open spec fn fault(self) -> Option<ErrorCause> {
        match self {
            CollectResult::Drained { .. } => None,
            CollectResult::Failed { cause, .. } => Some(cause),
        }
    }
}

/// Number of success signals the collector consumes from `events`: the count
/// of successes before the first observation that stops the loop (an error
/// signal, a timeout, or the channel closing).
pub open spec fn spec_collected(events: Seq<CollectorEvent>) -> nat
    decreases events.len(),
{
    if events.len() == 0 {
        0
    } else if events[0] == CollectorEvent::Arrived(CompletionSignal::Success) {
        1 + spec_collected(events.skip(1))
    } else {
        0
    }
}

/// The error the collector propagates, if collection stops on an error
/// signal rather than on a timeout or a closed channel: the cause carried by
/// the first non-success signal observed, provided only successes precede it.
pub open spec fn spec_fault(events: Seq<CollectorEvent>) -> Option<ErrorCause>
    decreases events.len(),
{
    if events.len() == 0 {
        None
    } else {
        match events[0] {
            CollectorEvent::Arrived(CompletionSignal::Success) => spec_fault(events.skip(1)),
            CollectorEvent::Arrived(CompletionSignal::Failure(cause)) => Some(cause),
            CollectorEvent::TimedOut => None,
            CollectorEvent::ChannelClosed => None,
        }
    }
}

/// Run the collection loop over the observations, in order: count each
/// success signal; stop with the cause on the first error signal (fail
/// fast); stop and report the count so far on a timed-out wait or a closed
/// channel.
pub fn collect(events: &Vec<CollectorEvent>) -> (r: CollectResult)
    ensures
        r.collected_count() == spec_collected(events@),
        r.fault() == spec_fault(events@),
{
    let n = events.len();
    let mut i: usize = 0;
    proof {
        assert(events@.skip(0) =~= events@);
    }
    while i < n
        invariant
            n == events@.len(),
            i <= n,
            i as nat == spec_collected(events@) - spec_collected(events@.skip(i as int)),
            spec_collected(events@.skip(i as int)) + i == spec_collected(events@),
            spec_fault(events@) == spec_fault(events@.skip(i as int)),
        decreases n - i,
    {
        let ev = events[i];
        proof {
            assert(events@.skip(i as int)[0] == events@[i as int]);
            assert(events@.skip(i as int).skip(1) =~= events@.skip(i as int + 1));
        }
        match ev {
            CollectorEvent::Arrived(CompletionSignal::Success) => {
                i = i + 1;
            },
            CollectorEvent::Arrived(CompletionSignal::Failure(cause)) => {
                return CollectResult::Failed { cause, collected: i };
            },
            CollectorEvent::TimedOut => {
                return CollectResult::Drained { collected: i };
            },
            CollectorEvent::ChannelClosed => {
                return CollectResult::Drained { collected: i };
            },
        }
    }
    proof {
        assert(events@.skip(n as int) =~= Seq::<CollectorEvent>::empty());
    }
    CollectResult::Drained { collected: i }
}

/// The observations a collector makes when every completion signal arrives
/// and the channel then closes because all senders were dropped.
pub open spec fn events_of(signals: Seq<CompletionSignal>) -> Seq<CollectorEvent> {
    signals.map_values(|s: CompletionSignal| CollectorEvent::Arrived(s)).push(
        CollectorEvent::ChannelClosed,
    )
}

/// Wrap each signal as an arrival and end with the channel closing.
pub fn events_of_signals(signals: &Vec<CompletionSignal>) -> (events: Vec<CollectorEvent>)
    ensures
        events@ == events_of(signals@),
{
    let mut events: Vec<CollectorEvent> = Vec::new();
    let mut i: usize = 0;
    proof {
        assert(signals@.subrange(0, 0).map_values(|s: CompletionSignal| CollectorEvent::Arrived(s))
            =~= Seq::<CollectorEvent>::empty());
    }
    while i < signals.len()
        invariant
            i <= signals@.len(),
            events@ == signals@.subrange(0, i as int).map_values(
                |s: CompletionSignal| CollectorEvent::Arrived(s),
            ),
        decreases signals@.len() - i,
    {
        events.push(CollectorEvent::Arrived(signals[i]));
        proof {
            assert(signals@.subrange(0, i as int + 1).map_values(
                |s: CompletionSignal| CollectorEvent::Arrived(s),
            ) =~= signals@.subrange(0, i as int).map_values(
                |s: CompletionSignal| CollectorEvent::Arrived(s),
            ).push(CollectorEvent::Arrived(signals@[i as int])));
        }
        i = i + 1;
    }
    proof {
        assert(signals@.subrange(0, signals@.len() as int) =~= signals@);
    }
    events.push(CollectorEvent::ChannelClosed);
    events
}

/// Stall-detection law: a collector whose first observation is a timed-out
/// wait — a channel that has delivered nothing and has not closed — stops
/// with zero collected and no propagated error, and the run is classified
/// stuck for every positive expected count.
pub proof fn lemma_stall_reports_stuck(events: Seq<CollectorEvent>, expected: nat)
    requires
        events.len() > 0,
        events[0] == CollectorEvent::TimedOut,
        expected > 0,
    ensures
        spec_collected(events) == 0,
        spec_fault(events) is None,
        spec_classify(expected, spec_collected(events)) == RunClassification::Stuck,
{
}

} // verus!

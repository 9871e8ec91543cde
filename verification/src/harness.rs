//! The full run: dispatch every request under the concurrency cap, feed the
//! completion signals through the collector, and classify the outcome.
//!
//! Per-exchange errors are isolated — one failed exchange never aborts its
//! siblings' dispatch — but the collector fails fast on the first error
//! signal it receives, so a run either completes, gets stuck, or surfaces the
//! first observed fault.

use vstd::prelude::*;
use crate::collect::{collect, events_of, events_of_signals, spec_collected, spec_fault,
    CollectResult, CollectorEvent};
use crate::dispatch::{dispatch_run, flight_bounded, settled_entries, settled_signals,
    signals_of_trace, Discipline, DispatchEvent};
use crate::report::{classify_run, spec_classify, RunClassification, RunReport};
use crate::signal::{CompletionSignal, ErrorCause};

verus! {

/// Successes collected before the first failed signal stops the run; every
/// signal, when none fails.
pub open spec fn leading_successes(sigs: Seq<CompletionSignal>) -> nat
    decreases sigs.len(),
{
    if sigs.len() == 0 {
        0
    } else if sigs[0].is_success() {
        1 + leading_successes(sigs.skip(1))
    } else {
        0
    }
}

/// The cause carried by the first failed signal, if any signal fails.
pub open spec fn first_failure(sigs: Seq<CompletionSignal>) -> Option<ErrorCause>
    decreases sigs.len(),
{
    if sigs.len() == 0 {
        None
    } else {
        match sigs[0] {
            CompletionSignal::Success => first_failure(sigs.skip(1)),
            CompletionSignal::Failure(cause) => Some(cause),
        }
    }
}

/// What the collector makes of a full signal sequence followed by the channel
/// closing: it counts the leading successes and propagates the first failure.
proof fn lemma_collect_of_signal_events(sigs: Seq<CompletionSignal>)
    ensures
        spec_collected(events_of(sigs)) == leading_successes(sigs),
        spec_fault(events_of(sigs)) == first_failure(sigs),
    decreases sigs.len(),
{
    let e = events_of(sigs);
    if sigs.len() == 0 {
        assert(e =~= seq![CollectorEvent::ChannelClosed]);
    } else {
        assert(e[0] == CollectorEvent::Arrived(sigs[0]));
        assert(e.skip(1) =~= events_of(sigs.skip(1)));
        lemma_collect_of_signal_events(sigs.skip(1));
    }
}

/// The collector never counts more than the signals it was offered.
proof fn lemma_leading_le_len(sigs: Seq<CompletionSignal>)
    ensures
        leading_successes(sigs) <= sigs.len(),
    decreases sigs.len(),
{
    if sigs.len() > 0 && sigs[0].is_success() {
        lemma_leading_le_len(sigs.skip(1));
    }
}

/// When no signal fails, the collector consumes every signal.
proof fn lemma_no_failure_collects_all(sigs: Seq<CompletionSignal>)
    requires
        first_failure(sigs) is None,
    ensures
        leading_successes(sigs) == sigs.len(),
    decreases sigs.len(),
{
    if sigs.len() > 0 {
        assert(sigs[0].is_success());
        lemma_no_failure_collects_all(sigs.skip(1));
    }
}

/// A fault that aborted collection: the first error signal observed, with the
/// number of successes collected before it.
#[derive(Clone, Copy, Debug, PartialEq, Eq, Structural)]
pub struct RunFault {
    pub cause: ErrorCause,
    pub collected: usize,
}

/// Drive one full run: dispatch every request under the discipline's cap,
/// settle each exchange with its outcome, collect the completion signals, and
/// classify. Returns the dispatch trace — whose in-flight count never exceeds
/// the cap — together with the result: the run report when every signal was a
/// success, or the first observed fault.
pub fn run_harness(
    outcomes: &Vec<CompletionSignal>,
    discipline: Discipline,
    stream_limit: usize,
) -> (r: (Vec<DispatchEvent>, Result<RunReport, RunFault>))
    requires
        discipline.wf(),
        stream_limit >= 1,
    ensures
        flight_bounded(r.0@, discipline.spec_cap(stream_limit) as int),
        settled_signals(r.0@) == outcomes@,
        match r.1 {
            Ok(report) => {
                &&& first_failure(outcomes@) is None
                &&& report.wf()
                &&& report.expected == outcomes@.len()
                &&& report.completed == outcomes@.len()
                &&& report.classification == RunClassification::Complete
            },
            Err(fault) => {
                &&& first_failure(outcomes@) == Some(fault.cause)
                &&& fault.collected as nat == leading_successes(outcomes@)
            },
        },
{
    let n = outcomes.len();
    let trace = dispatch_run(outcomes, discipline, stream_limit);
    let sigs = signals_of_trace(&trace);
    proof {
        assert(settled_entries(trace@).map_values(|p: (usize, CompletionSignal)| p.1)
            =~= outcomes@);
        lemma_collect_of_signal_events(outcomes@);
        lemma_leading_le_len(outcomes@);
    }
    let events = events_of_signals(&sigs);
    let res = collect(&events);
    match res {
        CollectResult::Drained { collected } => {
            proof {
                lemma_no_failure_collects_all(outcomes@);
            }
            let report = classify_run(n, collected);
            (trace, Ok(report))
        },
        CollectResult::Failed { cause, collected } => {
            (trace, Err(RunFault { cause, collected }))
        },
    }
}

/// Completion law: when every exchange succeeds, nothing fails fast and the
/// collector counts every signal, so a run over any number of requests —
/// under any discipline and budget — is classified complete at exactly the
/// expected count.
pub proof fn lemma_all_success_run_completes(sigs: Seq<CompletionSignal>)
    requires
        forall|i: int| 0 <= i < sigs.len() ==> (#[trigger] sigs[i]).is_success(),
    ensures
        first_failure(sigs) is None,
        leading_successes(sigs) == sigs.len(),
        spec_classify(sigs.len(), leading_successes(sigs)) == RunClassification::Complete,
    decreases sigs.len(),
{
    if sigs.len() > 0 {
        assert(sigs[0].is_success());
        assert forall|i: int| 0 <= i < sigs.skip(1).len() implies (#[trigger] sigs.skip(
            1,
        )[i]).is_success() by {
            assert(sigs.skip(1)[i] == sigs[i + 1]);
        }
        lemma_all_success_run_completes(sigs.skip(1));
    }
}

/// Abort law: when every exchange's stream is aborted (and at least one
/// exchange was dispatched), collection fails fast on the very first signal
/// with a stream-abort cause and zero collected — the run is never reported
/// as full completion.
pub proof fn lemma_all_aborted_run_faults(sigs: Seq<CompletionSignal>)
    requires
        sigs.len() >= 1,
        forall|i: int|
            0 <= i < sigs.len() ==> #[trigger] sigs[i] == CompletionSignal::Failure(
                ErrorCause::StreamAborted,
            ),
    ensures
        first_failure(sigs) == Some(ErrorCause::StreamAborted),
        leading_successes(sigs) == 0,
{
    assert(sigs[0] == CompletionSignal::Failure(ErrorCause::StreamAborted));
}

} // verus!

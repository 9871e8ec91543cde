use mux_harness::collect::{collect, events_of_signals, CollectResult, CollectorEvent};
use mux_harness::dispatch::{dispatch_run, signals_of_trace, Discipline, DispatchEvent, PermitPool};
use mux_harness::harness::run_harness;
use mux_harness::report::{classify_run, mode_label, ProtocolMode, RunClassification};
use mux_harness::signal::{signal_of_termination, CompletionSignal, ErrorCause, Termination};

fn successes(n: usize) -> Vec<CompletionSignal> {
    (0..n).map(|_| CompletionSignal::Success).collect()
}

fn max_in_flight(trace: &[DispatchEvent]) -> i64 {
    let mut cur: i64 = 0;
    let mut max: i64 = 0;
    for ev in trace {
        match ev {
            DispatchEvent::Launched { .. } => cur += 1,
            DispatchEvent::Settled { .. } => cur -= 1,
        }
        assert!(cur >= 0);
        if cur > max {
            max = cur;
        }
    }
    max
}

#[test]
fn all_success_run_is_complete() {
    for n in [0usize, 1, 5, 30] {
        for budget in [1usize, 3, 100] {
            let outcomes = successes(n);
            let (trace, result) =
                run_harness(&outcomes, Discipline::BoundedWindow { budget }, 100);
            let report = result.expect("an all-success run must not fault");
            assert_eq!(report.expected, n);
            assert_eq!(report.completed, n);
            assert_eq!(report.classification, RunClassification::Complete);
            assert!(max_in_flight(&trace) <= budget.min(100) as i64);
        }
    }
}

#[test]
fn in_flight_never_exceeds_the_smaller_limit() {
    let outcomes = successes(50);
    // Budget below the stream limit: the budget is the cap.
    let (trace, _) = run_harness(&outcomes, Discipline::BoundedWindow { budget: 4 }, 100);
    assert_eq!(max_in_flight(&trace), 4);
    // Stream limit below the budget: the limit is the cap.
    let (trace, _) = run_harness(&outcomes, Discipline::BoundedWindow { budget: 100 }, 7);
    assert_eq!(max_in_flight(&trace), 7);
    // Unconstrained launch: the transport's stream limit alone caps the run.
    let (trace, _) = run_harness(&outcomes, Discipline::UnboundedLaunch, 20);
    assert_eq!(max_in_flight(&trace), 20);
}

#[test]
fn all_aborted_run_is_never_reported_complete() {
    let outcomes: Vec<CompletionSignal> = (0..8)
        .map(|_| CompletionSignal::Failure(ErrorCause::StreamAborted))
        .collect();
    let (_trace, result) = run_harness(&outcomes, Discipline::BoundedWindow { budget: 3 }, 10);
    let fault = result.expect_err("an all-aborted run must fault");
    assert_eq!(fault.cause, ErrorCause::StreamAborted);
    assert_eq!(fault.collected, 0);
}

#[test]
fn first_transport_error_faults_the_run() {
    let mut outcomes = successes(4);
    outcomes[2] = CompletionSignal::Failure(ErrorCause::Transport);
    let (_trace, result) = run_harness(&outcomes, Discipline::BoundedWindow { budget: 2 }, 10);
    let fault = result.expect_err("a failed exchange must fault the run");
    assert_eq!(fault.cause, ErrorCause::Transport);
    assert_eq!(fault.collected, 2);
}

#[test]
fn completed_thirty_of_thirty_unbounded() {
    // Thirty requests, a window of twenty, launch relying on the transport's
    // own stream limit: every exchange succeeds and the summary is 30 / 30.
    let outcomes = successes(30);
    let (trace, result) = run_harness(&outcomes, Discipline::UnboundedLaunch, 20);
    let report = result.unwrap();
    assert_eq!(report.completed, 30);
    assert_eq!(report.expected, 30);
    assert_eq!(report.classification, RunClassification::Complete);
    assert!(max_in_flight(&trace) <= 20);
    assert_eq!(mode_label(ProtocolMode::MultiplexedOnly), "H2");
    assert_eq!(mode_label(ProtocolMode::AllowFallback), "H1");
}

#[test]
fn collector_stalls_at_zero_on_a_silent_channel() {
    // A channel that never closes and never delivers: the only observation is
    // a timed-out wait, and the collector stops at zero collected.
    let events = vec![CollectorEvent::TimedOut];
    match collect(&events) {
        CollectResult::Drained { collected } => {
            assert_eq!(collected, 0);
            let report = classify_run(5, collected);
            assert_eq!(report.classification, RunClassification::Stuck);
            assert_eq!(report.deficit(), 5);
        }
        CollectResult::Failed { .. } => panic!("a timeout is not a fault"),
    }
}

#[test]
fn collector_stops_counting_at_the_stall() {
    // Two signals arrive, then a full quiet period: stuck at 2.
    let sigs = successes(2);
    let mut events: Vec<CollectorEvent> = sigs
        .iter()
        .map(|s| CollectorEvent::Arrived(*s))
        .collect();
    events.push(CollectorEvent::TimedOut);
    match collect(&events) {
        CollectResult::Drained { collected } => {
            assert_eq!(collected, 2);
            let report = classify_run(6, collected);
            assert_eq!(report.classification, RunClassification::Stuck);
            assert_eq!(report.deficit(), 4);
        }
        CollectResult::Failed { .. } => panic!("a stall is not a fault"),
    }
}

#[test]
fn early_channel_close_is_a_stall() {
    // All senders dropped after one signal, three expected: stuck at 1.
    let events = vec![
        CollectorEvent::Arrived(CompletionSignal::Success),
        CollectorEvent::ChannelClosed,
    ];
    match collect(&events) {
        CollectResult::Drained { collected } => {
            assert_eq!(collected, 1);
            let report = classify_run(3, collected);
            assert_eq!(report.classification, RunClassification::Stuck);
        }
        CollectResult::Failed { .. } => panic!("a closed channel is not a fault"),
    }
}

#[test]
fn collector_fails_fast_on_the_first_error() {
    let events = vec![
        CollectorEvent::Arrived(CompletionSignal::Success),
        CollectorEvent::Arrived(CompletionSignal::Failure(ErrorCause::Transport)),
        CollectorEvent::Arrived(CompletionSignal::Success),
    ];
    match collect(&events) {
        CollectResult::Failed { cause, collected } => {
            assert_eq!(cause, ErrorCause::Transport);
            assert_eq!(collected, 1);
        }
        CollectResult::Drained { .. } => panic!("the error must propagate"),
    }
}

#[test]
fn events_wrap_signals_and_close() {
    let sigs = vec![
        CompletionSignal::Success,
        CompletionSignal::Failure(ErrorCause::StreamAborted),
    ];
    let events = events_of_signals(&sigs);
    assert_eq!(
        events,
        vec![
            CollectorEvent::Arrived(CompletionSignal::Success),
            CollectorEvent::Arrived(CompletionSignal::Failure(ErrorCause::StreamAborted)),
            CollectorEvent::ChannelClosed,
        ]
    );
}

#[test]
fn dispatch_trace_settles_every_exchange_in_order() {
    let mut outcomes = successes(5);
    outcomes[3] = CompletionSignal::Failure(ErrorCause::Transport);
    let trace = dispatch_run(&outcomes, Discipline::BoundedWindow { budget: 2 }, 10);
    let launched: Vec<usize> = trace
        .iter()
        .filter_map(|e| match e {
            DispatchEvent::Launched { index } => Some(*index),
            _ => None,
        })
        .collect();
    let settled: Vec<usize> = trace
        .iter()
        .filter_map(|e| match e {
            DispatchEvent::Settled { index, .. } => Some(*index),
            _ => None,
        })
        .collect();
    assert_eq!(launched, vec![0, 1, 2, 3, 4]);
    assert_eq!(settled, vec![0, 1, 2, 3, 4]);
    let sigs = signals_of_trace(&trace);
    assert_eq!(sigs, outcomes);
}

#[test]
fn permit_pool_caps_held_permits() {
    let mut pool = PermitPool::new(2);
    assert!(pool.try_acquire());
    assert!(pool.try_acquire());
    assert!(!pool.try_acquire());
    pool.release();
    assert!(pool.try_acquire());
    assert!(!pool.try_acquire());
}

#[test]
fn termination_maps_to_the_client_signal() {
    assert_eq!(
        signal_of_termination(Termination::NormalClose),
        CompletionSignal::Success
    );
    assert_eq!(
        signal_of_termination(Termination::Abort),
        CompletionSignal::Failure(ErrorCause::StreamAborted)
    );
}

#[test]
fn classify_matches_counts() {
    let complete = classify_run(4, 4);
    assert_eq!(complete.classification, RunClassification::Complete);
    assert_eq!(complete.deficit(), 0);
    let stuck = classify_run(6000, 17);
    assert_eq!(stuck.classification, RunClassification::Stuck);
    assert_eq!(stuck.deficit(), 5983);
    let empty = classify_run(0, 0);
    assert_eq!(empty.classification, RunClassification::Complete);
}

use mux_harness::frames::{
    drain_frames, frame_round_trip, split_frames, zero_payload, DEFAULT_PAYLOAD_LEN, FRAME_MAX,
};
use mux_harness::producer::{
    fixed_body, gated_run, lifecycle_of_plan, plan_response, serve_sequence, ExchangePhase,
    SharedCounter, Strategy, ABORT_CHUNK_COUNT, FILLER_CHUNK_LEN, RESPONSE_DELAY_MS,
};
use mux_harness::signal::{CompletionSignal, ErrorCause, Termination};

#[test]
fn counter_gated_first_k_abort_then_succeed() {
    // Threshold two, two past it: the first two exchanges fail with a stream
    // abort, every later one succeeds.
    let k = 2u64;
    let sigs = gated_run(k, 4);
    assert_eq!(
        sigs,
        vec![
            CompletionSignal::Failure(ErrorCause::StreamAborted),
            CompletionSignal::Failure(ErrorCause::StreamAborted),
            CompletionSignal::Success,
            CompletionSignal::Success,
        ]
    );
}

#[test]
fn counter_gated_three_requests_threshold_two() {
    // Three requests through the gated strategy with threshold two: the first
    // two exchanges report the abort error, the third reports success.
    let sigs = gated_run(2, 3);
    assert_eq!(sigs[0], CompletionSignal::Failure(ErrorCause::StreamAborted));
    assert_eq!(sigs[1], CompletionSignal::Failure(ErrorCause::StreamAborted));
    assert_eq!(sigs[2], CompletionSignal::Success);
}

#[test]
fn gated_plans_switch_at_the_threshold() {
    let plans = serve_sequence(Strategy::CounterGated { threshold: 3 }, 5);
    for (i, plan) in plans.iter().enumerate() {
        if (i as u64) < 3 {
            assert_eq!(plan.termination, Termination::Abort);
            assert_eq!(plan.delay_ms, 0);
            assert_eq!(plan.chunks.len(), ABORT_CHUNK_COUNT);
            for c in &plan.chunks {
                assert_eq!(c.len(), FILLER_CHUNK_LEN);
            }
        } else {
            assert_eq!(plan.termination, Termination::NormalClose);
            assert_eq!(plan.delay_ms, RESPONSE_DELAY_MS);
            assert_eq!(plan.chunks, vec![b"hi there".to_vec()]);
        }
    }
}

#[test]
fn immediate_strategy_returns_the_fixed_body_at_once() {
    let plan = plan_response(Strategy::ImmediateFixed, 0);
    assert_eq!(plan.delay_ms, 0);
    assert!(!plan.delay_in_stream);
    assert_eq!(plan.chunks, vec![b"hi there".to_vec()]);
    assert_eq!(plan.termination, Termination::NormalClose);
}

#[test]
fn delayed_stream_strategy_delays_inside_the_stream() {
    let plan = plan_response(Strategy::DelayedStream, 9);
    assert_eq!(plan.delay_ms, RESPONSE_DELAY_MS);
    assert!(plan.delay_in_stream);
    assert_eq!(plan.termination, Termination::NormalClose);
}

#[test]
fn self_delayed_strategy_delays_in_the_handler() {
    let plan = plan_response(Strategy::SelfDelayed, 9);
    assert_eq!(plan.delay_ms, RESPONSE_DELAY_MS);
    assert!(!plan.delay_in_stream);
    assert_eq!(plan.chunks, vec![b"hi there".to_vec()]);
    assert_eq!(plan.termination, Termination::NormalClose);
}

#[test]
fn counter_observes_each_value_once() {
    let mut counter = SharedCounter::new();
    assert_eq!(counter.observe_and_increment(), 0);
    assert_eq!(counter.observe_and_increment(), 1);
    assert_eq!(counter.observe_and_increment(), 2);
}

#[test]
fn fixed_body_is_hi_there() {
    assert_eq!(fixed_body(), b"hi there".to_vec());
}

#[test]
fn aborted_lifecycle_ends_aborted_after_its_chunks() {
    let plan = plan_response(Strategy::CounterGated { threshold: 5 }, 1);
    let phases = lifecycle_of_plan(&plan);
    assert_eq!(phases[0], ExchangePhase::Accepted);
    assert_eq!(phases[1], ExchangePhase::BodyDraining);
    assert_eq!(phases[2], ExchangePhase::ResponseStreaming { chunks_sent: 0 });
    assert_eq!(
        phases[phases.len() - 2],
        ExchangePhase::ResponseStreaming { chunks_sent: ABORT_CHUNK_COUNT }
    );
    assert_eq!(*phases.last().unwrap(), ExchangePhase::Aborted);
}

#[test]
fn clean_lifecycle_ends_closed() {
    let plan = plan_response(Strategy::ImmediateFixed, 0);
    let phases = lifecycle_of_plan(&plan);
    assert_eq!(
        phases,
        vec![
            ExchangePhase::Accepted,
            ExchangePhase::BodyDraining,
            ExchangePhase::ResponseStreaming { chunks_sent: 0 },
            ExchangePhase::ResponseStreaming { chunks_sent: 1 },
            ExchangePhase::Closed,
        ]
    );
}

#[test]
fn round_trip_spans_the_frame_boundary() {
    // Below, at, and above one protocol frame.
    for len in [0usize, FRAME_MAX, FRAME_MAX + 1] {
        let body = zero_payload(len);
        assert_eq!(body.len(), len);
        let out = frame_round_trip(&body, FRAME_MAX);
        assert_eq!(out, body);
    }
    assert_eq!(DEFAULT_PAYLOAD_LEN, FRAME_MAX + 1);
}

#[test]
fn round_trip_preserves_arbitrary_bytes() {
    let body: Vec<u8> = (0..100_000u32).map(|i| (i % 251) as u8).collect();
    let out = frame_round_trip(&body, FRAME_MAX);
    assert_eq!(out, body);
    let out_small_frames = frame_round_trip(&body, 7);
    assert_eq!(out_small_frames, body);
}

#[test]
fn split_respects_the_frame_size() {
    let body = zero_payload(FRAME_MAX + 1);
    let frames = split_frames(&body, FRAME_MAX);
    assert_eq!(frames.len(), 2);
    assert_eq!(frames[0].len(), FRAME_MAX);
    assert_eq!(frames[1].len(), 1);
    assert_eq!(drain_frames(&frames), body);

    let empty = zero_payload(0);
    let frames = split_frames(&empty, FRAME_MAX);
    assert!(frames.is_empty());
    assert_eq!(drain_frames(&frames), empty);
}

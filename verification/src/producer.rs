//! Server-side response strategies: given an inbound exchange whose request
//! body has been drained, decide what to stream back — a fixed body at once,
//! a delayed stream, a counter-gated deliberate abort, or a self-delayed
//! single chunk.
//!
//! A strategy's decision is a response plan: how long to wait, which chunks
//! to send, and whether the stream ends with a clean close or a deliberate
//! mid-stream abort. The transport executes the plan; the decision itself is
//! verified here.

use vstd::prelude::*;
use crate::signal::{CompletionSignal, Termination};

verus! {

/// Fixed delay, in milliseconds, used by the strategies that pace their
/// response. A heuristic, not a correctness guarantee.
pub const RESPONSE_DELAY_MS: u64 = 50;

/// Length of each filler chunk streamed before a deliberate abort.
pub const FILLER_CHUNK_LEN: usize = 1024;

/// How many filler chunks are streamed before a deliberate abort.
pub const ABORT_CHUNK_COUNT: usize = 3;

/// The small fixed response body.
pub open spec fn spec_fixed_body() -> Seq<u8> {
    seq![104u8, 105u8, 32u8, 116u8, 104u8, 101u8, 114u8, 101u8]
}

/// The small fixed response body, as bytes ("hi there").
pub fn fixed_body() -> (v: Vec<u8>)
    ensures
        v@ == spec_fixed_body(),
{
    let mut v: Vec<u8> = Vec::new();
    v.push(104u8);
    v.push(105u8);
    v.push(32u8);
    v.push(116u8);
    v.push(104u8);
    v.push(101u8);
    v.push(114u8);
    v.push(101u8);
    proof {
        assert(v@ =~= spec_fixed_body());
    }
    v
}

/// One filler chunk: `FILLER_CHUNK_LEN` zero bytes.
pub open spec fn spec_filler_chunk() -> Seq<u8> {
    Seq::new(FILLER_CHUNK_LEN as nat, |i: int| 0u8)
}

fn filler_chunk() -> (v: Vec<u8>)
    ensures
        v@ == spec_filler_chunk(),
{
    let mut v: Vec<u8> = Vec::new();
    let mut i: usize = 0;
    while i < FILLER_CHUNK_LEN
        invariant
            i <= FILLER_CHUNK_LEN,
            v@ =~= Seq::new(i as nat, |k: int| 0u8),
        decreases FILLER_CHUNK_LEN - i,
    {
        v.push(0u8);
        i = i + 1;
    }
    proof {
        assert(v@ =~= spec_filler_chunk());
    }
    v
}

/// The interchangeable response strategies, selected by configuration.
#[derive(Clone, Copy, Debug, PartialEq, Eq, Structural)]
pub enum Strategy {
    /// Drain the request, return the small fixed body at once.
    ImmediateFixed,
    /// Drain the request, then stream the body from the response task after a
    /// fixed delay, sending data and then closing explicitly.
    DelayedStream,
    /// Consult the shared counter: below the threshold, stream a few chunks
    /// without delay and abort mid-stream; at or above it, stream a complete
    /// body after a delay.
    CounterGated { threshold: u64 },
    /// Drain the request, wait the fixed delay in the handler itself, then
    /// stream one complete chunk and close normally.
    SelfDelayed,
}

/// What a strategy decides for one exchange: the delay before data flows,
/// whether that delay is taken inside the detached streaming task (rather
/// than in the handler before responding), the chunks to send, and how the
/// stream ends.
pub struct ResponsePlan {
    pub delay_ms: u64,
    pub delay_in_stream: bool,
    pub chunks: Vec<Vec<u8>>,
    pub termination: Termination,
}

/// The delay a strategy takes before streaming, for the exchange that
/// observed the given pre-increment counter value.
pub open spec fn plan_delay(strategy: Strategy, observed: u64) -> u64 {
    match strategy {
        Strategy::ImmediateFixed => 0,
        Strategy::DelayedStream => RESPONSE_DELAY_MS,
        Strategy::CounterGated { threshold } => if observed < threshold {
            0
        } else {
            RESPONSE_DELAY_MS
        },
        Strategy::SelfDelayed => RESPONSE_DELAY_MS,
    }
}

/// How a strategy terminates the response stream: only the counter-gated
/// strategy, below its threshold, aborts mid-stream.
pub open spec fn plan_termination(strategy: Strategy, observed: u64) -> Termination {
    match strategy {
        Strategy::CounterGated { threshold } => if observed < threshold {
            Termination::Abort
        } else {
            Termination::NormalClose
        },
        _ => Termination::NormalClose,
    }
}

/// The chunks a strategy streams: filler chunks before an abort, the fixed
/// body otherwise.
pub open spec fn plan_chunks(strategy: Strategy, observed: u64) -> Seq<Seq<u8>> {
    if plan_termination(strategy, observed) == Termination::Abort {
        Seq::new(ABORT_CHUNK_COUNT as nat, |i: int| spec_filler_chunk())
    } else {
        seq![spec_fixed_body()]
    }
}

/// Whether the strategy takes its delay inside the detached streaming task.
pub open spec fn plan_delay_in_stream(strategy: Strategy) -> bool {
    strategy == Strategy::DelayedStream
}

/// A plan is exactly what the strategy decides for the observed counter
/// value.
pub open spec fn plan_obeys(p: ResponsePlan, strategy: Strategy, observed: u64) -> bool {
    &&& p.delay_ms == plan_delay(strategy, observed)
    &&& p.delay_in_stream == plan_delay_in_stream(strategy)
    &&& p.chunks@.map_values(|c: Vec<u8>| c@) == plan_chunks(strategy, observed)
    &&& p.termination == plan_termination(strategy, observed)
}

/// Decide the response for one exchange. `observed` is the pre-increment
/// value this exchange read from the shared counter; only the counter-gated
/// strategy consults it.
pub fn plan_response(strategy: Strategy, observed: u64) -> (p: ResponsePlan)
    ensures
        plan_obeys(p, strategy, observed),
{
    let aborts = match strategy {
        Strategy::CounterGated { threshold } => observed < threshold,
        _ => false,
    };
    let mut chunks: Vec<Vec<u8>> = Vec::new();
    if aborts {
        let mut i: usize = 0;
        while i < ABORT_CHUNK_COUNT
            invariant
                i <= ABORT_CHUNK_COUNT,
                chunks@.map_values(|c: Vec<u8>| c@) =~= Seq::new(
                    i as nat,
                    |k: int| spec_filler_chunk(),
                ),
            decreases ABORT_CHUNK_COUNT - i,
        {
            let ghost before = chunks@;
            chunks.push(filler_chunk());
            proof {
                assert(chunks@.map_values(|c: Vec<u8>| c@) =~= before.map_values(
                    |c: Vec<u8>| c@,
                ).push(spec_filler_chunk()));
            }
            i = i + 1;
        }
    } else {
        chunks.push(fixed_body());
        proof {
            assert(chunks@.map_values(|c: Vec<u8>| c@) =~= seq![spec_fixed_body()]);
        }
    }
    let delay_ms = match strategy {
        Strategy::ImmediateFixed => 0,
        Strategy::DelayedStream => RESPONSE_DELAY_MS,
        Strategy::CounterGated { threshold: _ } => if aborts {
            0
        } else {
            RESPONSE_DELAY_MS
        },
        Strategy::SelfDelayed => RESPONSE_DELAY_MS,
    };
    let delay_in_stream = match strategy {
        Strategy::DelayedStream => true,
        _ => false,
    };
    let termination = if aborts {
        Termination::Abort
    } else {
        Termination::NormalClose
    };
    ResponsePlan { delay_ms, delay_in_stream, chunks, termination }
}

/// The shared counter a response producer owns: read and incremented as one
/// step per inbound exchange, so no two exchanges observe the same
/// pre-increment value. In the running server it sits behind a
/// mutual-exclusion lock; here the read-and-increment is a single call on the
/// owner.
pub struct SharedCounter {
    pub count: u64,
}

impl SharedCounter {
    /// A fresh counter: nothing observed yet.
    pub fn new() -> (c: SharedCounter)
        ensures
            c.count == 0,
    {
        SharedCounter { count: 0 }
    }

    /// Observe the number of exchanges seen so far and count this one, as one
    /// atomic step. The counter is monotonically increasing: every call
    /// returns a value strictly below the one any later call returns.
    pub fn observe_and_increment(&mut self) -> (pre: u64)
        requires
            old(self).count < u64::MAX,
        ensures
            pre == old(self).count,
            final(self).count == old(self).count + 1,
    {
        let pre = self.count;
        self.count = self.count + 1;
        pre
    }
}

/// Serve `n` sequential exchanges with one strategy and a fresh shared
/// counter: exchange `i` observes pre-increment count `i`, so its plan is
/// exactly the strategy's decision at `i`.
pub fn serve_sequence(strategy: Strategy, n: usize) -> (plans: Vec<ResponsePlan>)
    requires
        n <= u64::MAX,
    ensures
        plans@.len() == n,
        forall|i: int| 0 <= i < n ==> plan_obeys(#[trigger] plans@[i], strategy, i as u64),
{
    let mut counter = SharedCounter::new();
    let mut plans: Vec<ResponsePlan> = Vec::new();
    let mut i: usize = 0;
    while i < n
        invariant
            n <= u64::MAX,
            i <= n,
            counter.count == i,
            plans@.len() == i,
            forall|k: int| 0 <= k < i ==> plan_obeys(#[trigger] plans@[k], strategy, k as u64),
        decreases n - i,
    {
        let pre = counter.observe_and_increment();
        let plan = plan_response(strategy, pre);
        plans.push(plan);
        i = i + 1;
    }
    plans
}

/// Server-side lifecycle phase of one inbound exchange. `Aborted` is a
/// terminal failure state distinct from `Closed`.
#[derive(Clone, Copy, Debug, PartialEq, Eq, Structural)]
pub enum ExchangePhase {
    Accepted,
    BodyDraining,
    ResponseStreaming { chunks_sent: usize },
    Closed,
    Aborted,
}

impl ExchangePhase {
    /// The two terminal phases: a clean close, or a deliberate abort.
    pub open spec fn is_terminal(self) -> bool {
        self == ExchangePhase::Closed || self == ExchangePhase::Aborted
    }
}

/// The legal single steps of the exchange lifecycle: accept, drain the
/// request body, then stream chunks one at a time until a close or an abort.
pub open spec fn phase_step_allowed(from: ExchangePhase, to: ExchangePhase) -> bool {
    match (from, to) {
        (ExchangePhase::Accepted, ExchangePhase::BodyDraining) => true,
        (
            ExchangePhase::BodyDraining,
            ExchangePhase::ResponseStreaming { chunks_sent },
        ) => chunks_sent == 0,
        (
            ExchangePhase::ResponseStreaming { chunks_sent: a },
            ExchangePhase::ResponseStreaming { chunks_sent: b },
        ) => b == a + 1,
        (ExchangePhase::ResponseStreaming { .. }, ExchangePhase::Closed) => true,
        (ExchangePhase::ResponseStreaming { .. }, ExchangePhase::Aborted) => true,
        _ => false,
    }
}

/// A legal exchange lifecycle: it begins at `Accepted`, every step is
/// allowed, and nothing follows a terminal phase.
pub open spec fn legal_lifecycle(phases: Seq<ExchangePhase>) -> bool {
    &&& phases.len() >= 1
    &&& phases[0] == ExchangePhase::Accepted
    &&& forall|i: int|
        0 <= i < phases.len() - 1 ==> phase_step_allowed(#[trigger] phases[i], phases[i + 1])
    &&& forall|i: int| 0 <= i < phases.len() - 1 ==> !(#[trigger] phases[i]).is_terminal()
}

/// Play one response plan through the exchange lifecycle: accept, drain the
/// request body fully, stream each chunk in turn, and terminate the way the
/// plan says. The path is legal, sends every chunk, and ends aborted exactly
/// when the plan aborts.
pub fn lifecycle_of_plan(plan: &ResponsePlan) -> (phases: Vec<ExchangePhase>)
    ensures
        legal_lifecycle(phases@),
        phases@.len() == plan.chunks@.len() + 4,
        phases@[phases@.len() - 2] == (ExchangePhase::ResponseStreaming {
            chunks_sent: plan.chunks.len(),
        }),
        phases@.last() == (if plan.termination == Termination::Abort {
            ExchangePhase::Aborted
        } else {
            ExchangePhase::Closed
        }),
        phases@.last().is_terminal(),
{
    let n = plan.chunks.len();
    let mut phases: Vec<ExchangePhase> = Vec::new();
    phases.push(ExchangePhase::Accepted);
    phases.push(ExchangePhase::BodyDraining);
    phases.push(ExchangePhase::ResponseStreaming { chunks_sent: 0 });
    let mut j: usize = 0;
    while j < n
        invariant
            j <= n,
            phases@.len() == j + 3,
            phases@[0] == ExchangePhase::Accepted,
            phases@.last() == (ExchangePhase::ResponseStreaming { chunks_sent: j }),
            forall|i: int|
                0 <= i < phases@.len() - 1 ==> phase_step_allowed(
                    #[trigger] phases@[i],
                    phases@[i + 1],
                ),
            forall|i: int| 0 <= i < phases@.len() ==> !(#[trigger] phases@[i]).is_terminal(),
        decreases n - j,
    {
        let ghost before = phases@;
        phases.push(ExchangePhase::ResponseStreaming { chunks_sent: j + 1 });
        proof {
            assert forall|i: int| 0 <= i < phases@.len() - 1 implies phase_step_allowed(
                #[trigger] phases@[i],
                phases@[i + 1],
            ) by {
                if i < before.len() - 1 {
                    assert(phases@[i] == before[i]);
                    assert(phases@[i + 1] == before[i + 1]);
                } else {
                    assert(phases@[i] == before.last());
                }
            }
        }
        j = j + 1;
    }
    let ghost before = phases@;
    let terminal = match plan.termination {
        Termination::Abort => ExchangePhase::Aborted,
        Termination::NormalClose => ExchangePhase::Closed,
    };
    phases.push(terminal);
    proof {
        assert forall|i: int| 0 <= i < phases@.len() - 1 implies phase_step_allowed(
            #[trigger] phases@[i],
            phases@[i + 1],
        ) by {
            if i < before.len() - 1 {
                assert(phases@[i] == before[i]);
                assert(phases@[i + 1] == before[i + 1]);
            } else {
                assert(phases@[i] == before.last());
            }
        }
    }
    phases
}

/// Back-pressure law: in every legal lifecycle, no response chunk flows
/// before the request body has been drained — any streaming phase comes
/// strictly after the draining phase, which is always the second step.
pub proof fn lemma_drain_precedes_streaming(phases: Seq<ExchangePhase>, i: int)
    requires
        legal_lifecycle(phases),
        0 <= i < phases.len(),
        phases[i] matches ExchangePhase::ResponseStreaming { .. },
    ensures
        i >= 2,
        phases[1] == ExchangePhase::BodyDraining,
{
    assert(phase_step_allowed(phases[0], phases[1]));
}

/// The signal a client observes for sequential exchange `index` under the
/// counter-gated strategy with the given threshold.
pub open spec fn gated_signal(threshold: u64, index: u64) -> CompletionSignal {
    if index < threshold {
        CompletionSignal::Failure(crate::signal::ErrorCause::StreamAborted)
    } else {
        CompletionSignal::Success
    }
}

/// Run the counter-gated strategy over `n` sequential exchanges and convert
/// each stream termination to the signal the client observes. The first
/// `threshold` exchanges fail with a stream abort; every later one succeeds.
pub fn gated_run(threshold: u64, n: usize) -> (sigs: Vec<CompletionSignal>)
    requires
        n <= u64::MAX,
    ensures
        sigs@.len() == n,
        forall|i: int| 0 <= i < n ==> #[trigger] sigs@[i] == gated_signal(threshold, i as u64),
{
    let plans = serve_sequence(Strategy::CounterGated { threshold }, n);
    let mut sigs: Vec<CompletionSignal> = Vec::new();
    let mut i: usize = 0;
    while i < plans.len()
        invariant
            plans@.len() == n,
            n <= u64::MAX,
            i <= n,
            sigs@.len() == i,
            forall|k: int| 0 <= k < n ==> plan_obeys(
                #[trigger] plans@[k],
                Strategy::CounterGated { threshold },
                k as u64,
            ),
            forall|k: int| 0 <= k < i ==> #[trigger] sigs@[k] == gated_signal(threshold, k as u64),
        decreases n - i,
    {
        let sig = crate::signal::signal_of_termination(plans[i].termination);
        sigs.push(sig);
        i = i + 1;
    }
    sigs
}

} // verus!

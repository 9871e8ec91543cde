//! Bounded dispatch: issue a fixed number of logical requests while never
//! exceeding the concurrency cap, and settle each with its completion signal.
//!
//! The dispatcher's budget composes with the transport's own concurrent
//! stream limit by whichever is reached first. A run is modelled as a trace
//! of launch and settle events; the contracts bound the in-flight count at
//! every point of the trace and pin which exchange settles with which signal.

use vstd::prelude::*;
use crate::signal::CompletionSignal;

verus! {

/// The two dispatch disciplines: a fixed-size concurrent window that pulls
/// the next pending request as soon as a slot frees, or unconstrained launch
/// that relies solely on the transport's own stream limit.
#[derive(Clone, Copy, Debug, PartialEq, Eq, Structural)]
pub enum Discipline {
    BoundedWindow { budget: usize },
    UnboundedLaunch,
}

impl Discipline {
    /// A bounded window needs at least one permit; otherwise nothing could
    /// ever be dispatched.
    pub open spec fn wf(self) -> bool {
        match self {
            Discipline::BoundedWindow { budget } => budget >= 1,
            Discipline::UnboundedLaunch => true,
        }
    }

    /// The effective in-flight cap: the dispatcher's budget and the
    /// transport's stream limit compose by whichever is reached first, so the
    /// cap is their minimum; unconstrained launch is capped by the stream
    /// limit alone.
    pub open spec fn spec_cap(self, stream_limit: usize) -> usize {
        match self {
            Discipline::BoundedWindow { budget } => if budget < stream_limit {
                budget
            } else {
                stream_limit
            },
            Discipline::UnboundedLaunch => stream_limit,
        }
    }

    /// Compute the effective in-flight cap.
    pub fn cap(&self, stream_limit: usize) -> (c: usize)
        ensures
            c == self.spec_cap(stream_limit),
    {
        match self {
            Discipline::BoundedWindow { budget } => if *budget < stream_limit {
                *budget
            } else {
                stream_limit
            },
            Discipline::UnboundedLaunch => stream_limit,
        }
    }
}

/// The concurrency budget as a permit pool: acquire one permit before
/// dispatching an exchange, release it when the exchange completes. Checking
/// for a free permit and taking it are a single operation, never a size check
/// followed by a separate increment.
pub struct PermitPool {
    pub budget: usize,
    pub held: usize,
}

impl PermitPool {
    /// The pool never hands out more permits than its budget.
    pub open spec fn wf(self) -> bool {
        &&& self.budget >= 1
        &&& self.held <= self.budget
    }

    pub fn new(budget: usize) -> (p: PermitPool)
        requires
            budget >= 1,
        ensures
            p.wf(),
            p.budget == budget,
            p.held == 0,
    {
        PermitPool { budget, held: 0 }
    }

    /// Take one permit if any is free. The test and the increment are one
    /// step of this pool.
    pub fn try_acquire(&mut self) -> (got: bool)
        requires
            old(self).wf(),
        ensures
            final(self).wf(),
            final(self).budget == old(self).budget,
            got == (old(self).held < old(self).budget),
            got ==> final(self).held == old(self).held + 1,
            !got ==> final(self).held == old(self).held,
    {
        if self.held < self.budget {
            self.held = self.held + 1;
            true
        } else {
            false
        }
    }

    /// Return one permit to the pool.
    pub fn release(&mut self)
        requires
            old(self).wf(),
            old(self).held >= 1,
        ensures
            final(self).wf(),
            final(self).budget == old(self).budget,
            final(self).held == old(self).held - 1,
    {
        self.held = self.held - 1;
    }
}

/// One observable step of a dispatch run: an exchange was launched, or an
/// outstanding exchange settled with its completion signal.
#[derive(Clone, Copy, Debug, PartialEq, Eq, Structural)]
pub enum DispatchEvent {
    Launched { index: usize },
    Settled { index: usize, signal: CompletionSignal },
}

/// Exchanges in flight after this trace: launches minus settlements.
pub open spec fn in_flight_after(t: Seq<DispatchEvent>) -> int
    decreases t.len(),
{
    if t.len() == 0 {
        0
    } else {
        in_flight_after(t.drop_last()) + match t.last() {
            DispatchEvent::Launched { .. } => 1int,
            DispatchEvent::Settled { .. } => -1int,
        }
    }
}

/// At every point of the trace the in-flight count stays within 0 ..= cap.
pub open spec fn flight_bounded(t: Seq<DispatchEvent>, cap: int) -> bool {
    forall|k: int|
        0 <= k <= t.len() ==> 0 <= in_flight_after(#[trigger] t.subrange(0, k)) <= cap
}

/// The settlements of the trace, in order: which exchange settled, with which
/// signal.
pub open spec fn settled_entries(t: Seq<DispatchEvent>) -> Seq<(usize, CompletionSignal)>
    decreases t.len(),
{
    if t.len() == 0 {
        Seq::empty()
    } else {
        match t.last() {
            DispatchEvent::Settled { index, signal } => settled_entries(t.drop_last()).push(
                (index, signal),
            ),
            DispatchEvent::Launched { .. } => settled_entries(t.drop_last()),
        }
    }
}

/// The completion signals settled by the trace, in settlement order.
pub open spec fn settled_signals(t: Seq<DispatchEvent>) -> Seq<CompletionSignal> {
    settled_entries(t).map_values(|p: (usize, CompletionSignal)| p.1)
}

/// The exchange indices launched by the trace, in launch order.
pub open spec fn launched_indices(t: Seq<DispatchEvent>) -> Seq<usize>
    decreases t.len(),
{
    if t.len() == 0 {
        Seq::empty()
    } else {
        match t.last() {
            DispatchEvent::Launched { index } => launched_indices(t.drop_last()).push(index),
            DispatchEvent::Settled { .. } => launched_indices(t.drop_last()),
        }
    }
}

/// How appending one event changes the trace measures.
proof fn lemma_trace_push(t: Seq<DispatchEvent>, e: DispatchEvent)
    ensures
        e matches DispatchEvent::Launched { index } ==> {
            &&& in_flight_after(t.push(e)) == in_flight_after(t) + 1
            &&& settled_entries(t.push(e)) == settled_entries(t)
            &&& launched_indices(t.push(e)) == launched_indices(t).push(index)
        },
        e matches DispatchEvent::Settled { index, signal } ==> {
            &&& in_flight_after(t.push(e)) == in_flight_after(t) - 1
            &&& settled_entries(t.push(e)) == settled_entries(t).push((index, signal))
            &&& launched_indices(t.push(e)) == launched_indices(t)
        },
{
    assert(t.push(e).drop_last() =~= t);
    assert(t.push(e).last() == e);
}

/// A trace bounded everywhere stays bounded when one event is appended, as
/// long as the new endpoint is itself within bounds.
proof fn lemma_flight_bounded_push(t: Seq<DispatchEvent>, e: DispatchEvent, cap: int)
    requires
        flight_bounded(t, cap),
        0 <= in_flight_after(t.push(e)) <= cap,
    ensures
        flight_bounded(t.push(e), cap),
{
    let u = t.push(e);
    assert forall|k: int| 0 <= k <= u.len() implies 0 <= in_flight_after(
        #[trigger] u.subrange(0, k),
    ) <= cap by {
        if k <= t.len() {
            assert(u.subrange(0, k) =~= t.subrange(0, k));
        } else {
            assert(u.subrange(0, k) =~= u);
        }
    }
}

/// Read the settled signals back out of a trace, in settlement order.
pub fn signals_of_trace(trace: &Vec<DispatchEvent>) -> (sigs: Vec<CompletionSignal>)
    ensures
        sigs@ == settled_signals(trace@),
{
    let mut sigs: Vec<CompletionSignal> = Vec::new();
    let mut i: usize = 0;
    proof {
        assert(trace@.subrange(0, 0) =~= Seq::<DispatchEvent>::empty());
        assert(settled_entries(trace@.subrange(0, 0)).map_values(
            |p: (usize, CompletionSignal)| p.1,
        ) =~= Seq::<CompletionSignal>::empty());
    }
    while i < trace.len()
        invariant
            i <= trace@.len(),
            sigs@ == settled_signals(trace@.subrange(0, i as int)),
        decreases trace@.len() - i,
    {
        let ghost pre = trace@.subrange(0, i as int);
        let ghost post = trace@.subrange(0, i as int + 1);
        proof {
            assert(post.drop_last() =~= pre);
            assert(post.last() == trace@[i as int]);
        }
        match trace[i] {
            DispatchEvent::Settled { index, signal } => {
                sigs.push(signal);
                proof {
                    assert(settled_entries(post) == settled_entries(pre).push((index, signal)));
                    assert(settled_entries(post).map_values(|p: (usize, CompletionSignal)| p.1)
                        =~= settled_entries(pre).map_values(
                        |p: (usize, CompletionSignal)| p.1,
                    ).push(signal));
                }
            },
            DispatchEvent::Launched { .. } => {
                proof {
                    assert(settled_entries(post) == settled_entries(pre));
                }
            },
        }
        i = i + 1;
    }
    proof {
        assert(trace@.subrange(0, trace@.len() as int) =~= trace@);
    }
    sigs
}

/// Dispatch every request once, never exceeding the effective cap, and settle
/// each exchange with its outcome. The returned trace records launches in
/// index order and settlements in index order, each exchange exactly once,
/// and the in-flight count stays within the cap at every point: the budget is
/// enforced in addition to the transport's own stream limit.
pub fn dispatch_run(
    outcomes: &Vec<CompletionSignal>,
    discipline: Discipline,
    stream_limit: usize,
) -> (trace: Vec<DispatchEvent>)
    requires
        discipline.wf(),
        stream_limit >= 1,
    ensures
        flight_bounded(trace@, discipline.spec_cap(stream_limit) as int),
        settled_entries(trace@) == Seq::new(
            outcomes@.len(),
            |i: int| (i as usize, outcomes@[i]),
        ),
        launched_indices(trace@) == Seq::new(outcomes@.len(), |i: int| i as usize),
{
    let n = outcomes.len();
    let cap = discipline.cap(stream_limit);
    let mut pool = PermitPool::new(cap);
    let mut trace: Vec<DispatchEvent> = Vec::new();
    let mut launched: usize = 0;
    let mut settled: usize = 0;
    proof {
        assert(trace@.subrange(0, 0) =~= trace@);
        assert(settled_entries(trace@) =~= Seq::new(0, |i: int| (i as usize, outcomes@[i])));
        assert(launched_indices(trace@) =~= Seq::new(0, |i: int| i as usize));
    }
    while settled < n
        invariant
            n == outcomes@.len(),
            pool.wf(),
            pool.budget == cap,
            cap == discipline.spec_cap(stream_limit),
            cap >= 1,
            settled <= launched <= n,
            pool.held == launched - settled,
            in_flight_after(trace@) == launched - settled,
            flight_bounded(trace@, cap as int),
            settled_entries(trace@) == Seq::new(settled as nat, |i: int| (i as usize, outcomes@[i])),
            launched_indices(trace@) == Seq::new(launched as nat, |i: int| i as usize),
        decreases 2 * n - launched - settled,
    {
        let ghost t0 = trace@;
        let mut did_launch = false;
        if launched < n {
            if pool.try_acquire() {
                let e = DispatchEvent::Launched { index: launched };
                trace.push(e);
                proof {
                    lemma_trace_push(t0, e);
                    lemma_flight_bounded_push(t0, e, cap as int);
                    assert(launched_indices(trace@) =~= Seq::new(
                        (launched + 1) as nat,
                        |i: int| i as usize,
                    ));
                }
                launched = launched + 1;
                did_launch = true;
            }
        }
        if !did_launch {
            // A settle step is always possible here: either every request is
            // already launched (and some are still outstanding), or the pool
            // is full, so at least one exchange is in flight.
            let sig = outcomes[settled];
            let e = DispatchEvent::Settled { index: settled, signal: sig };
            trace.push(e);
            proof {
                lemma_trace_push(t0, e);
                lemma_flight_bounded_push(t0, e, cap as int);
                assert(settled_entries(trace@) =~= Seq::new(
                    (settled + 1) as nat,
                    |i: int| (i as usize, outcomes@[i]),
                ));
            }
            pool.release();
            settled = settled + 1;
        }
    }
    trace
}

} // verus!

//! Outcome reporting: compare the number of completions collected against the
//! number expected and classify the run as fully completed or stuck.

use vstd::prelude::*;

verus! {

/// How a finished run is classified: every expected completion arrived, or
/// the run wedged with a deficit.
#[derive(Clone, Copy, Debug, PartialEq, Eq, Structural)]
pub enum RunClassification {
    Complete,
    Stuck,
}

/// Aggregate record of one run: how many completions were expected, how many
/// arrived, and the resulting classification. Finalized once, immutable
/// thereafter.
#[derive(Clone, Copy, Debug, PartialEq, Eq, Structural)]
pub struct RunReport {
    pub expected: usize,
    pub completed: usize,
    pub classification: RunClassification,
}

/// The classification a report must carry: complete exactly when every
/// expected completion was collected.
pub open spec fn spec_classify(expected: nat, completed: nat) -> RunClassification {
    if completed == expected {
        RunClassification::Complete
    } else {
        RunClassification::Stuck
    }
}

impl RunReport {
    /// A report is well formed when the completed count never exceeds the
    /// expected count and the classification matches the two counts.
    pub open spec fn wf(self) -> bool {
        &&& self.completed <= self.expected
        &&& self.classification == spec_classify(self.expected as nat, self.completed as nat)
    }

    /// How many expected completions never arrived.
    pub fn deficit(&self) -> (d: usize)
        requires
            self.wf(),
        ensures
            d == self.expected - self.completed,
            self.classification == RunClassification::Complete ==> d == 0,
    {
        self.expected - self.completed
    }
}

/// Build the run outcome from the expected and collected counts: complete
/// exactly when they agree, stuck otherwise.
pub fn classify_run(expected: usize, completed: usize) -> (r: RunReport)
    requires
        completed <= expected,
    ensures
        r.wf(),
        r.expected == expected,
        r.completed == completed,
        r.classification == RunClassification::Complete <==> completed == expected,
{
    let classification = if completed == expected {
        RunClassification::Complete
    } else {
        RunClassification::Stuck
    };
    RunReport { expected, completed, classification }
}

/// Which side of the protocol-version pin a run was made under: multiplexed
/// only, or with fallback to the plain protocol allowed.
#[derive(Clone, Copy, Debug, PartialEq, Eq, Structural)]
pub enum ProtocolMode {
    MultiplexedOnly,
    AllowFallback,
}

/// The short label a run summary is prefixed with.
pub fn mode_label(mode: ProtocolMode) -> (r: &'static str)
    ensures
        mode == ProtocolMode::MultiplexedOnly ==> r@ == "H2"@,
        mode == ProtocolMode::AllowFallback ==> r@ == "H1"@,
{
    match mode {
        ProtocolMode::MultiplexedOnly => "H2",
        ProtocolMode::AllowFallback => "H1",
    }
}

} // verus!

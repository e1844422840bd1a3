//! Step budget of a marched ray.
//!
//! A ray is marched by evaluating the distance field, advancing by the value
//! found, and repeating. Each evaluation is judged by the caller (is the
//! field within the surface tolerance; has the ray left its range) and
//! handed here as a [`Probe`]; the budget decides whether the march goes on,
//! and bounds the number of evaluations of every ray.
use vstd::prelude::*;

verus! {

/// What one evaluation along a marched ray found.
#[derive(Clone, Copy, Debug, PartialEq, Eq, Structural)]
pub enum Probe {
    /// The field is within the surface tolerance: the ray touches a surface.
    Contact,
    /// The ray advanced by the field value and is still inside its range.
    Advanced,
    /// The ray advanced past the end of its range (the far limit of the
    /// scene, or the light a shadow ray is aimed at).
    Beyond,
}

/// What a march does after a probe.
#[derive(Clone, Copy, Debug, PartialEq, Eq, Structural)]
pub enum MarchOutcome {
    /// Evaluate the field again at the new position.
    Continue,
    /// The ray ends on a surface.
    Hit,
    /// The ray left its range without touching a surface.
    Escaped,
    /// The budget ran out before the ray touched a surface or left its range.
    Exhausted,
}

/// Outcome of a probe that is the `taken`-th evaluation of a ray allowed
/// `max_steps` evaluations.
pub open spec fn step_outcome(taken: nat, max_steps: nat, probe: Probe) -> MarchOutcome {
    match probe {
        Probe::Contact => MarchOutcome::Hit,
        Probe::Beyond => MarchOutcome::Escaped,
        Probe::Advanced => if taken >= max_steps {
            MarchOutcome::Exhausted
        } else {
            MarchOutcome::Continue
        },
    }
}

/// Whether a run of probes, fed one after the other to a fresh budget of
/// `max_steps`, was told to continue after each of them.
pub open spec fn all_continue(max_steps: nat, probes: Seq<Probe>) -> bool {
    forall|i: int|
        0 <= i < probes.len() ==> step_outcome((i + 1) as nat, max_steps, #[trigger] probes[i])
            == MarchOutcome::Continue
}

impl MarchOutcome {
    /// Whether the ray found no surface: it escaped, or its budget ran out,
    /// which counts as a miss too.
    pub open spec fn is_miss_spec(self) -> bool {
        self == MarchOutcome::Escaped || self == MarchOutcome::Exhausted
    }

    /// Whether the ray found no surface.
    pub fn is_miss(&self) -> (r: bool)
        ensures
            r == self.is_miss_spec(),
    {
        match self {
            MarchOutcome::Escaped | MarchOutcome::Exhausted => true,
            _ => false,
        }
    }
}

/// Evaluations of the distance field spent on one ray, out of a fixed cap.
#[derive(Clone, Copy, Debug, PartialEq, Eq, Structural)]
pub struct StepBudget {
    pub taken: u32,
    pub max_steps: u32,
}

impl StepBudget {
    /// No more evaluations are allowed.
    pub open spec fn spent(self) -> bool {
        self.taken >= self.max_steps
    }

    /// A budget of `max_steps` evaluations, none of them taken.
    pub fn new(max_steps: u32) -> (r: StepBudget)
        ensures
            r.taken == 0,
            r.max_steps == max_steps,
    {
        StepBudget { taken: 0, max_steps }
    }

    /// Whether no more evaluations are allowed.
    pub fn is_spent(&self) -> (r: bool)
        ensures
            r == self.spent(),
    {
        self.taken >= self.max_steps
    }

    /// Records one evaluation and what it found, and says how the march
    /// goes on. A march told to continue has budget left for the next probe.
    pub fn observe(&mut self, probe: Probe) -> (r: MarchOutcome)
        requires
            !old(self).spent(),
        ensures
            final(self).taken == old(self).taken + 1,
            final(self).max_steps == old(self).max_steps,
            r == step_outcome(final(self).taken as nat, final(self).max_steps as nat, probe),
            r == MarchOutcome::Continue ==> !final(self).spent(),
    {
        self.taken = self.taken + 1;
        match probe {
            Probe::Contact => MarchOutcome::Hit,
            Probe::Beyond => MarchOutcome::Escaped,
            Probe::Advanced => if self.taken >= self.max_steps {
                MarchOutcome::Exhausted
            } else {
                MarchOutcome::Continue
            },
        }
    }
}

/// No ray is marched forever: under a budget that allows any evaluation at
/// all, a run of probes that were all told to continue is shorter than the
/// budget, so a ray ends after at most `max_steps` evaluations, whatever the
/// field returns.
pub proof fn lemma_march_bounded(max_steps: nat, probes: Seq<Probe>)
    requires
        max_steps > 0,
        all_continue(max_steps, probes),
    ensures
        probes.len() < max_steps,
{
    if probes.len() >= max_steps {
        let i = max_steps - 1;
        assert(step_outcome((i + 1) as nat, max_steps, probes[i]) == MarchOutcome::Continue);
    }
}

} // verus!

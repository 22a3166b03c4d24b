//! The iteration and step driver of a round: three steps per iteration,
//! per-step timeouts that double on every timeout within the round, and the
//! bound on iterations.
use vstd::prelude::*;
use crate::commons::{next_step_timeout, step_pos, ConsensusError, IterCounter, StepName, CONSENSUS_MAX_ITER};

verus! {

/// Where a round stands and how long each step may wait.
pub struct IterationCtx {
    iteration: u8,
    step: StepName,
    proposal_timeout: u64,
    validation_timeout: u64,
    ratification_timeout: u64,
    ceiling: u64,
}

impl IterationCtx {
    pub closed spec fn iteration_spec(&self) -> u8 {
        self.iteration
    }

    pub closed spec fn step_spec(&self) -> StepName {
        self.step
    }

    pub closed spec fn ceiling_spec(&self) -> u64 {
        self.ceiling
    }

    /// The current timeout of a step.
    pub closed spec fn timeout_spec(&self, st: StepName) -> u64 {
        match st {
            StepName::Proposal => self.proposal_timeout,
            StepName::Validation => self.validation_timeout,
            StepName::Ratification => self.ratification_timeout,
        }
    }

    /// The first step of the first iteration of a round, with the base
    /// timeouts of the three steps.
    pub fn new(proposal: u64, validation: u64, ratification: u64, ceiling: u64) -> (r: IterationCtx)
        ensures
            r.iteration_spec() == 0,
            r.step_spec() == StepName::Proposal,
            r.timeout_spec(StepName::Proposal) == proposal,
            r.timeout_spec(StepName::Validation) == validation,
            r.timeout_spec(StepName::Ratification) == ratification,
            r.ceiling_spec() == ceiling,
    {
        IterationCtx {
            iteration: 0,
            step: StepName::Proposal,
            proposal_timeout: proposal,
            validation_timeout: validation,
            ratification_timeout: ratification,
            ceiling,
        }
    }

    pub fn iteration(&self) -> (r: u8)
        ensures
            r == self.iteration_spec(),
    {
        self.iteration
    }

    pub fn step(&self) -> (r: StepName)
        ensures
            r == self.step_spec(),
    {
        self.step
    }

    /// The absolute step number of the current step.
    pub fn step_number(&self) -> (r: u8)
        requires
            self.iteration_spec() < CONSENSUS_MAX_ITER,
        ensures
            r == self.iteration_spec().spec_step_from_name(self.step_spec()),
    {
        self.iteration.step_from_name(self.step)
    }

    /// How long a step may wait.
    pub fn get_timeout(&self, st: StepName) -> (r: u64)
        ensures
            r == self.timeout_spec(st),
    {
        match st {
            StepName::Proposal => self.proposal_timeout,
            StepName::Validation => self.validation_timeout,
            StepName::Ratification => self.ratification_timeout,
        }
    }

    /// A step timed out: its timeout doubles, up to the ceiling; the other
    /// steps keep theirs.
    pub fn on_timeout(&mut self, st: StepName)
        ensures
            final(self).iteration_spec() == old(self).iteration_spec(),
            final(self).step_spec() == old(self).step_spec(),
            final(self).ceiling_spec() == old(self).ceiling_spec(),
            forall|s: StepName| #![auto] final(self).timeout_spec(s) == if s == st {
                if 2 * (old(self).timeout_spec(s) as int) <= old(self).ceiling_spec() as int {
                    (2 * old(self).timeout_spec(s)) as u64
                } else {
                    old(self).ceiling_spec()
                }
            } else {
                old(self).timeout_spec(s)
            },
    {
        match st {
            StepName::Proposal => self.proposal_timeout = next_step_timeout(self.proposal_timeout, self.ceiling),
            StepName::Validation => self.validation_timeout = next_step_timeout(self.validation_timeout, self.ceiling),
            StepName::Ratification => self.ratification_timeout = next_step_timeout(self.ratification_timeout, self.ceiling),
        }
    }

    /// Moves to the next step: Validation after Proposal, Ratification after
    /// Validation, and the Proposal of the next iteration after
    /// Ratification, unless that iteration would reach the maximum; then the
    /// round fails with `MaxIterationReached` and nothing changes.
    pub fn advance(&mut self) -> (r: Result<(), ConsensusError>)
        ensures
            final(self).ceiling_spec() == old(self).ceiling_spec(),
            forall|s: StepName| #![auto] final(self).timeout_spec(s) == old(self).timeout_spec(s),
            step_pos(old(self).step_spec()) < 2 ==> r is Ok
                && final(self).iteration_spec() == old(self).iteration_spec()
                && step_pos(final(self).step_spec()) == step_pos(old(self).step_spec()) + 1,
            old(self).step_spec() == StepName::Ratification ==> match old(self).iteration_spec().spec_next() {
                Some(n) => r is Ok && final(self).iteration_spec() == n && final(self).step_spec() == StepName::Proposal,
                None => r == Err::<(), ConsensusError>(ConsensusError::MaxIterationReached)
                    && final(self).iteration_spec() == old(self).iteration_spec()
                    && final(self).step_spec() == old(self).step_spec(),
            },
    {
        match self.step {
            StepName::Proposal => {
                self.step = StepName::Validation;
                Ok(())
            },
            StepName::Validation => {
                self.step = StepName::Ratification;
                Ok(())
            },
            StepName::Ratification => {
                let mut it = self.iteration;
                match it.next() {
                    Ok(n) => {
                        self.iteration = n;
                        self.step = StepName::Proposal;
                        Ok(())
                    },
                    Err(e) => Err(e),
                }
            },
        }
    }
}

} // verus!

//! Round-wide definitions: errors, step names, the iteration counter and the
//! super-majority threshold.
use vstd::prelude::*;

verus! {

/// Number of iterations a round may run before it fails.
pub const CONSENSUS_MAX_ITER: u8 = 50;

/// Number of steps in one iteration (Proposal, Validation, Ratification).
pub const STEP_NUM: u8 = 3;

/// Why a consensus step or round could not go on.
#[derive(Debug, PartialEq, Eq, Clone, Copy, Structural)]
pub enum ConsensusError {
    InvalidBlock,
    InvalidBlockHash,
    InvalidSignature,
    InvalidMsgType,
    FutureEvent,
    PastEvent,
    NotCommitteeMember,
    NotImplemented,
    NotReady,
    MaxIterationReached,
    ChildTaskTerminated,
    Canceled,
}

/// The three steps of an iteration, in the order they run.
#[derive(Debug, PartialEq, Eq, Clone, Copy, Structural)]
pub enum StepName {
    Proposal,
    Validation,
    Ratification,
}

/// Position of a step inside its iteration.
pub open spec fn step_pos(st: StepName) -> int {
    match st {
        StepName::Proposal => 0,
        StepName::Validation => 1,
        StepName::Ratification => 2,
    }
}

/// The step name at a relative position (taken modulo the step count).
pub open spec fn step_at(pos: int) -> StepName {
    if pos % 3 == 0 {
        StepName::Proposal
    } else if pos % 3 == 1 {
        StepName::Validation
    } else {
        StepName::Ratification
    }
}

impl StepName {
    /// Relative position of the step inside an iteration.
    pub fn pos(&self) -> (r: u8)
        ensures
            r as int == step_pos(*self),
    {
        match self {
            StepName::Proposal => 0,
            StepName::Validation => 1,
            StepName::Ratification => 2,
        }
    }
}

/// Counter of iterations, and the mapping between iterations and absolute
/// step numbers (three steps per iteration).
pub trait IterCounter: Sized {
    type Step;

    /// The counter after one more iteration, when it stays under the maximum.
    spec fn spec_next(&self) -> Option<Self>;

    spec fn spec_from_step(step: Self::Step) -> Self;

    spec fn spec_step_from_name(&self, st: StepName) -> Self::Step;

    spec fn spec_step_from_pos(&self, pos: usize) -> Self::Step;

    spec fn spec_to_step_name(&self) -> StepName;

    /// Whether `step_from_name` / `step_from_pos` fit in a step number.
    spec fn step_fits(&self, pos: int) -> bool;

    /// Advances to the next iteration, or fails with `MaxIterationReached`
    /// when the next one would reach the maximum; then the counter is kept.
    fn next(&mut self) -> (r: Result<Self, ConsensusError>)
        ensures
            match old(self).spec_next() {
                Some(n) => r == Ok::<Self, ConsensusError>(n) && *final(self) == n,
                None => r == Err::<Self, ConsensusError>(ConsensusError::MaxIterationReached)
                    && *final(self) == *old(self),
            },
    ;

    /// The iteration a step belongs to.
    fn from_step(step: Self::Step) -> (r: Self)
        ensures
            r == Self::spec_from_step(step),
    ;

    /// The absolute step of a named step of this iteration.
    fn step_from_name(&self, st: StepName) -> (r: Self::Step)
        requires
            self.step_fits(step_pos(st)),
        ensures
            r == self.spec_step_from_name(st),
    ;

    /// The absolute step at a relative position of this iteration.
    fn step_from_pos(&self, pos: usize) -> (r: Self::Step)
        requires
            self.step_fits(pos as int),
        ensures
            r == self.spec_step_from_pos(pos),
    ;

    /// The name of this value read as an absolute step.
    fn to_step_name(&self) -> (r: StepName)
        ensures
            r == self.spec_to_step_name(),
    ;
}

impl IterCounter for u8 {
    type Step = u8;

    open spec fn spec_next(&self) -> Option<u8> {
        if *self as int + 1 >= CONSENSUS_MAX_ITER as int {
            None
        } else {
            Some((*self + 1) as u8)
        }
    }

    open spec fn spec_from_step(step: u8) -> u8 {
        step / STEP_NUM
    }

    open spec fn spec_step_from_name(&self, st: StepName) -> u8 {
        (*self * STEP_NUM + step_pos(st)) as u8
    }

    open spec fn spec_step_from_pos(&self, pos: usize) -> u8 {
        (*self * STEP_NUM + pos) as u8
    }

    open spec fn spec_to_step_name(&self) -> StepName {
        step_at(*self as int)
    }

    open spec fn step_fits(&self, pos: int) -> bool {
        0 <= pos && (*self as int) * 3 + pos <= u8::MAX as int
    }

    fn next(&mut self) -> (r: Result<u8, ConsensusError>) {
        if *self >= CONSENSUS_MAX_ITER - 1 {
            return Err(ConsensusError::MaxIterationReached);
        }
        let next = *self + 1;
        *self = next;
        Ok(next)
    }

    fn from_step(step: u8) -> (r: u8) {
        step / STEP_NUM
    }

    fn step_from_name(&self, st: StepName) -> (r: u8) {
        let iteration_step = *self * STEP_NUM;
        let relative_step = st.pos();
        iteration_step + relative_step
    }

    fn step_from_pos(&self, pos: usize) -> (r: u8) {
        *self * STEP_NUM + pos as u8
    }

    fn to_step_name(&self) -> (r: StepName) {
        let m = *self % STEP_NUM;
        if m == 0 {
            StepName::Proposal
        } else if m == 1 {
            StepName::Validation
        } else {
            StepName::Ratification
        }
    }
}

/// The provisioner left out of a step's sortition: none for Proposal; the
/// iteration's generator for Validation and Ratification.
pub fn step_exclusion(step: u8, generator: Option<[u8; 96]>) -> (r: Option<[u8; 96]>)
    ensures
        r == if step_at(step as int) == StepName::Proposal { None } else { generator },
{
    match step.to_step_name() {
        StepName::Proposal => None,
        _ => generator,
    }
}

/// The super-majority of a committee of `n` seats: the least `q` with
/// `3q >= 2n`, that is `ceil(2n / 3)`.
pub open spec fn supermajority_spec(n: int) -> int {
    (2 * n + 2) / 3
}

/// Seats needed for a quorum in a committee of `n` seats.
pub fn supermajority(n: u64) -> (r: u64)
    ensures
        r as int == supermajority_spec(n as int),
        3 * (r as int) >= 2 * (n as int),
        3 * (r as int - 1) < 2 * (n as int),
{
    let r = n - n / 3;
    proof {
        let q = n as int / 3;
        assert(n as int == 3 * q + n as int % 3);
        assert((2 * (n as int) + 2) / 3 == n as int - q) by (nonlinear_arith)
            requires
                n as int == 3 * q + n as int % 3,
                0 <= n as int % 3 < 3,
        ;
    }
    r
}

/// Whether `credits` seats reach the quorum of a committee of `n` seats.
pub fn quorum_reached(credits: u64, n: u64) -> (r: bool)
    ensures
        r == (credits as int >= supermajority_spec(n as int)),
{
    credits >= supermajority(n)
}

/// The step timeout after a timeout of `current`: doubled, capped at `ceiling`.
pub fn next_step_timeout(current: u64, ceiling: u64) -> (r: u64)
    ensures
        r as int == if 2 * (current as int) <= ceiling as int {
            2 * (current as int)
        } else {
            ceiling as int
        },
{
    if current <= ceiling / 2 {
        current * 2
    } else {
        ceiling
    }
}

} // verus!

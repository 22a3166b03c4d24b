//! Block headers and attestations, with the semantic fields the consensus and
//! the chain logic read.
use vstd::prelude::*;
use crate::bytes::{Digest, PublicKeyBytes, SignatureBytes};
use crate::step_votes_reg::{StepVotes, Vote};

verus! {

/// The outcome that a ratification quorum attests.
#[derive(Debug, Clone, Copy, PartialEq, Eq)]
pub enum RatificationResult {
    Fail(Vote),
    Success(Vote),
}

impl RatificationResult {
    pub open spec fn vote_spec(&self) -> Vote {
        match *self {
            RatificationResult::Fail(v) => v,
            RatificationResult::Success(v) => v,
        }
    }

    /// The vote that the result carries.
    pub fn vote(&self) -> (r: Vote)
        ensures
            r == self.vote_spec(),
    {
        match self {
            RatificationResult::Fail(v) => *v,
            RatificationResult::Success(v) => *v,
        }
    }

    pub fn is_success(&self) -> (r: bool)
        ensures
            r == (*self is Success),
    {
        match self {
            RatificationResult::Success(_) => true,
            RatificationResult::Fail(_) => false,
        }
    }
}

/// A certificate over a block or a failed iteration: the ratified outcome
/// with both aggregated step-votes.
#[derive(Debug, Clone, Copy, PartialEq, Eq)]
pub struct Attestation {
    pub result: RatificationResult,
    pub validation: StepVotes,
    pub ratification: StepVotes,
}

/// A block header.
#[derive(Debug, Clone, PartialEq, Eq)]
pub struct Header {
    pub version: u8,
    pub height: u64,
    pub timestamp: u64,
    pub gas_limit: u64,
    pub prev_block_hash: Digest,
    pub seed: SignatureBytes,
    pub state_hash: Digest,
    pub event_hash: Digest,
    pub generator_bls_pubkey: PublicKeyBytes,
    pub txroot: Digest,
    pub iteration: u8,
    pub hash: Digest,
    pub att: Attestation,
    pub prev_block_cert: Attestation,
    /// For each earlier iteration of the round, its failure certificate and
    /// generator, where one was observed.
    pub failed_iterations: Vec<Option<(Attestation, PublicKeyBytes)>>,
}

} // verus!

//! Checks on a Candidate message of the Proposal step.
use vstd::prelude::*;
use crate::aggregator::{vote_signable, vote_signable_bytes, ConsensusHeader};
use crate::bytes::{bytes_eq, Digest, PublicKeyBytes, SignatureBytes};
use crate::signatures::{bls_signature_verifies, bls_verify};
use crate::step_votes_reg::Vote;
use crate::commons::ConsensusError;
use crate::committee::Committee;
use crate::ledger::Header;

verus! {

/// Whether a Candidate message's signature is the sender's signature of
/// the Proposal step's header and the candidate's hash (the bytes a valid
/// vote on it would sign).
pub fn candidate_signature_valid(header: &ConsensusHeader, step: u8, sender: &PublicKeyBytes, candidate: &Header, signature: &SignatureBytes) -> (r: bool)
    ensures
        r == bls_signature_verifies(sender@, signature@, vote_signable(*header, step, Vote::Valid(candidate.hash))),
{
    let msg = vote_signable_bytes(header, step, &Vote::Valid(candidate.hash));
    bls_verify(sender, signature, msg.as_slice())
}

/// The outcome of checking a Candidate message, in the order the checks run.
pub open spec fn new_block_result(
    is_candidate: bool,
    signature_valid: bool,
    msg_prev_block_hash: Digest,
    sender: PublicKeyBytes,
    candidate: Header,
    tx_root: Digest,
    committee: Committee,
) -> Result<(), ConsensusError> {
    if !is_candidate {
        Err(ConsensusError::InvalidMsgType)
    } else if !signature_valid {
        Err(ConsensusError::InvalidSignature)
    } else if msg_prev_block_hash != candidate.prev_block_hash {
        Err(ConsensusError::InvalidBlockHash)
    } else if tx_root != candidate.txroot {
        Err(ConsensusError::InvalidBlock)
    } else if !(exists|i: int| 0 <= i < committee.members_spec().len() && committee.members_spec()[i].0 == sender) {
        Err(ConsensusError::NotCommitteeMember)
    } else {
        Ok(())
    }
}

/// Verifies a Candidate message: its type, its signature (checked by the
/// caller), that the candidate extends the block the message names, that the
/// transaction root (computed by the caller over the candidate's
/// transactions) matches the header, and that the sender is the elected
/// generator.
pub fn verify_new_block(
    is_candidate: bool,
    signature_valid: bool,
    msg_prev_block_hash: &Digest,
    sender: &PublicKeyBytes,
    candidate: &Header,
    tx_root: &Digest,
    committee: &Committee,
) -> (r: Result<(), ConsensusError>)
    ensures
        r == new_block_result(is_candidate, signature_valid, *msg_prev_block_hash, *sender, *candidate, *tx_root, *committee),
{
    if !is_candidate {
        return Err(ConsensusError::InvalidMsgType);
    }
    if !signature_valid {
        return Err(ConsensusError::InvalidSignature);
    }
    if !bytes_eq(msg_prev_block_hash, &candidate.prev_block_hash) {
        return Err(ConsensusError::InvalidBlockHash);
    }
    if !bytes_eq(tx_root, &candidate.txroot) {
        return Err(ConsensusError::InvalidBlock);
    }
    if !committee.is_member(sender) {
        return Err(ConsensusError::NotCommitteeMember);
    }
    Ok(())
}

} // verus!

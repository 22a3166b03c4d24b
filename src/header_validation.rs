//! Validation of a candidate block header against its predecessor.
//!
//! Clock readings, ledger lookups and signature checks are made by the
//! caller; their outcomes enter as arguments, and every decision built on them
//! is made here.
use vstd::prelude::*;
use crate::bytes::{bytes_eq, is_zero, is_zero_spec, PublicKeyBytes, SignatureBytes};
use crate::signatures::{bls_aggregate_verifies, bls_signature_verifies, bls_verify, bls_verify_aggregate};
use crate::aggregator::{vote_signable, vote_signable_bytes, ConsensusHeader};
use crate::step_votes_reg::Vote;
use crate::committee::selected_keys_spec;
use crate::commons::{supermajority, supermajority_spec};
use crate::committee::{bitset_seats, distinct_keys, lemma_bitset_seats_bounded, merge_committees, min_len, seats_of, voter_credits, Committee};
use crate::ledger::{Attestation, Header};
use crate::step_votes_reg::StepVotes;

verus! {

/// Least number of seconds between a block and its predecessor.
pub const MINIMUM_BLOCK_TIME: u64 = 10;

/// Seconds a block timestamp may run ahead of the local clock.
pub const MARGIN_TIMESTAMP: u64 = 3;

/// Why a header was rejected.
#[derive(Debug, Clone, Copy, PartialEq, Eq)]
pub enum HeaderError {
    UnsupportedVersion,
    EmptyHash,
    InvalidHeight,
    BlockTimeTooShort,
    TimestampInFuture,
    InvalidPrevHash,
    AlreadyExists,
    InvalidSeed,
    InvalidValidation,
    InvalidRatification,
    QuorumNotReached,
    SuccessInFailedIterations,
    InvalidGenerator,
}

/// The outcome of the basic checks, in the order they are made.
pub open spec fn basic_fields_result(
    c: Header,
    prev: Header,
    now: u64,
    already_in_ledger: bool,
    seed_valid: bool,
) -> Result<(), HeaderError> {
    if c.version > 0 {
        Err(HeaderError::UnsupportedVersion)
    } else if is_zero_spec(c.hash@) {
        Err(HeaderError::EmptyHash)
    } else if c.height as int != prev.height as int + 1 {
        Err(HeaderError::InvalidHeight)
    } else if (c.timestamp as int) < prev.timestamp as int + MINIMUM_BLOCK_TIME as int {
        Err(HeaderError::BlockTimeTooShort)
    } else if c.timestamp as int > now as int + MARGIN_TIMESTAMP as int {
        Err(HeaderError::TimestampInFuture)
    } else if c.prev_block_hash != prev.hash {
        Err(HeaderError::InvalidPrevHash)
    } else if already_in_ledger {
        Err(HeaderError::AlreadyExists)
    } else if !seed_valid {
        Err(HeaderError::InvalidSeed)
    } else {
        Ok(())
    }
}

/// Seats that voted in a step and seats the step needed.
#[derive(Debug, Clone, Copy, PartialEq, Eq)]
pub struct QuorumResult {
    pub total: u128,
    pub target_quorum: u64,
}

impl QuorumResult {
    pub open spec fn reached_spec(&self) -> bool {
        self.total >= self.target_quorum
    }

    pub fn quorum_reached(&self) -> (r: bool)
        ensures
            r == self.reached_spec(),
    {
        self.total >= self.target_quorum as u128
    }
}

/// What the caller established for one step of an attestation: the step's
/// committee, re-derived by sortition, and whether the aggregate signature
/// verifies against the keys that the bitset selects.
pub struct StepCheck {
    pub committee: Committee,
    pub signature_valid: bool,
}

/// Whether the aggregate signature of step-votes is the signature of `vote`
/// in `step` of `header` by the committee members its bitset selects.
pub open spec fn step_signature_ok(committee: Committee, header: ConsensusHeader, step: u8, vote: Vote, sv: StepVotes) -> bool {
    bls_aggregate_verifies(
        selected_keys_spec(committee.members_spec(), sv.bitset, min_len(committee.members_spec().len())).map_values(|k: PublicKeyBytes| k@),
        sv.aggregate_signature@,
        vote_signable(header, step, vote),
    )
}

impl StepCheck {
    /// The check of one step: the committee, and whether the step-votes'
    /// aggregate signature verifies against the keys its bitset selects.
    pub fn new(committee: Committee, header: &ConsensusHeader, step: u8, vote: &Vote, sv: &StepVotes) -> (r: StepCheck)
        ensures
            r.committee == committee,
            r.signature_valid == step_signature_ok(committee, *header, step, *vote, *sv),
    {
        let keys = committee.selected_keys(sv.bitset);
        let msg = vote_signable_bytes(header, step, vote);
        let signature_valid = bls_verify_aggregate(&keys, &sv.aggregate_signature, msg.as_slice());
        StepCheck { committee, signature_valid }
    }
}

/// The checks of both steps of an attestation.
pub struct AttestationCheck {
    pub validation: StepCheck,
    pub ratification: StepCheck,
}

/// The context of one failed iteration: its elected generator, and the checks
/// of its attestation.
pub struct FailedIterationCheck {
    pub expected_generator: PublicKeyBytes,
    pub att: AttestationCheck,
}

/// The result of verifying one step: nothing voted when the step-votes are
/// empty; otherwise the signature must hold, and the selected seats count
/// against the super-majority of the committee.
pub open spec fn step_result(sv: StepVotes, committee: Committee, signature_valid: bool) -> Option<QuorumResult> {
    let target = supermajority_spec(committee.size_spec() as int) as u64;
    if sv.is_empty_spec() {
        Some(QuorumResult { total: 0, target_quorum: target })
    } else if !signature_valid {
        None
    } else {
        Some(QuorumResult {
            total: bitset_seats(committee.members_spec(), sv.bitset, min_len(committee.members_spec().len())) as u128,
            target_quorum: target,
        })
    }
}

/// The result of verifying both steps of an attestation.
pub open spec fn att_result(att: Attestation, check: AttestationCheck) -> Result<(QuorumResult, QuorumResult), HeaderError> {
    match step_result(att.validation, check.validation.committee, check.validation.signature_valid) {
        None => Err(HeaderError::InvalidValidation),
        Some(v) => match step_result(att.ratification, check.ratification.committee, check.ratification.signature_valid) {
            None => Err(HeaderError::InvalidRatification),
            Some(r) => Ok((v, r)),
        },
    }
}

/// An attestation that verifies and reaches quorum in both steps.
pub open spec fn att_accepted(att: Attestation, check: AttestationCheck) -> Result<(), HeaderError> {
    match att_result(att, check) {
        Err(e) => Err(e),
        Ok((v, r)) => if v.reached_spec() && r.reached_spec() { Ok(()) } else { Err(HeaderError::QuorumNotReached) },
    }
}

/// Number of leading failed-iteration slots that are examined.
pub open spec fn failed_slots(c: Header) -> int {
    if (c.iteration as int) < c.failed_iterations@.len() { c.iteration as int } else { c.failed_iterations@.len() as int }
}

/// Scans the first `n` failed-iteration slots: the number of attested slots
/// whose ratification reached quorum, or the first error.
pub open spec fn failed_scan(c: Header, checks: Seq<FailedIterationCheck>, n: int) -> Result<nat, HeaderError>
    decreases n,
{
    if n <= 0 {
        Ok(0)
    } else {
        match failed_scan(c, checks, n - 1) {
            Err(e) => Err(e),
            Ok(count) => match c.failed_iterations@[n - 1] {
                None => Ok(count),
                Some((att, pk)) => if att.result is Success {
                    Err(HeaderError::SuccessInFailedIterations)
                } else if pk != checks[n - 1].expected_generator {
                    Err(HeaderError::InvalidGenerator)
                } else {
                    match att_result(att, checks[n - 1].att) {
                        Err(e) => Err(e),
                        Ok((_, r)) => Ok(if r.reached_spec() { count + 1 } else { count }),
                    }
                },
            },
        }
    }
}

proof fn lemma_failed_scan_bounded(c: Header, checks: Seq<FailedIterationCheck>, n: int)
    requires
        0 <= n,
    ensures
        failed_scan(c, checks, n) matches Ok(k) ==> k <= n,
    decreases n,
{
    if n > 0 {
        lemma_failed_scan_bounded(c, checks, n - 1);
    }
}

proof fn lemma_failed_scan_err_sticks(c: Header, checks: Seq<FailedIterationCheck>, a: int, b: int)
    requires
        0 <= a <= b,
        failed_scan(c, checks, a) is Err,
    ensures
        failed_scan(c, checks, b) == failed_scan(c, checks, a),
    decreases b - a,
{
    if a < b {
        lemma_failed_scan_err_sticks(c, checks, a, b - 1);
    }
}

/// Previous Non-Attested Iterations of a header whose failed iterations
/// verify: its iteration less the attested failures.
pub open spec fn pni_result(c: Header, checks: Seq<FailedIterationCheck>) -> Result<u8, HeaderError> {
    match failed_scan(c, checks, failed_slots(c)) {
        Err(e) => Err(e),
        Ok(k) => Ok((c.iteration - k) as u8),
    }
}

/// PNI is the header's iteration less the attested failures whose
/// ratification reached quorum, and it is never negative: at most `iteration`
/// slots are examined.
pub proof fn lemma_pni_non_negative(c: Header, checks: Seq<FailedIterationCheck>)
    ensures
        failed_scan(c, checks, failed_slots(c)) matches Ok(k) ==> {
            &&& k <= c.iteration
            &&& pni_result(c, checks) == Ok::<u8, HeaderError>((c.iteration - k) as u8)
            &&& c.iteration - k >= 0
        },
{
    lemma_failed_scan_bounded(c, checks, failed_slots(c));
}

/// An attestation that the local node produced verifies with quorum: both
/// step-votes are present, their signatures verify, and the seats their
/// bitsets select on the re-derived committees reach the super-majority,
/// as they did when the node counted them.
pub proof fn lemma_produced_attestation_verifies(att: Attestation, check: AttestationCheck)
    requires
        !att.validation.is_empty_spec(),
        !att.ratification.is_empty_spec(),
        check.validation.signature_valid,
        check.ratification.signature_valid,
        bitset_seats(check.validation.committee.members_spec(), att.validation.bitset, min_len(check.validation.committee.members_spec().len()))
            >= supermajority_spec(check.validation.committee.size_spec() as int),
        bitset_seats(check.ratification.committee.members_spec(), att.ratification.bitset, min_len(check.ratification.committee.members_spec().len()))
            >= supermajority_spec(check.ratification.committee.size_spec() as int),
    ensures
        att_accepted(att, check) == Ok::<(), HeaderError>(()),
{
    let vc = check.validation.committee;
    let rc = check.ratification.committee;
    vc.lemma_size_fits();
    rc.lemma_size_fits();
    lemma_bitset_seats_bounded(vc.members_spec(), att.validation.bitset, min_len(vc.members_spec().len()));
    lemma_bitset_seats_bounded(rc.members_spec(), att.ratification.bitset, min_len(rc.members_spec().len()));
}

/// Verifies one step of an attestation.
pub fn verify_step_votes(sv: &StepVotes, check: &StepCheck) -> (r: Option<QuorumResult>)
    ensures
        r == step_result(*sv, check.committee, check.signature_valid),
{
    let size = check.committee.size();
    let target = supermajority(size as u64);
    if sv.is_empty() {
        return Some(QuorumResult { total: 0, target_quorum: target });
    }
    if !check.signature_valid {
        return None;
    }
    Some(QuorumResult { total: check.committee.bitset_credits(sv.bitset), target_quorum: target })
}

/// Verifies both steps of an attestation.
pub fn verify_block_att(att: &Attestation, check: &AttestationCheck) -> (r: Result<(QuorumResult, QuorumResult), HeaderError>)
    ensures
        r == att_result(*att, *check),
{
    let v = match verify_step_votes(&att.validation, &check.validation) {
        None => return Err(HeaderError::InvalidValidation),
        Some(v) => v,
    };
    let r = match verify_step_votes(&att.ratification, &check.ratification) {
        None => return Err(HeaderError::InvalidRatification),
        Some(r) => r,
    };
    Ok((v, r))
}

/// Verifies an attestation and requires quorum in both steps.
fn verify_att_quorum(att: &Attestation, check: &AttestationCheck) -> (r: Result<(), HeaderError>)
    ensures
        r == att_accepted(*att, *check),
{
    let (v, r) = verify_block_att(att, check)?;
    if v.quorum_reached() && r.quorum_reached() {
        Ok(())
    } else {
        Err(HeaderError::QuorumNotReached)
    }
}

/// The checks of a candidate header against the tip it extends.
pub struct Validator<'a> {
    prev_header: &'a Header,
}

impl<'a> Validator<'a> {
    pub fn new(prev_header: &'a Header) -> (r: Validator<'a>)
        ensures
            *r.prev() == *prev_header,
    {
        Validator { prev_header }
    }

    pub closed spec fn prev(&self) -> &'a Header {
        self.prev_header
    }

    /// Checks every field but the attestations: version, hash, height, the
    /// timestamp window `[prev + MINIMUM_BLOCK_TIME, now + MARGIN_TIMESTAMP]`,
    /// the link to the previous hash, that the block is not yet in the ledger,
    /// and the seed signature.
    pub fn verify_basic_fields(&self, candidate: &Header, now: u64, already_in_ledger: bool, seed_valid: bool) -> (r: Result<(), HeaderError>)
        ensures
            r == basic_fields_result(*candidate, *self.prev(), now, already_in_ledger, seed_valid),
    {
        let prev = self.prev_header;
        if candidate.version > 0 {
            return Err(HeaderError::UnsupportedVersion);
        }
        if is_zero(&candidate.hash) {
            return Err(HeaderError::EmptyHash);
        }
        if prev.height == u64::MAX || candidate.height != prev.height + 1 {
            return Err(HeaderError::InvalidHeight);
        }
        if prev.timestamp > u64::MAX - MINIMUM_BLOCK_TIME || candidate.timestamp < prev.timestamp + MINIMUM_BLOCK_TIME {
            return Err(HeaderError::BlockTimeTooShort);
        }
        if now <= u64::MAX - MARGIN_TIMESTAMP && candidate.timestamp > now + MARGIN_TIMESTAMP {
            return Err(HeaderError::TimestampInFuture);
        }
        if !bytes_eq(&candidate.prev_block_hash, &prev.hash) {
            return Err(HeaderError::InvalidPrevHash);
        }
        if already_in_ledger {
            return Err(HeaderError::AlreadyExists);
        }
        if !seed_valid {
            return Err(HeaderError::InvalidSeed);
        }
        Ok(())
    }

    /// Whether the candidate's seed is its generator's signature of the
    /// previous block's seed.
    pub fn verify_seed_field(&self, candidate: &Header) -> (r: bool)
        ensures
            r == bls_signature_verifies(candidate.generator_bls_pubkey@, candidate.seed@, self.prev().seed@),
    {
        bls_verify(&candidate.generator_bls_pubkey, &candidate.seed, self.prev_header.seed.as_slice())
    }

    /// Verifies the certificate of the previous block that the candidate
    /// carries; the genesis block has none to verify.
    pub fn verify_prev_block_cert(&self, candidate: &Header, check: &AttestationCheck) -> (r: Result<(), HeaderError>)
        ensures
            r == if self.prev().height == 0 { Ok(()) } else { att_accepted(candidate.prev_block_cert, *check) },
    {
        if self.prev_header.height == 0 {
            return Ok(());
        }
        verify_att_quorum(&candidate.prev_block_cert, check)
    }

    /// Verifies the candidate's own winning attestation.
    pub fn verify_success_att(&self, candidate: &Header, check: &AttestationCheck) -> (r: Result<(), HeaderError>)
        ensures
            r == att_accepted(candidate.att, *check),
    {
        verify_att_quorum(&candidate.att, check)
    }

    /// Verifies the failed iterations below the candidate's iteration and
    /// returns PNI: the iteration less the attested failures whose
    /// ratification reached quorum.
    pub fn verify_failed_iterations(&self, candidate: &Header, checks: &Vec<FailedIterationCheck>) -> (r: Result<u8, HeaderError>)
        requires
            checks@.len() >= failed_slots(*candidate),
        ensures
            r == pni_result(*candidate, checks@),
            r matches Ok(pni) ==> pni <= candidate.iteration,
    {
        let n: usize = if (candidate.iteration as usize) < candidate.failed_iterations.len() {
            candidate.iteration as usize
        } else {
            candidate.failed_iterations.len()
        };
        let mut failed_atts: u8 = 0;
        let mut i: usize = 0;
        while i < n
            invariant
                n as int == failed_slots(*candidate),
                n <= candidate.iteration,
                checks@.len() >= n,
                i <= n,
                failed_scan(*candidate, checks@, i as int) == Ok::<nat, HeaderError>(failed_atts as nat),
                failed_atts <= i,
            decreases n - i,
        {
            match &candidate.failed_iterations[i] {
                None => {},
                Some((att, pk)) => {
                    if att.result.is_success() {
                        proof {
                            lemma_failed_scan_err_sticks(*candidate, checks@, i as int + 1, n as int);
                        }
                        return Err(HeaderError::SuccessInFailedIterations);
                    }
                    if !bytes_eq(pk, &checks[i].expected_generator) {
                        proof {
                            lemma_failed_scan_err_sticks(*candidate, checks@, i as int + 1, n as int);
                        }
                        return Err(HeaderError::InvalidGenerator);
                    }
                    let rat = match verify_block_att(att, &checks[i].att) {
                        Err(e) => {
                            proof {
                                lemma_failed_scan_err_sticks(*candidate, checks@, i as int + 1, n as int);
                            }
                            return Err(e);
                        },
                        Ok((_, rat)) => rat,
                    };
                    if rat.quorum_reached() {
                        failed_atts = failed_atts + 1;
                    }
                },
            }
            i = i + 1;
        }
        Ok(candidate.iteration - failed_atts)
    }

    /// The voters of a block: after its attestation verifies, the members of
    /// its Validation and Ratification committees with their seats summed.
    pub fn get_voters(blk: &Header, check: &AttestationCheck) -> (r: Result<Vec<(PublicKeyBytes, u128)>, HeaderError>)
        requires
            check.validation.committee.members_spec().len() + check.ratification.committee.members_spec().len() <= usize::MAX,
        ensures
            r is Ok <==> att_result(blk.att, *check) is Ok,
            r is Err ==> r == Err::<Vec<(PublicKeyBytes, u128)>, HeaderError>(att_result(blk.att, *check)->Err_0),
            r matches Ok(v) ==> distinct_keys(v@) && forall|k: PublicKeyBytes| #[trigger] voter_credits(v@, k)
                == seats_of(check.validation.committee.members_spec(), k) + seats_of(check.ratification.committee.members_spec(), k),
    {
        match verify_block_att(&blk.att, check) {
            Err(e) => Err(e),
            Ok(_) => Ok(merge_committees(&check.validation.committee, &check.ratification.committee)),
        }
    }

    /// Runs every check on a candidate and returns its PNI.
    pub fn execute_checks(
        &self,
        candidate: &Header,
        now: u64,
        already_in_ledger: bool,
        seed_valid: bool,
        prev_cert_check: &AttestationCheck,
        winner_check: &AttestationCheck,
        failed_checks: &Vec<FailedIterationCheck>,
        disable_winner_att_check: bool,
    ) -> (r: Result<u8, HeaderError>)
        requires
            failed_checks@.len() >= failed_slots(*candidate),
        ensures
            r == match basic_fields_result(*candidate, *self.prev(), now, already_in_ledger, seed_valid) {
                Err(e) => Err(e),
                Ok(_) => match (if self.prev().height == 0 { Ok(()) } else { att_accepted(candidate.prev_block_cert, *prev_cert_check) }) {
                    Err(e) => Err(e),
                    Ok(_) => match (if disable_winner_att_check { Ok(()) } else { att_accepted(candidate.att, *winner_check) }) {
                        Err(e) => Err(e),
                        Ok(_) => pni_result(*candidate, failed_checks@),
                    },
                },
            },
    {
        self.verify_basic_fields(candidate, now, already_in_ledger, seed_valid)?;
        self.verify_prev_block_cert(candidate, prev_cert_check)?;
        if !disable_winner_att_check {
            self.verify_success_att(candidate, winner_check)?;
        }
        self.verify_failed_iterations(candidate, failed_checks)
    }
}

} // verus!

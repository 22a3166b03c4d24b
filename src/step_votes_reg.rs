//! Per-round registry of step-votes: aggregates Validation and Ratification
//! votes per iteration and vote target, and emits a quorum once both steps of a
//! target reach it.
use vstd::prelude::*;
use std::collections::HashMap;
use crate::bytes::{bytes_eq, is_zero, is_zero_spec, push_bytes, Digest, PublicKeyBytes, SignatureBytes};
use crate::ledger::{Attestation, RatificationResult};
use crate::round::RoundUpdate;
use vstd::bytes::{spec_u64_to_le_bytes, u64_to_le_bytes};

verus! {

broadcast use vstd::std_specs::hash::group_hash_axioms;

/// A validator's vote on an iteration's candidate.
#[derive(Debug, Clone, Copy, PartialEq, Eq)]
pub enum Vote {
    NoCandidate,
    Valid(Digest),
    Invalid(Digest),
}

impl Vote {
    /// Whether this is the nil vote (`NoCandidate`).
    pub fn is_nil(&self) -> (r: bool)
        ensures
            r == (*self == Vote::NoCandidate),
    {
        match self {
            Vote::NoCandidate => true,
            _ => false,
        }
    }

    /// Exact equality of two votes.
    pub fn same(&self, other: &Vote) -> (r: bool)
        ensures
            r == (*self == *other),
    {
        match (self, other) {
            (Vote::NoCandidate, Vote::NoCandidate) => true,
            (Vote::Valid(a), Vote::Valid(b)) => bytes_eq(a, b),
            (Vote::Invalid(a), Vote::Invalid(b)) => bytes_eq(a, b),
            _ => false,
        }
    }
}

/// Aggregated signature of a step plus the bitset of committee seats that
/// contributed to it.
#[derive(Debug, Clone, Copy, PartialEq, Eq)]
pub struct StepVotes {
    pub bitset: u64,
    pub aggregate_signature: SignatureBytes,
}

/// The step-votes of a step that collected nothing: no seat, zero signature.
pub open spec fn empty_step_votes() -> StepVotes {
    StepVotes { bitset: 0, aggregate_signature: vstd::array::spec_array_fill_for_copy_type::<u8, 48>(0u8) }
}

impl StepVotes {
    /// No seat and no signature.
    pub open spec fn is_empty_spec(&self) -> bool {
        self.bitset == 0 || is_zero_spec(self.aggregate_signature@)
    }

    pub fn new(bitset: u64, aggregate_signature: SignatureBytes) -> (r: StepVotes)
        ensures
            r.bitset == bitset,
            r.aggregate_signature == aggregate_signature,
    {
        StepVotes { bitset, aggregate_signature }
    }

    /// The step-votes of a step that collected nothing.
    pub fn empty() -> (r: StepVotes)
        ensures
            r == empty_step_votes(),
            r.is_empty_spec(),
    {
        StepVotes { bitset: 0, aggregate_signature: [0u8; 48] }
    }

    pub fn is_empty(&self) -> (r: bool)
        ensures
            r == self.is_empty_spec(),
    {
        self.bitset == 0 || is_zero(&self.aggregate_signature)
    }
}

/// Which step a set of step-votes belongs to.
#[derive(Debug, Clone, Copy, PartialEq, Eq)]
pub enum SvType {
    Validation,
    Ratification,
}

/// The votes collected for one vote target of one iteration.
#[derive(Debug, Clone, Copy, PartialEq, Eq)]
pub struct CertificateInfo {
    pub vote: Vote,
    pub validation: StepVotes,
    pub ratification: StepVotes,
    pub quorum_reached_validation: bool,
    pub quorum_reached_ratification: bool,
    /// Set once a quorum message has been emitted for this target.
    pub quorum_emitted: bool,
}

/// A slot for `vote` that has collected nothing yet.
pub open spec fn fresh_info(vote: Vote) -> CertificateInfo {
    CertificateInfo {
        vote,
        validation: empty_step_votes(),
        ratification: empty_step_votes(),
        quorum_reached_validation: false,
        quorum_reached_ratification: false,
        quorum_emitted: false,
    }
}

/// Both step-votes are present and both steps reached quorum.
pub open spec fn is_ready_spec(ci: CertificateInfo) -> bool {
    &&& !ci.validation.is_empty_spec()
    &&& !ci.ratification.is_empty_spec()
    &&& ci.quorum_reached_validation
    &&& ci.quorum_reached_ratification
}

/// The slot after writing step-votes of one step into it; a quorum flag once
/// set stays set.
pub open spec fn add_sv_spec(ci: CertificateInfo, sv: StepVotes, svt: SvType, quorum_reached: bool) -> CertificateInfo {
    match svt {
        SvType::Validation => CertificateInfo {
            validation: sv,
            quorum_reached_validation: ci.quorum_reached_validation || quorum_reached,
            ..ci
        },
        SvType::Ratification => CertificateInfo {
            ratification: sv,
            quorum_reached_ratification: ci.quorum_reached_ratification || quorum_reached,
            ..ci
        },
    }
}

/// Whether writing into the slot makes it emit its quorum: it is ready now and
/// has not emitted before.
pub open spec fn emits_spec(ci: CertificateInfo, sv: StepVotes, svt: SvType, quorum_reached: bool) -> bool {
    is_ready_spec(add_sv_spec(ci, sv, svt, quorum_reached)) && !ci.quorum_emitted
}

/// The slot after a write, with the emission recorded.
pub open spec fn written_spec(ci: CertificateInfo, sv: StepVotes, svt: SvType, quorum_reached: bool) -> CertificateInfo {
    let n = add_sv_spec(ci, sv, svt, quorum_reached);
    CertificateInfo { quorum_emitted: ci.quorum_emitted || emits_spec(ci, sv, svt, quorum_reached), ..n }
}

impl CertificateInfo {
    pub fn new(vote: Vote) -> (r: CertificateInfo)
        ensures
            r == fresh_info(vote),
    {
        CertificateInfo {
            vote,
            validation: StepVotes::empty(),
            ratification: StepVotes::empty(),
            quorum_reached_validation: false,
            quorum_reached_ratification: false,
            quorum_emitted: false,
        }
    }

    /// Writes the step-votes of one step; returns whether this write makes the
    /// slot emit its quorum (ready, and not emitted before).
    pub fn add_sv(&mut self, sv: StepVotes, svt: SvType, quorum_reached: bool) -> (r: bool)
        ensures
            r == emits_spec(*old(self), sv, svt, quorum_reached),
            *final(self) == written_spec(*old(self), sv, svt, quorum_reached),
    {
        match svt {
            SvType::Validation => {
                self.validation = sv;
                if quorum_reached {
                    self.quorum_reached_validation = true;
                }
            },
            SvType::Ratification => {
                self.ratification = sv;
                if quorum_reached {
                    self.quorum_reached_ratification = true;
                }
            },
        }
        let emit = self.is_ready() && !self.quorum_emitted;
        if emit {
            self.quorum_emitted = true;
        }
        emit
    }

    /// Both step-votes present and both quorums reached.
    pub fn is_ready(&self) -> (r: bool)
        ensures
            r == is_ready_spec(*self),
    {
        self.has_votes() && self.quorum_reached_validation && self.quorum_reached_ratification
    }

    /// Both step-votes are non-empty.
    pub fn has_votes(&self) -> (r: bool)
        ensures
            r == (!self.validation.is_empty_spec() && !self.ratification.is_empty_spec()),
    {
        !self.validation.is_empty() && !self.ratification.is_empty()
    }
}

/// The two slots of one iteration: the first non-nil vote target, and the nil
/// target; plus the iteration's generator.
#[derive(Debug, Clone, Copy, PartialEq, Eq)]
pub struct IterationCerts {
    pub valid: Option<CertificateInfo>,
    pub nil: CertificateInfo,
    pub generator: PublicKeyBytes,
}

pub open spec fn fresh_iteration(generator: PublicKeyBytes) -> IterationCerts {
    IterationCerts { valid: None, nil: fresh_info(Vote::NoCandidate), generator }
}

/// The slot that a vote goes to, or `None` when the valid slot is bound to
/// another target.
pub open spec fn slot_for(ic: IterationCerts, vote: Vote) -> Option<CertificateInfo> {
    if vote == Vote::NoCandidate {
        Some(ic.nil)
    } else {
        match ic.valid {
            None => Some(fresh_info(vote)),
            Some(c) => if c.vote == vote { Some(c) } else { None },
        }
    }
}

/// The iteration's slots after a write of step-votes for `vote`.
pub open spec fn iteration_after(ic: IterationCerts, vote: Vote, sv: StepVotes, svt: SvType, q: bool) -> IterationCerts {
    match slot_for(ic, vote) {
        None => ic,
        Some(ci) => if vote == Vote::NoCandidate {
            IterationCerts { nil: written_spec(ci, sv, svt, q), ..ic }
        } else {
            IterationCerts { valid: Some(written_spec(ci, sv, svt, q)), ..ic }
        },
    }
}

/// Whether a write of step-votes for `vote` makes the iteration emit a quorum.
pub open spec fn iteration_emits(ic: IterationCerts, vote: Vote, sv: StepVotes, svt: SvType, q: bool) -> bool {
    match slot_for(ic, vote) {
        None => false,
        Some(ci) => emits_spec(ci, sv, svt, q),
    }
}

impl IterationCerts {
    pub fn new(generator: PublicKeyBytes) -> (r: IterationCerts)
        ensures
            r == fresh_iteration(generator),
    {
        IterationCerts { valid: None, nil: CertificateInfo::new(Vote::NoCandidate), generator }
    }

    /// Writes step-votes for `vote` into its slot. Returns the slot as it is
    /// after the write when the write makes it emit a quorum.
    pub fn add_for_vote(&mut self, vote: &Vote, sv: StepVotes, svt: SvType, quorum_reached: bool) -> (r: Option<CertificateInfo>)
        ensures
            *final(self) == iteration_after(*old(self), *vote, sv, svt, quorum_reached),
            r.is_some() == iteration_emits(*old(self), *vote, sv, svt, quorum_reached),
            r.is_some() ==> r->0 == written_spec(slot_for(*old(self), *vote)->0, sv, svt, quorum_reached),
    {
        if vote.is_nil() {
            let mut ci = self.nil;
            let emit = ci.add_sv(sv, svt, quorum_reached);
            self.nil = ci;
            return if emit { Some(ci) } else { None };
        }
        let mut ci = match self.valid {
            None => CertificateInfo::new(*vote),
            Some(c) => {
                if !c.vote.same(vote) {
                    return None;
                }
                c
            },
        };
        let emit = ci.add_sv(sv, svt, quorum_reached);
        self.valid = Some(ci);
        if emit { Some(ci) } else { None }
    }
}

/// A quorum reached on one vote target of one iteration, with both
/// aggregated step-votes, signed by the provisioner that assembled it.
#[derive(Debug, Clone, Copy, PartialEq, Eq)]
pub struct QuorumMsg {
    pub pubkey_bls: PublicKeyBytes,
    pub round: u64,
    pub iteration: u8,
    pub prev_block_hash: Digest,
    pub vote: Vote,
    pub validation: StepVotes,
    pub ratification: StepVotes,
    pub signature: SignatureBytes,
}

/// Encoding of a vote: a tag, then the voted hash.
pub open spec fn vote_bytes(v: Vote) -> Seq<u8> {
    match v {
        Vote::NoCandidate => seq![0u8],
        Vote::Valid(h) => seq![1u8] + h@,
        Vote::Invalid(h) => seq![2u8] + h@,
    }
}

/// The bytes a quorum's signature covers: round, iteration, previous block
/// hash and vote.
pub open spec fn quorum_signable(round: u64, iteration: u8, prev_block_hash: Digest, vote: Vote) -> Seq<u8> {
    spec_u64_to_le_bytes(round) + seq![iteration] + prev_block_hash@ + vote_bytes(vote)
}

/// The hash a vote names; the zero hash for `NoCandidate`.
pub open spec fn vote_hash_is_zero(v: Vote) -> bool {
    match v {
        Vote::NoCandidate => true,
        Vote::Valid(h) => is_zero_spec(h@),
        Vote::Invalid(h) => is_zero_spec(h@),
    }
}

impl QuorumMsg {
    /// The bytes the signature covers.
    pub fn signable_bytes(&self) -> (r: Vec<u8>)
        ensures
            r@ == quorum_signable(self.round, self.iteration, self.prev_block_hash, self.vote),
    {
        let mut out = u64_to_le_bytes(self.round);
        out.push(self.iteration);
        push_bytes(&mut out, &self.prev_block_hash);
        match &self.vote {
            Vote::NoCandidate => {
                out.push(0);
            },
            Vote::Valid(h) => {
                out.push(1);
                push_bytes(&mut out, h);
            },
            Vote::Invalid(h) => {
                out.push(2);
                push_bytes(&mut out, h);
            },
        }
        assert(out@ =~= quorum_signable(self.round, self.iteration, self.prev_block_hash, self.vote));
        out
    }

    /// The attestation the quorum carries: a quorum on a valid block ratifies
    /// its success, any other quorum a failure.
    pub fn attestation(&self) -> (r: Attestation)
        ensures
            r.result == (if self.vote is Valid { RatificationResult::Success(self.vote) } else { RatificationResult::Fail(self.vote) }),
            r.validation == self.validation,
            r.ratification == self.ratification,
    {
        let result = match self.vote {
            Vote::Valid(_) => RatificationResult::Success(self.vote),
            _ => RatificationResult::Fail(self.vote),
        };
        Attestation { result, validation: self.validation, ratification: self.ratification }
    }

    /// Whether the quorum may be handed on: signed, with both step-votes,
    /// and for a named block.
    pub fn is_sendable(&self) -> (r: bool)
        ensures
            r == (!is_zero_spec(self.signature@) && !self.validation.is_empty_spec()
                && !self.ratification.is_empty_spec() && !vote_hash_is_zero(self.vote)),
    {
        if is_zero(&self.signature) || self.validation.is_empty() || self.ratification.is_empty() {
            return false;
        }
        match &self.vote {
            Vote::NoCandidate => false,
            Vote::Valid(h) => !is_zero(h),
            Vote::Invalid(h) => !is_zero(h),
        }
    }
}

/// The certificate of a failed iteration: both step-votes of its nil target,
/// with the iteration's generator.
#[derive(Debug, Clone, Copy, PartialEq, Eq)]
pub struct IterationInfo {
    pub validation: StepVotes,
    pub ratification: StepVotes,
    pub generator: PublicKeyBytes,
}

/// Registry of the current round's step-votes, keyed by iteration.
pub struct CertInfoRegistry {
    ru: RoundUpdate,
    cert_list: HashMap<u8, IterationCerts>,
}

/// The slots of an iteration before a write: what is stored, or fresh ones.
pub open spec fn stored_or_fresh(m: Map<u8, IterationCerts>, iteration: u8, generator: PublicKeyBytes) -> IterationCerts {
    if m.contains_key(iteration) { m[iteration] } else { fresh_iteration(generator) }
}

/// The failed-iteration certificate that the registry holds for `iteration`.
pub open spec fn nil_certificate(m: Map<u8, IterationCerts>, iteration: u8) -> Option<IterationInfo> {
    if m.contains_key(iteration) && is_ready_spec(m[iteration].nil) {
        Some(IterationInfo {
            validation: m[iteration].nil.validation,
            ratification: m[iteration].nil.ratification,
            generator: m[iteration].generator,
        })
    } else {
        None
    }
}

/// The registry after one `add_step_votes` call.
pub open spec fn certs_after(
    m: Map<u8, IterationCerts>,
    iteration: u8,
    vote: Vote,
    sv: StepVotes,
    svt: SvType,
    q: bool,
    generator: PublicKeyBytes,
) -> Map<u8, IterationCerts> {
    m.insert(iteration, iteration_after(stored_or_fresh(m, iteration, generator), vote, sv, svt, q))
}

/// Whether an `add_step_votes` call emits a quorum.
pub open spec fn call_emits(
    m: Map<u8, IterationCerts>,
    iteration: u8,
    vote: Vote,
    sv: StepVotes,
    svt: SvType,
    q: bool,
    generator: PublicKeyBytes,
) -> bool {
    iteration_emits(stored_or_fresh(m, iteration, generator), vote, sv, svt, q)
}

/// The target `vote` of `iteration` has already emitted its quorum.
pub open spec fn target_emitted(m: Map<u8, IterationCerts>, iteration: u8, vote: Vote) -> bool {
    &&& m.contains_key(iteration)
    &&& match slot_for(m[iteration], vote) {
        Some(ci) => ci.quorum_emitted,
        None => false,
    }
}

/// A call that emits a quorum for a target marks that target as emitted.
pub proof fn lemma_emission_marks_target(
    m: Map<u8, IterationCerts>,
    iteration: u8,
    vote: Vote,
    sv: StepVotes,
    svt: SvType,
    q: bool,
    generator: PublicKeyBytes,
)
    requires
        call_emits(m, iteration, vote, sv, svt, q, generator),
    ensures
        target_emitted(certs_after(m, iteration, vote, sv, svt, q, generator), iteration, vote),
{
}

/// At most one quorum per vote target and iteration: once a target has
/// emitted, it stays emitted through any later call, and no later call emits
/// it again.
pub proof fn lemma_at_most_one_quorum_per_target(
    m: Map<u8, IterationCerts>,
    iteration: u8,
    target: Vote,
    it2: u8,
    vote: Vote,
    sv: StepVotes,
    svt: SvType,
    q: bool,
    generator: PublicKeyBytes,
)
    requires
        target_emitted(m, iteration, target),
    ensures
        target_emitted(certs_after(m, it2, vote, sv, svt, q, generator), iteration, target),
        (it2 == iteration && vote == target) ==> !call_emits(m, it2, vote, sv, svt, q, generator),
{
}

/// The valid slot of an iteration binds to the first non-nil vote target:
/// once bound it keeps that target through any call, and a call for another
/// non-nil target changes nothing and emits nothing.
pub proof fn lemma_valid_slot_binds_first_target(
    m: Map<u8, IterationCerts>,
    iteration: u8,
    vote: Vote,
    sv: StepVotes,
    svt: SvType,
    q: bool,
    generator: PublicKeyBytes,
)
    ensures
        ({
            let ic = stored_or_fresh(m, iteration, generator);
            let after = certs_after(m, iteration, vote, sv, svt, q, generator)[iteration];
            &&& ic.valid is None && vote != Vote::NoCandidate ==> after.valid is Some
                && after.valid->0.vote == vote
            &&& ic.valid is Some ==> after.valid is Some && after.valid->0.vote == ic.valid->0.vote
            &&& ic.valid is Some && vote != Vote::NoCandidate && vote != ic.valid->0.vote ==> {
                &&& after == ic
                &&& !call_emits(m, iteration, vote, sv, svt, q, generator)
            }
        }),
{
}

impl CertInfoRegistry {
    /// The stored slots, by iteration.
    pub closed spec fn certs(&self) -> Map<u8, IterationCerts> {
        self.cert_list@
    }

    pub closed spec fn round_spec(&self) -> u64 {
        self.ru.round_spec()
    }

    pub closed spec fn prev_block_hash_spec(&self) -> Digest {
        self.ru.hash_spec()
    }

    pub closed spec fn pubkey_spec(&self) -> PublicKeyBytes {
        self.ru.pubkey_spec()
    }

    /// An empty registry for the round of `ru`.
    pub fn new(ru: RoundUpdate) -> (r: CertInfoRegistry)
        ensures
            r.certs() == Map::<u8, IterationCerts>::empty(),
            r.round_spec() == ru.round_spec(),
            r.prev_block_hash_spec() == ru.hash_spec(),
            r.pubkey_spec() == ru.pubkey_spec(),
    {
        CertInfoRegistry { ru, cert_list: HashMap::new() }
    }

    /// Adds the step-votes of one step for `vote` in `iteration`.
    ///
    /// A nil vote goes to the nil slot; any other vote to the valid slot, which
    /// binds to the first non-nil target of the iteration: step-votes for
    /// another target are rejected and change nothing but create the
    /// iteration's entry. Returns the quorum when this write makes the
    /// target's slot ready for the first time.
    pub fn add_step_votes(
        &mut self,
        iteration: u8,
        vote: &Vote,
        sv: StepVotes,
        svt: SvType,
        quorum_reached: bool,
        generator: &PublicKeyBytes,
    ) -> (r: Option<QuorumMsg>)
        ensures
            ({
                let ic = stored_or_fresh(old(self).certs(), iteration, *generator);
                &&& final(self).certs() == certs_after(old(self).certs(), iteration, *vote, sv, svt, quorum_reached, *generator)
                &&& r.is_some() == call_emits(old(self).certs(), iteration, *vote, sv, svt, quorum_reached, *generator)
                &&& r.is_some() ==> {
                    let ci = written_spec(slot_for(ic, *vote)->0, sv, svt, quorum_reached);
                    r->0 == QuorumMsg {
                        pubkey_bls: old(self).pubkey_spec(),
                        round: old(self).round_spec(),
                        iteration,
                        prev_block_hash: old(self).prev_block_hash_spec(),
                        vote: ci.vote,
                        validation: ci.validation,
                        ratification: ci.ratification,
                        signature: r->0.signature,
                    }
                }
            }),
            final(self).round_spec() == old(self).round_spec(),
            final(self).prev_block_hash_spec() == old(self).prev_block_hash_spec(),
            final(self).pubkey_spec() == old(self).pubkey_spec(),
    {
        let mut ic = match self.cert_list.get(&iteration) {
            Some(c) => *c,
            None => IterationCerts::new(*generator),
        };
        let emitted = ic.add_for_vote(vote, sv, svt, quorum_reached);
        self.cert_list.insert(iteration, ic);
        match emitted {
            None => None,
            Some(ci) => Some(self.build_quorum_msg(iteration, ci)),
        }
    }

    /// The slots of an iteration, if any step-votes were added for it.
    pub fn iteration_certs(&self, iteration: u8) -> (r: Option<IterationCerts>)
        ensures
            r == (if self.certs().contains_key(iteration) { Some(self.certs()[iteration]) } else { None::<IterationCerts> }),
    {
        match self.cert_list.get(&iteration) {
            Some(c) => Some(*c),
            None => None,
        }
    }

    /// For each iteration below `to`, the certificate of its nil target when
    /// that target is ready (both step-votes present, both quorums reached).
    pub fn get_nil_certificates(&self, to: u8) -> (r: Vec<Option<IterationInfo>>)
        ensures
            r@.len() == to as int,
            forall|i: int| 0 <= i < to as int ==> r@[i] == nil_certificate(self.certs(), i as u8),
    {
        let mut res: Vec<Option<IterationInfo>> = Vec::new();
        let mut iteration: u8 = 0;
        while iteration < to
            invariant
                iteration <= to,
                res@.len() == iteration as int,
                forall|i: int| 0 <= i < iteration as int ==> res@[i] == nil_certificate(self.certs(), i as u8),
            decreases to - iteration,
        {
            let item = match self.cert_list.get(&iteration) {
                Some(c) => {
                    if c.nil.is_ready() {
                        Some(IterationInfo {
                            validation: c.nil.validation,
                            ratification: c.nil.ratification,
                            generator: c.generator,
                        })
                    } else {
                        None
                    }
                },
                None => None,
            };
            res.push(item);
            iteration = iteration + 1;
        }
        res
    }

    /// The quorum message of a ready slot, signed with the round's key.
    fn build_quorum_msg(&self, iteration: u8, result: CertificateInfo) -> (r: QuorumMsg)
        ensures
            r == (QuorumMsg {
                pubkey_bls: self.pubkey_spec(),
                round: self.round_spec(),
                iteration,
                prev_block_hash: self.prev_block_hash_spec(),
                vote: result.vote,
                validation: result.validation,
                ratification: result.ratification,
                signature: r.signature,
            }),
    {
        let mut msg = QuorumMsg {
            pubkey_bls: self.ru.pubkey(),
            round: self.ru.round(),
            iteration,
            prev_block_hash: self.ru.hash(),
            vote: result.vote,
            validation: result.validation,
            ratification: result.ratification,
            signature: [0u8; 48],
        };
        let bytes = msg.signable_bytes();
        msg.signature = self.ru.sign(bytes.as_slice());
        msg
    }
}

} // verus!

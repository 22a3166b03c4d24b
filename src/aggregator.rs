//! Collection of the votes of one step into step-votes: each committee
//! member's signature is verified and aggregated, its seat marked in the
//! bitset, and the seats counted against the super-majority.
use vstd::prelude::*;
use crate::bytes::{push_bytes, Digest, PublicKeyBytes, SignatureBytes};
use crate::commons::{supermajority, supermajority_spec, ConsensusError};
use crate::committee::{bit_set, bitset_seats, key_pos_from, lemma_bitset_seats_bounded, min_len, Committee};
use crate::signatures::{bls_aggregate, bls_aggregate_of, bls_signature_decodes, bls_signature_verifies, bls_verify};
use crate::step_votes_reg::{vote_bytes, StepVotes, Vote};
use vstd::bytes::{spec_u64_to_le_bytes, u64_to_le_bytes};

verus! {

/// The fields every consensus message binds to.
#[derive(Debug, Clone, Copy, PartialEq, Eq)]
pub struct ConsensusHeader {
    pub round: u64,
    pub iteration: u8,
    pub prev_block_hash: Digest,
}

/// The bytes a voter signs: round, iteration, step, previous block hash and
/// vote.
pub open spec fn vote_signable(h: ConsensusHeader, step: u8, vote: Vote) -> Seq<u8> {
    spec_u64_to_le_bytes(h.round) + seq![h.iteration, step] + h.prev_block_hash@ + vote_bytes(vote)
}

/// The bytes a voter signs.
pub fn vote_signable_bytes(h: &ConsensusHeader, step: u8, vote: &Vote) -> (r: Vec<u8>)
    ensures
        r@ == vote_signable(*h, step, *vote),
{
    let mut out = u64_to_le_bytes(h.round);
    out.push(h.iteration);
    out.push(step);
    push_bytes(&mut out, &h.prev_block_hash);
    match vote {
        Vote::NoCandidate => {
            out.push(0);
        },
        Vote::Valid(x) => {
            out.push(1);
            push_bytes(&mut out, x);
        },
        Vote::Invalid(x) => {
            out.push(2);
            push_bytes(&mut out, x);
        },
    }
    assert(out@ =~= vote_signable(*h, step, *vote));
    out
}

/// Votes collected so far for one target.
#[derive(Debug, Clone, Copy, PartialEq, Eq)]
pub struct AggrEntry {
    pub vote: Vote,
    pub bitset: u64,
    pub credits: u128,
    pub signature: SignatureBytes,
}

proof fn lemma_set_bit(b: u64, k: u64, j: u64)
    by (bit_vector)
    requires
        k < 64,
        j < 64,
    ensures
        ((b | (1u64 << k)) >> j) & 1 == 1 <==> (((b >> j) & 1 == 1) || j == k),
{
}

proof fn lemma_single_bit(k: u64, j: u64)
    by (bit_vector)
    requires
        k < 64,
        j < 64,
    ensures
        ((1u64 << k) >> j) & 1 == 1 <==> j == k,
{
}

/// Setting bit `k` (not set before) adds the seats of member `k`.
proof fn lemma_seats_after_set(members: Seq<(PublicKeyBytes, u64)>, b: u64, k: int, n: int)
    requires
        0 <= k < 64,
        0 <= n <= members.len(),
        n <= 64,
        !bit_set(b, k),
    ensures
        bitset_seats(members, b | (1u64 << (k as u64)), n)
            == bitset_seats(members, b, n) + if k < n { members[k].1 as nat } else { 0nat },
    decreases n,
{
    if n > 0 {
        lemma_seats_after_set(members, b, k, n - 1);
        lemma_set_bit(b, k as u64, (n - 1) as u64);
    }
}

/// A bitset with bit `k` alone selects the seats of member `k`.
proof fn lemma_seats_single(members: Seq<(PublicKeyBytes, u64)>, k: int, n: int)
    requires
        0 <= k < 64,
        0 <= n <= members.len(),
        n <= 64,
    ensures
        bitset_seats(members, 1u64 << (k as u64), n) == if k < n { members[k].1 as nat } else { 0nat },
    decreases n,
{
    if n > 0 {
        lemma_seats_single(members, k, n - 1);
        lemma_single_bit(k as u64, (n - 1) as u64);
    }
}

/// Position of the first entry, at or after `i`, for this vote; -1 if none.
pub open spec fn vote_pos_from(entries: Seq<AggrEntry>, vote: Vote, i: int) -> int
    decreases entries.len() - i,
{
    if i >= entries.len() || i < 0 {
        -1
    } else if entries[i].vote == vote {
        i
    } else {
        vote_pos_from(entries, vote, i + 1)
    }
}

proof fn lemma_vote_pos_range(entries: Seq<AggrEntry>, vote: Vote, i: int)
    requires
        0 <= i,
    ensures
        -1 <= vote_pos_from(entries, vote, i) < entries.len(),
    decreases entries.len() - i,
{
    if i < entries.len() && entries[i].vote != vote {
        lemma_vote_pos_range(entries, vote, i + 1);
    }
}

/// Whether the seats a bitset selects reach the committee's super-majority.
pub open spec fn reaches_quorum(committee: Committee, bitset: u64) -> bool {
    bitset_seats(committee.members_spec(), bitset, min_len(committee.members_spec().len()))
        >= supermajority_spec(committee.size_spec() as int)
}

/// Collected votes of one step, one entry per vote target.
pub struct Aggregator {
    entries: Vec<AggrEntry>,
}

impl Aggregator {
    pub closed spec fn entries(&self) -> Seq<AggrEntry> {
        self.entries@
    }

    /// Each entry counts exactly the seats its bitset selects in `committee`.
    pub open spec fn wf(&self, committee: Committee) -> bool {
        forall|i: int| 0 <= i < self.entries().len() ==> #[trigger] self.entries()[i].credits
            == bitset_seats(committee.members_spec(), self.entries()[i].bitset, min_len(committee.members_spec().len()))
    }

    pub fn new() -> (r: Aggregator)
        ensures
            r.entries() == Seq::<AggrEntry>::empty(),
    {
        Aggregator { entries: Vec::new() }
    }

    fn find(&self, vote: &Vote) -> (r: Option<usize>)
        ensures
            r matches Some(i) ==> i < self.entries().len() && self.entries()[i as int].vote == *vote
                && i as int == vote_pos_from(self.entries(), *vote, 0),
            r is None <==> vote_pos_from(self.entries(), *vote, 0) < 0,
    {
        proof {
            lemma_vote_pos_range(self.entries@, *vote, 0);
        }
        let mut i: usize = 0;
        while i < self.entries.len()
            invariant
                i <= self.entries@.len(),
                vote_pos_from(self.entries@, *vote, 0) == vote_pos_from(self.entries@, *vote, i as int),
            decreases self.entries@.len() - i,
        {
            if self.entries[i].vote.same(vote) {
                return Some(i);
            }
            i = i + 1;
        }
        None
    }

    /// Collects the vote of `voter` for `vote` in step `step` of `header`.
    ///
    /// A voter that is not among the first 64 members of the committee, or a
    /// signature that does not verify, is rejected. A vote already counted
    /// changes nothing (`Ok(None)`). Otherwise the voter's seat is marked and
    /// its signature aggregated, and the step-votes of the target are
    /// returned with whether their seats reach the super-majority.
    pub fn collect_vote(
        &mut self,
        committee: &Committee,
        header: &ConsensusHeader,
        step: u8,
        voter: &PublicKeyBytes,
        vote: &Vote,
        signature: &SignatureBytes,
    ) -> (r: Result<Option<(StepVotes, bool)>, ConsensusError>)
        requires
            old(self).wf(*committee),
        ensures
            final(self).wf(*committee),
            r is Err ==> final(self).entries() == old(self).entries(),
            ({
                let m = committee.members_spec();
                let k = key_pos_from(m, *voter, 0);
                let es = old(self).entries();
                let e = vote_pos_from(es, *vote, 0);
                let sig_ok = bls_signature_verifies(voter@, signature@, vote_signable(*header, step, *vote));
                let bit = 1u64 << (k as u64);
                &&& (k < 0 || k >= 64) ==> r == Err::<Option<(StepVotes, bool)>, ConsensusError>(ConsensusError::NotCommitteeMember)
                &&& 0 <= k < 64 && !sig_ok ==> r == Err::<Option<(StepVotes, bool)>, ConsensusError>(ConsensusError::InvalidSignature)
                &&& 0 <= k < 64 && sig_ok && e < 0 ==> {
                    &&& r == Ok::<Option<(StepVotes, bool)>, ConsensusError>(Some((
                        StepVotes { bitset: bit, aggregate_signature: *signature },
                        reaches_quorum(*committee, bit),
                    )))
                    &&& final(self).entries() == es.push(AggrEntry {
                        vote: *vote,
                        bitset: bit,
                        credits: m[k].1 as u128,
                        signature: *signature,
                    })
                }
                &&& 0 <= k < 64 && sig_ok && e >= 0 && bit_set(es[e].bitset, k) ==> r == Ok::<Option<(StepVotes, bool)>, ConsensusError>(None)
                    && final(self).entries() == es
                &&& 0 <= k < 64 && sig_ok && e >= 0 && !bit_set(es[e].bitset, k)
                    && !(bls_signature_decodes(es[e].signature@) && bls_signature_decodes(signature@))
                    ==> r == Err::<Option<(StepVotes, bool)>, ConsensusError>(ConsensusError::InvalidSignature)
                &&& 0 <= k < 64 && sig_ok && e >= 0 && !bit_set(es[e].bitset, k)
                    && bls_signature_decodes(es[e].signature@) && bls_signature_decodes(signature@) ==> {
                    &&& r matches Ok(Some((sv, q)))
                    &&& sv.bitset == es[e].bitset | bit
                    &&& sv.aggregate_signature@ == bls_aggregate_of(es[e].signature@, signature@)
                    &&& q == reaches_quorum(*committee, sv.bitset)
                    &&& final(self).entries() == es.update(e, AggrEntry {
                        vote: *vote,
                        bitset: sv.bitset,
                        credits: (es[e].credits + m[k].1) as u128,
                        signature: sv.aggregate_signature,
                    })
                }
            }),
    {
        let k = match committee.index_of(voter) {
            Some(k) => k,
            None => return Err(ConsensusError::NotCommitteeMember),
        };
        if k >= 64 {
            return Err(ConsensusError::NotCommitteeMember);
        }
        let msg = vote_signable_bytes(header, step, vote);
        if !bls_verify(voter, signature, msg.as_slice()) {
            return Err(ConsensusError::InvalidSignature);
        }
        let ghost members = committee.members_spec();
        let ghost n = min_len(members.len());
        let seats = committee.members()[k].1;
        let bit: u64 = 1u64 << (k as u64);
        let entry = match self.find(vote) {
            None => {
                proof {
                    lemma_seats_single(members, k as int, n);
                }
                let e = AggrEntry { vote: *vote, bitset: bit, credits: seats as u128, signature: *signature };
                proof {
                    lemma_single_bit(k as u64, k as u64);
                    assert(bit_set(e.bitset, k as int));
                }
                self.entries.push(e);
                e
            },
            Some(i) => {
                let old_e = self.entries[i];
                if (old_e.bitset >> (k as u64)) & 1 == 1 {
                    return Ok(None);
                }
                let agg = match bls_aggregate(&old_e.signature, signature) {
                    Some(s) => s,
                    None => return Err(ConsensusError::InvalidSignature),
                };
                proof {
                    lemma_seats_after_set(members, old_e.bitset, k as int, n);
                    lemma_bitset_seats_bounded(members, old_e.bitset | bit, n);
                    assert(n * (u64::MAX as int) <= u128::MAX) by (nonlinear_arith)
                        requires n <= 64;
                }
                let e = AggrEntry {
                    vote: *vote,
                    bitset: old_e.bitset | bit,
                    credits: old_e.credits + seats as u128,
                    signature: agg,
                };
                proof {
                    lemma_set_bit(old_e.bitset, k as u64, k as u64);
                    assert(bit_set(e.bitset, k as int));
                }
                let ghost before = self.entries@;
                self.entries.set(i, e);
                proof {
                    assert forall|x: int| 0 <= x < self.entries().len() implies #[trigger] self.entries()[x].credits
                        == bitset_seats(members, self.entries()[x].bitset, n) by {
                        if x != i {
                            assert(self.entries()[x] == before[x]);
                        }
                    }
                }
                e
            },
        };
        let target = supermajority(committee.size() as u64);
        let q = entry.credits >= target as u128;
        Ok(Some((StepVotes { bitset: entry.bitset, aggregate_signature: entry.signature }, q)))
    }
}

} // verus!

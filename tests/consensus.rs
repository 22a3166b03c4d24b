use dusk_bls12_381_sign::{PublicKey, SecretKey};
use dusk_bytes::Serializable;
use dusk_node_core::commons::{
    next_step_timeout, quorum_reached, step_exclusion, supermajority, ConsensusError, IterCounter,
    StepName, CONSENSUS_MAX_ITER,
};
use dusk_node_core::chain::{BlockInfo, Chain};
use dusk_node_core::committee::{Committee, Provisioner};
use dusk_node_core::fsm::SimpleFSM;
use dusk_node_core::iteration_ctx::IterationCtx;
use dusk_node_core::vm::{GasBudget, GasError};
use dusk_node_core::ledger::{Attestation, Header, RatificationResult};
use dusk_node_core::aggregator::{vote_signable_bytes, ConsensusHeader};
use dusk_node_core::proposal::{candidate_signature_valid, verify_new_block};
use dusk_node_core::round::{cast_vote, decide_vote, needs_vst, CandidateInfo, RoundUpdate, VerificationOutput};
use dusk_node_core::step_votes_reg::{CertInfoRegistry, StepVotes, SvType, Vote};

fn secret_key() -> SecretKey {
    let mut b = [0u8; 32];
    b[0] = 7;
    SecretKey::from_bytes(&b).unwrap()
}

fn pubkey_bytes(sk: &SecretKey) -> [u8; 96] {
    PublicKey::from(sk).to_bytes()
}

fn hash(n: u8) -> [u8; 32] {
    let mut h = [0u8; 32];
    h[0] = n;
    h[31] = 0xaa;
    h
}

fn sv(bits: u32) -> StepVotes {
    let bitset = if bits >= 64 { u64::MAX } else { (1u64 << bits) - 1 };
    StepVotes::new(bitset, [3u8; 48])
}

fn empty_att() -> Attestation {
    Attestation { result: RatificationResult::Fail(Vote::NoCandidate), validation: StepVotes::empty(), ratification: StepVotes::empty() }
}

fn header(height: u64, timestamp: u64, prev: [u8; 32], h: [u8; 32]) -> Header {
    Header {
        version: 0,
        height,
        timestamp,
        gas_limit: 1000,
        prev_block_hash: prev,
        seed: [1u8; 48],
        state_hash: hash(200),
        event_hash: hash(201),
        generator_bls_pubkey: [0u8; 96],
        txroot: hash(202),
        iteration: 0,
        hash: h,
        att: empty_att(),
        prev_block_cert: empty_att(),
        failed_iterations: vec![],
    }
}

fn round_update(height: u64) -> RoundUpdate {
    let sk = secret_key();
    RoundUpdate::new(pubkey_bytes(&sk), sk, &header(height, 100, hash(1), hash(2)))
}

#[test]
fn supermajority_of_64_is_43() {
    assert_eq!(supermajority(64), 43);
    assert_eq!(supermajority(3), 2);
    assert_eq!(supermajority(0), 0);
    assert!(quorum_reached(43, 64));
    assert!(!quorum_reached(42, 64));
}

#[test]
fn step_timeout_doubles_up_to_ceiling() {
    assert_eq!(next_step_timeout(1000, 10_000), 2000);
    assert_eq!(next_step_timeout(6000, 10_000), 10_000);
    assert_eq!(next_step_timeout(5000, 10_000), 10_000);
}

#[test]
fn last_iteration_runs_then_max_iteration_fails() {
    let mut it: u8 = CONSENSUS_MAX_ITER - 2;
    assert_eq!(it.next(), Ok(CONSENSUS_MAX_ITER - 1));
    assert_eq!(it, CONSENSUS_MAX_ITER - 1);
    assert_eq!(it.next(), Err(ConsensusError::MaxIterationReached));
    assert_eq!(it, CONSENSUS_MAX_ITER - 1);
}

#[test]
fn steps_map_to_iterations() {
    let it: u8 = 4;
    assert_eq!(it.step_from_name(StepName::Proposal), 12);
    assert_eq!(it.step_from_name(StepName::Ratification), 14);
    assert_eq!(it.step_from_pos(1), 13);
    assert_eq!(<u8 as IterCounter>::from_step(14), 4);
    assert_eq!(13u8.to_step_name(), StepName::Validation);
    assert_eq!(12u8.to_step_name(), StepName::Proposal);
    assert_eq!(step_exclusion(12, Some([9u8; 96])), None);
    assert_eq!(step_exclusion(13, Some([9u8; 96])), Some([9u8; 96]));
}

#[test]
fn happy_path_emits_one_quorum() {
    let mut reg = CertInfoRegistry::new(round_update(0));
    let b = hash(9);
    let gen = [5u8; 96];
    let q = quorum_reached(43, 64);
    assert!(reg.add_step_votes(0, &Vote::Valid(b), sv(43), SvType::Validation, q, &gen).is_none());
    let msg = reg.add_step_votes(0, &Vote::Valid(b), sv(43), SvType::Ratification, q, &gen).expect("quorum");
    assert_eq!(msg.round, 1);
    assert_eq!(msg.iteration, 0);
    assert_eq!(msg.vote, Vote::Valid(b));
    assert_eq!(msg.prev_block_hash, hash(2));
    assert_eq!(msg.validation, sv(43));
    assert!(msg.signature != [0u8; 48]);
    assert!(msg.is_sendable());
    // The same target never emits twice.
    assert!(reg.add_step_votes(0, &Vote::Valid(b), sv(44), SvType::Ratification, q, &gen).is_none());
}

#[test]
fn quorum_not_reached_emits_nothing() {
    let mut reg = CertInfoRegistry::new(round_update(0));
    let b = hash(9);
    let gen = [5u8; 96];
    assert!(reg.add_step_votes(0, &Vote::Valid(b), sv(42), SvType::Validation, quorum_reached(42, 64), &gen).is_none());
    assert!(reg.add_step_votes(0, &Vote::Valid(b), sv(43), SvType::Ratification, true, &gen).is_none());
}

#[test]
fn second_vote_target_is_rejected() {
    let mut reg = CertInfoRegistry::new(round_update(0));
    let gen = [5u8; 96];
    assert!(reg.add_step_votes(1, &Vote::Valid(hash(9)), sv(43), SvType::Validation, true, &gen).is_none());
    assert!(reg.add_step_votes(1, &Vote::Valid(hash(8)), sv(43), SvType::Validation, true, &gen).is_none());
    assert!(reg.add_step_votes(1, &Vote::Valid(hash(8)), sv(43), SvType::Ratification, true, &gen).is_none());
    let ic = reg.iteration_certs(1).unwrap();
    let valid = ic.valid.unwrap();
    assert_eq!(valid.vote, Vote::Valid(hash(9)));
    assert_eq!(valid.ratification, StepVotes::empty());
    // The first target still completes.
    assert!(reg.add_step_votes(1, &Vote::Valid(hash(9)), sv(43), SvType::Ratification, true, &gen).is_some());
}

#[test]
fn failed_iteration_gives_nil_certificate() {
    let mut reg = CertInfoRegistry::new(round_update(0));
    let gen0 = [5u8; 96];
    let q = quorum_reached(64, 64);
    assert!(reg.add_step_votes(0, &Vote::NoCandidate, sv(64), SvType::Validation, q, &gen0).is_none());
    let msg = reg.add_step_votes(0, &Vote::NoCandidate, sv(64), SvType::Ratification, q, &gen0).expect("nil quorum");
    assert_eq!(msg.vote, Vote::NoCandidate);
    assert!(!msg.is_sendable());
    // Iteration 1 succeeds; the block built there carries iteration 0's certificate.
    let certs = reg.get_nil_certificates(1);
    assert_eq!(certs.len(), 1);
    let info = certs[0].unwrap();
    assert_eq!(info.generator, gen0);
    assert_eq!(info.validation, sv(64));
    assert_eq!(info.ratification, sv(64));
    let none_yet = reg.get_nil_certificates(3);
    assert_eq!(none_yet.len(), 3);
    assert!(none_yet[1].is_none() && none_yet[2].is_none());
}

fn provisioners() -> Vec<Provisioner> {
    vec![
        Provisioner { key: [1u8; 96], stake: 10 },
        Provisioner { key: [2u8; 96], stake: 20 },
        Provisioner { key: [3u8; 96], stake: 30 },
    ]
}

#[test]
fn sortition_picks_stake_owners() {
    // Stake ranges: [0,10) -> 1, [10,30) -> 2, [30,60) -> 3.
    let draws = vec![5, 10, 29, 30, 59, 60, 125];
    let c = Committee::new(&provisioners(), None, &draws);
    assert_eq!(c.size(), 7);
    // 60 % 60 = 0 -> 1; 125 % 60 = 5 -> 1.
    assert_eq!(c.members(), &vec![([1u8; 96], 3), ([2u8; 96], 2), ([3u8; 96], 2)]);
    assert!(c.is_member(&[2u8; 96]));
    assert!(!c.is_member(&[4u8; 96]));
}

#[test]
fn sortition_excludes_generator() {
    // Without provisioner 2 the ranges are [0,10) -> 1, [10,40) -> 3.
    let draws = vec![5, 15, 39, 40];
    let c = Committee::new(&provisioners(), Some([2u8; 96]), &draws);
    assert_eq!(c.members(), &vec![([1u8; 96], 2), ([3u8; 96], 2)]);
    assert!(!c.is_member(&[2u8; 96]));
}

#[test]
fn sortition_is_deterministic() {
    let draws = vec![3, 17, 44, 59, 1, 33];
    let a = Committee::new(&provisioners(), Some([1u8; 96]), &draws);
    let b = Committee::new(&provisioners(), Some([1u8; 96]), &draws);
    assert_eq!(a.members(), b.members());
}

#[test]
fn sortition_without_stake_is_empty() {
    let ps = vec![Provisioner { key: [1u8; 96], stake: 10 }];
    let c = Committee::new(&ps, Some([1u8; 96]), &vec![1, 2]);
    assert_eq!(c.len(), 0);
}

#[test]
fn bitset_selects_member_seats() {
    let c = Committee::new(&provisioners(), None, &vec![5, 10, 29, 30, 59, 60, 125]);
    assert_eq!(c.bitset_credits(0b001), 3);
    assert_eq!(c.bitset_credits(0b110), 4);
    assert_eq!(c.bitset_credits(0b111), 7);
    assert_eq!(c.bitset_credits(0), 0);
}

fn candidate(h: [u8; 32], key: [u8; 96]) -> CandidateInfo {
    CandidateInfo { hash: h, state_hash: hash(50), event_hash: hash(51), generator_bls_pubkey: key }
}

#[test]
fn vote_follows_state_transition() {
    let key = pubkey_bytes(&secret_key());
    let c = candidate(hash(9), key);
    let ok = VerificationOutput { state_root: hash(50), event_hash: hash(51) };
    let bad = VerificationOutput { state_root: hash(52), event_hash: hash(51) };
    assert_eq!(decide_vote(&c, &[0u8; 32], true, Some(ok)), Vote::Valid(hash(9)));
    assert_eq!(decide_vote(&c, &[0u8; 32], true, Some(bad)), Vote::NoCandidate);
    assert_eq!(decide_vote(&c, &[0u8; 32], true, None), Vote::NoCandidate);
    assert_eq!(decide_vote(&c, &[0u8; 32], false, Some(ok)), Vote::NoCandidate);
    assert_eq!(decide_vote(&c, &hash(9), false, None), Vote::Valid(hash(9)));
    assert_eq!(decide_vote(&candidate([0u8; 32], key), &[0u8; 32], true, Some(ok)), Vote::NoCandidate);
}

#[test]
fn cast_vote_checks_generator_key() {
    let key = pubkey_bytes(&secret_key());
    let c = candidate(hash(9), key);
    assert!(needs_vst(&c, &[0u8; 32]));
    assert!(!needs_vst(&c, &hash(9)));
    let ok = VerificationOutput { state_root: hash(50), event_hash: hash(51) };
    let mut verified = [0u8; 32];
    assert_eq!(cast_vote(&c, &mut verified, Some(ok)), Vote::Valid(hash(9)));
    assert_eq!(verified, hash(9));
    // Bytes that are no public key give a nil vote and keep the verified hash.
    let bad = candidate(hash(10), [0xffu8; 96]);
    assert!(!needs_vst(&bad, &verified));
    assert_eq!(cast_vote(&bad, &mut verified, Some(ok)), Vote::NoCandidate);
    assert_eq!(verified, hash(9));
}

#[test]
fn round_update_follows_tip() {
    let ru = round_update(41);
    assert_eq!(ru.round(), 42);
    assert_eq!(ru.hash(), hash(2));
    assert_eq!(ru.timestamp(), 100);
    assert_eq!(ru.seed(), [1u8; 48]);
    assert_eq!(*ru.cert(), empty_att());
    let s1 = ru.sign(b"abc");
    let s2 = ru.sign(b"abd");
    assert!(s1 != s2);
}

#[test]
fn candidate_message_checks() {
    let c = Committee::new(&provisioners(), None, &vec![5]);
    let h = header(5, 100, hash(1), hash(2));
    let root = hash(202);
    let member = [1u8; 96];
    assert_eq!(verify_new_block(true, true, &hash(1), &member, &h, &root, &c), Ok(()));
    assert_eq!(verify_new_block(false, true, &hash(1), &member, &h, &root, &c), Err(ConsensusError::InvalidMsgType));
    assert_eq!(verify_new_block(true, false, &hash(1), &member, &h, &root, &c), Err(ConsensusError::InvalidSignature));
    assert_eq!(verify_new_block(true, true, &hash(3), &member, &h, &root, &c), Err(ConsensusError::InvalidBlockHash));
    assert_eq!(verify_new_block(true, true, &hash(1), &member, &h, &hash(7), &c), Err(ConsensusError::InvalidBlock));
    assert_eq!(verify_new_block(true, true, &hash(1), &[2u8; 96], &h, &root, &c), Err(ConsensusError::NotCommitteeMember));
}

#[test]
fn happy_path_block_becomes_tip() {
    // Round 1 follows genesis.
    let genesis = BlockInfo { height: 0, hash: hash(2), prev_block_hash: [0u8; 32], iteration: 0, state_hash: hash(60), att: None };
    let mut fsm = SimpleFSM::new(Chain::new(genesis));
    let mut reg = CertInfoRegistry::new(round_update(0));
    let b = BlockInfo { height: 1, hash: hash(9), prev_block_hash: hash(2), iteration: 0, state_hash: hash(61), att: None };
    let gen = [5u8; 96];
    let q = quorum_reached(43, 64);
    assert!(reg.add_step_votes(0, &Vote::Valid(b.hash), sv(43), SvType::Validation, q, &gen).is_none());
    let quorum = reg.add_step_votes(0, &Vote::Valid(b.hash), sv(43), SvType::Ratification, q, &gen).unwrap();
    let att = quorum.attestation();
    assert_eq!(att.result, RatificationResult::Success(Vote::Valid(b.hash)));
    let res = fsm.on_quorum_msg(att, quorum.round, Some(b), None, 1000, false);
    assert_eq!(res.block.unwrap().hash, b.hash);
    assert_eq!(fsm.chain().tip().hash, b.hash);
    assert_eq!(fsm.chain().height(), 1);
}

#[test]
fn gas_budget_discards_what_does_not_fit() {
    let mut g = GasBudget::new(100);
    assert_eq!(g.charge_or_discard(60, 2), Ok(true));
    assert_eq!(g.charge_or_discard(50, 2), Ok(false));
    assert_eq!(g.charge_or_discard(40, 3), Ok(true));
    assert_eq!(g.gas_left(), 0);
    assert_eq!(g.dusk_spent(), 240);
    assert!(g.exhausted());
}

#[test]
fn gas_budget_charges_or_fails() {
    let mut g = GasBudget::new(100);
    assert_eq!(g.charge(30, 1), Ok(()));
    assert_eq!(g.charge(71, 1), Err(GasError::OutOfGas));
    assert_eq!(g.gas_left(), 70);
    assert_eq!(g.charge(2, u64::MAX), Err(GasError::FeeOverflow));
    assert_eq!(g.dusk_spent(), 30);
    assert!(!g.exhausted());
}

#[test]
fn iteration_driver_runs_steps_in_order() {
    let mut ctx = IterationCtx::new(1000, 2000, 3000, 5000);
    assert_eq!((ctx.iteration(), ctx.step()), (0, StepName::Proposal));
    assert_eq!(ctx.advance(), Ok(()));
    assert_eq!(ctx.step(), StepName::Validation);
    assert_eq!(ctx.step_number(), 1);
    assert_eq!(ctx.advance(), Ok(()));
    assert_eq!(ctx.advance(), Ok(()));
    assert_eq!((ctx.iteration(), ctx.step()), (1, StepName::Proposal));
    assert_eq!(ctx.step_number(), 3);
}

#[test]
fn step_timeouts_double_within_round() {
    let mut ctx = IterationCtx::new(1000, 2000, 3000, 5000);
    ctx.on_timeout(StepName::Validation);
    assert_eq!(ctx.get_timeout(StepName::Validation), 4000);
    ctx.on_timeout(StepName::Validation);
    assert_eq!(ctx.get_timeout(StepName::Validation), 5000);
    assert_eq!(ctx.get_timeout(StepName::Proposal), 1000);
    assert_eq!(ctx.get_timeout(StepName::Ratification), 3000);
    // A new round starts from the base timeouts again.
    let fresh = IterationCtx::new(1000, 2000, 3000, 5000);
    assert_eq!(fresh.get_timeout(StepName::Validation), 2000);
}

#[test]
fn last_iteration_runs_then_round_fails() {
    let mut ctx = IterationCtx::new(1, 1, 1, 10);
    for _ in 0..(CONSENSUS_MAX_ITER as usize - 1) * 3 {
        assert_eq!(ctx.advance(), Ok(()));
    }
    assert_eq!((ctx.iteration(), ctx.step()), (CONSENSUS_MAX_ITER - 1, StepName::Proposal));
    assert_eq!(ctx.advance(), Ok(()));
    assert_eq!(ctx.advance(), Ok(()));
    assert_eq!(ctx.advance(), Err(ConsensusError::MaxIterationReached));
    assert_eq!((ctx.iteration(), ctx.step()), (CONSENSUS_MAX_ITER - 1, StepName::Ratification));
}

#[test]
fn candidate_signature_is_checked() {
    let sk = secret_key();
    let pk = PublicKey::from(&sk);
    let h = header(5, 100, hash(1), hash(2));
    let ch = ConsensusHeader { round: 5, iteration: 0, prev_block_hash: hash(1) };
    let sig = sk.sign(&pk, &vote_signable_bytes(&ch, 0, &Vote::Valid(h.hash))).to_bytes();
    assert!(candidate_signature_valid(&ch, 0, &pk.to_bytes(), &h, &sig));
    assert!(!candidate_signature_valid(&ch, 1, &pk.to_bytes(), &h, &sig));
    let other = header(5, 100, hash(1), hash(3));
    assert!(!candidate_signature_valid(&ch, 0, &pk.to_bytes(), &other, &sig));
}

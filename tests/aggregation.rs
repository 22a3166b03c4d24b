use dusk_bls12_381_sign::{PublicKey, SecretKey, Signature};
use dusk_bytes::Serializable;
use dusk_node_core::aggregator::{vote_signable_bytes, Aggregator, ConsensusHeader};
use dusk_node_core::commons::ConsensusError;
use dusk_node_core::header_validation::{verify_step_votes, StepCheck};
use dusk_node_core::step_votes_reg::StepVotes;
use dusk_node_core::committee::{Committee, Provisioner};
use dusk_node_core::step_votes_reg::Vote;

fn keys(n: u8) -> Vec<(SecretKey, [u8; 96])> {
    (1..=n)
        .map(|i| {
            let mut b = [0u8; 32];
            b[0] = i;
            let sk = SecretKey::from_bytes(&b).unwrap();
            let pk = PublicKey::from(&sk).to_bytes();
            (sk, pk)
        })
        .collect()
}

fn header() -> ConsensusHeader {
    ConsensusHeader { round: 7, iteration: 0, prev_block_hash: [9u8; 32] }
}

fn sign(sk: &SecretKey, step: u8, vote: &Vote) -> [u8; 48] {
    let pk = PublicKey::from(sk);
    sk.sign(&pk, &vote_signable_bytes(&header(), step, vote)).to_bytes()
}

/// Three members holding 1, 1 and 2 seats of a committee of four.
fn setup() -> (Vec<(SecretKey, [u8; 96])>, Committee) {
    let ks = keys(3);
    let ps: Vec<Provisioner> = ks.iter().map(|(_, pk)| Provisioner { key: *pk, stake: 10 }).collect();
    let c = Committee::new(&ps, None, &vec![0, 10, 20, 25]);
    (ks, c)
}

#[test]
fn votes_reach_quorum_at_supermajority() {
    let (ks, c) = setup();
    let vote = Vote::Valid([5u8; 32]);
    let mut agg = Aggregator::new();
    // Quorum of 4 seats is 3.
    let first = sign(&ks[2].0, 1, &vote);
    let (sv, q) = agg.collect_vote(&c, &header(), 1, &ks[2].1, &vote, &first).unwrap().unwrap();
    assert_eq!(sv.bitset, 0b100);
    assert_eq!(sv.aggregate_signature, first);
    assert!(!q);
    let second = sign(&ks[0].0, 1, &vote);
    let (sv, q) = agg.collect_vote(&c, &header(), 1, &ks[0].1, &vote, &second).unwrap().unwrap();
    assert_eq!(sv.bitset, 0b101);
    assert!(q);
    let expected = Signature::from_bytes(&first).unwrap().aggregate(&[Signature::from_bytes(&second).unwrap()]);
    assert_eq!(sv.aggregate_signature, expected.to_bytes());
    assert!(c.bitset_credits(sv.bitset) >= 3);
}

#[test]
fn duplicate_vote_changes_nothing() {
    let (ks, c) = setup();
    let vote = Vote::NoCandidate;
    let mut agg = Aggregator::new();
    let sig = sign(&ks[1].0, 2, &vote);
    assert!(agg.collect_vote(&c, &header(), 2, &ks[1].1, &vote, &sig).unwrap().is_some());
    assert_eq!(agg.collect_vote(&c, &header(), 2, &ks[1].1, &vote, &sig), Ok(None));
}

#[test]
fn targets_are_counted_apart() {
    let (ks, c) = setup();
    let a = Vote::Valid([5u8; 32]);
    let b = Vote::NoCandidate;
    let mut agg = Aggregator::new();
    agg.collect_vote(&c, &header(), 1, &ks[2].1, &a, &sign(&ks[2].0, 1, &a)).unwrap();
    let (sv, q) = agg.collect_vote(&c, &header(), 1, &ks[0].1, &b, &sign(&ks[0].0, 1, &b)).unwrap().unwrap();
    assert_eq!(sv.bitset, 0b001);
    assert!(!q);
}

#[test]
fn bad_votes_are_rejected() {
    let (ks, c) = setup();
    let vote = Vote::Valid([5u8; 32]);
    let mut agg = Aggregator::new();
    // Signed for another step.
    assert_eq!(
        agg.collect_vote(&c, &header(), 1, &ks[0].1, &vote, &sign(&ks[0].0, 2, &vote)),
        Err(ConsensusError::InvalidSignature)
    );
    let outsider = keys(4).pop().unwrap();
    assert_eq!(
        agg.collect_vote(&c, &header(), 1, &outsider.1, &vote, &sign(&outsider.0, 1, &vote)),
        Err(ConsensusError::NotCommitteeMember)
    );
}

fn raw_sign(sk: &SecretKey, step: u8, vote: &Vote) -> Signature {
    let pk = PublicKey::from(sk);
    sk.sign(&pk, &vote_signable_bytes(&header(), step, vote))
}

#[test]
fn step_check_verifies_aggregate_of_selected_members() {
    let (ks, c) = setup();
    let vote = Vote::Valid([5u8; 32]);
    let agg = raw_sign(&ks[0].0, 1, &vote).aggregate(&[raw_sign(&ks[2].0, 1, &vote)]);
    let sv = StepVotes::new(0b101, agg.to_bytes());
    let check = StepCheck::new(c, &header(), 1, &vote, &sv);
    assert!(check.signature_valid);
    let q = verify_step_votes(&sv, &check).unwrap();
    assert_eq!(q.total, 3);
    assert!(q.quorum_reached());
    // The same signature does not cover another selection, nor another step.
    let (_, c2) = setup();
    assert!(!StepCheck::new(c2, &header(), 1, &vote, &StepVotes::new(0b011, agg.to_bytes())).signature_valid);
    let (_, c3) = setup();
    assert!(!StepCheck::new(c3, &header(), 2, &vote, &sv).signature_valid);
}

use dusk_bls12_381_sign::{PublicKey, SecretKey};
use dusk_bytes::Serializable;
use dusk_node_core::committee::{merge_committees, Committee, Provisioner};
use dusk_node_core::header_validation::{
    verify_block_att, verify_step_votes, AttestationCheck, FailedIterationCheck, HeaderError, StepCheck, Validator,
    MARGIN_TIMESTAMP, MINIMUM_BLOCK_TIME,
};
use dusk_node_core::ledger::{Attestation, Header, RatificationResult};
use dusk_node_core::mempool::{MempoolSrv, Params, Transaction, TransactionEvent, TxAcceptanceError};
use dusk_node_core::step_votes_reg::{StepVotes, Vote};

fn hash(n: u8) -> [u8; 32] {
    let mut h = [0u8; 32];
    h[0] = n;
    h[31] = 0x55;
    h
}

fn empty_att() -> Attestation {
    Attestation { result: RatificationResult::Fail(Vote::NoCandidate), validation: StepVotes::empty(), ratification: StepVotes::empty() }
}

fn header(height: u64, timestamp: u64, prev: [u8; 32], h: [u8; 32]) -> Header {
    Header {
        version: 0,
        height,
        timestamp,
        gas_limit: 1000,
        prev_block_hash: prev,
        seed: [1u8; 48],
        state_hash: hash(200),
        event_hash: hash(201),
        generator_bls_pubkey: [0u8; 96],
        txroot: hash(202),
        iteration: 0,
        hash: h,
        att: empty_att(),
        prev_block_cert: empty_att(),
        failed_iterations: vec![],
    }
}

const NOW: u64 = 1_000_000;

fn prev() -> Header {
    header(9, NOW - 100, hash(8), hash(9))
}

#[test]
fn minimum_block_time_boundary() {
    let p = prev();
    let v = Validator::new(&p);
    let ok = header(10, p.timestamp + MINIMUM_BLOCK_TIME, hash(9), hash(10));
    assert_eq!(v.verify_basic_fields(&ok, NOW, false, true), Ok(()));
    let early = header(10, p.timestamp + MINIMUM_BLOCK_TIME - 1, hash(9), hash(10));
    assert_eq!(v.verify_basic_fields(&early, NOW, false, true), Err(HeaderError::BlockTimeTooShort));
}

#[test]
fn future_timestamp_boundary() {
    let p = prev();
    let v = Validator::new(&p);
    let ok = header(10, NOW + MARGIN_TIMESTAMP, hash(9), hash(10));
    assert_eq!(v.verify_basic_fields(&ok, NOW, false, true), Ok(()));
    let late = header(10, NOW + MARGIN_TIMESTAMP + 1, hash(9), hash(10));
    assert_eq!(v.verify_basic_fields(&late, NOW, false, true), Err(HeaderError::TimestampInFuture));
}

#[test]
fn basic_field_errors() {
    let p = prev();
    let v = Validator::new(&p);
    let mut h = header(10, NOW, hash(9), hash(10));
    h.version = 1;
    assert_eq!(v.verify_basic_fields(&h, NOW, false, true), Err(HeaderError::UnsupportedVersion));
    let h = header(10, NOW, hash(9), [0u8; 32]);
    assert_eq!(v.verify_basic_fields(&h, NOW, false, true), Err(HeaderError::EmptyHash));
    let h = header(11, NOW, hash(9), hash(10));
    assert_eq!(v.verify_basic_fields(&h, NOW, false, true), Err(HeaderError::InvalidHeight));
    let h = header(10, NOW, hash(7), hash(10));
    assert_eq!(v.verify_basic_fields(&h, NOW, false, true), Err(HeaderError::InvalidPrevHash));
    let h = header(10, NOW, hash(9), hash(10));
    assert_eq!(v.verify_basic_fields(&h, NOW, true, true), Err(HeaderError::AlreadyExists));
    assert_eq!(v.verify_basic_fields(&h, NOW, false, false), Err(HeaderError::InvalidSeed));
}

fn committee_of(seats: u64) -> Committee {
    // One provisioner per ten seats of stake; each draw lands on the first.
    let ps = vec![Provisioner { key: [1u8; 96], stake: 10 }, Provisioner { key: [2u8; 96], stake: 10 }];
    let draws: Vec<u64> = (0..seats).map(|i| if i % 2 == 0 { 0 } else { 10 }).collect();
    Committee::new(&ps, None, &draws)
}

fn check(seats: u64, sig_ok: bool) -> AttestationCheck {
    AttestationCheck {
        validation: StepCheck { committee: committee_of(seats), signature_valid: sig_ok },
        ratification: StepCheck { committee: committee_of(seats), signature_valid: sig_ok },
    }
}

fn sv(bitset: u64) -> StepVotes {
    StepVotes::new(bitset, [3u8; 48])
}

#[test]
fn step_votes_count_selected_seats() {
    // 64 seats: member 0 and member 1 hold 32 each; quorum is 43.
    let c = StepCheck { committee: committee_of(64), signature_valid: true };
    let both = verify_step_votes(&sv(0b11), &c).unwrap();
    assert_eq!(both.total, 64);
    assert_eq!(both.target_quorum, 43);
    assert!(both.quorum_reached());
    let one = verify_step_votes(&sv(0b01), &c).unwrap();
    assert_eq!(one.total, 32);
    assert!(!one.quorum_reached());
    let empty = verify_step_votes(&StepVotes::empty(), &c).unwrap();
    assert_eq!(empty.total, 0);
    let bad = StepCheck { committee: committee_of(64), signature_valid: false };
    assert!(verify_step_votes(&sv(0b11), &bad).is_none());
}

#[test]
fn produced_attestation_verifies_with_quorum() {
    let att = Attestation { result: RatificationResult::Success(Vote::Valid(hash(10))), validation: sv(0b11), ratification: sv(0b11) };
    let (v, r) = verify_block_att(&att, &check(64, true)).unwrap();
    assert!(v.quorum_reached() && r.quorum_reached());
    let p = prev();
    let validator = Validator::new(&p);
    let mut h = header(10, NOW, hash(9), hash(10));
    h.att = att;
    assert_eq!(validator.verify_success_att(&h, &check(64, true)), Ok(()));
    assert_eq!(validator.verify_success_att(&h, &check(64, false)), Err(HeaderError::InvalidValidation));
    let rat_bad = AttestationCheck {
        validation: StepCheck { committee: committee_of(64), signature_valid: true },
        ratification: StepCheck { committee: committee_of(64), signature_valid: false },
    };
    assert_eq!(validator.verify_success_att(&h, &rat_bad), Err(HeaderError::InvalidRatification));
    h.att.ratification = sv(0b01);
    assert_eq!(validator.verify_success_att(&h, &check(64, true)), Err(HeaderError::QuorumNotReached));
}

fn failed(gen: [u8; 96], rat_bits: u64) -> Option<(Attestation, [u8; 96])> {
    Some((Attestation { result: RatificationResult::Fail(Vote::NoCandidate), validation: sv(0b11), ratification: sv(rat_bits) }, gen))
}

fn failed_checks(n: usize) -> Vec<FailedIterationCheck> {
    (0..n).map(|i| FailedIterationCheck { expected_generator: [i as u8 + 1; 96], att: check(64, true) }).collect()
}

#[test]
fn pni_counts_attested_failures() {
    let p = prev();
    let v = Validator::new(&p);
    let mut h = header(10, NOW, hash(9), hash(10));
    h.iteration = 4;
    // Iteration 0 attested with quorum, 1 unknown, 2 attested without quorum, 3 attested with quorum.
    h.failed_iterations = vec![failed([1u8; 96], 0b11), None, failed([3u8; 96], 0b01), failed([4u8; 96], 0b11)];
    assert_eq!(v.verify_failed_iterations(&h, &failed_checks(4)), Ok(2));
    h.failed_iterations = vec![];
    assert_eq!(v.verify_failed_iterations(&h, &failed_checks(4)), Ok(4));
}

#[test]
fn failed_iteration_errors() {
    let p = prev();
    let v = Validator::new(&p);
    let mut h = header(10, NOW, hash(9), hash(10));
    h.iteration = 2;
    h.failed_iterations = vec![failed([9u8; 96], 0b11)];
    assert_eq!(v.verify_failed_iterations(&h, &failed_checks(2)), Err(HeaderError::InvalidGenerator));
    let mut success = failed([1u8; 96], 0b11);
    if let Some((att, _)) = success.as_mut() {
        att.result = RatificationResult::Success(Vote::Valid(hash(3)));
    }
    h.failed_iterations = vec![success];
    assert_eq!(v.verify_failed_iterations(&h, &failed_checks(2)), Err(HeaderError::SuccessInFailedIterations));
}

#[test]
fn execute_checks_returns_pni() {
    let p = prev();
    let v = Validator::new(&p);
    let mut h = header(10, NOW, hash(9), hash(10));
    h.iteration = 1;
    h.att = Attestation { result: RatificationResult::Success(Vote::Valid(hash(10))), validation: sv(0b11), ratification: sv(0b11) };
    h.prev_block_cert = h.att;
    h.failed_iterations = vec![failed([1u8; 96], 0b11)];
    assert_eq!(v.execute_checks(&h, NOW, false, true, &check(64, true), &check(64, true), &failed_checks(1), false), Ok(0));
    assert_eq!(
        v.execute_checks(&h, NOW, false, true, &check(64, false), &check(64, true), &failed_checks(1), false),
        Err(HeaderError::InvalidValidation)
    );
    h.att.validation = sv(0b01);
    assert_eq!(v.execute_checks(&h, NOW, false, true, &check(64, true), &check(64, true), &failed_checks(1), true), Ok(0));
}

fn params(max: usize) -> Params {
    Params { max_queue_size: 1000, max_mempool_txn_count: max, mempool_expiry: None, mempool_download_redundancy: None }
}

fn tx(id: u8, spends: &[u8], gas_price: u64) -> Transaction {
    Transaction { id: hash(id), spend_ids: spends.iter().map(|s| hash(100 + *s)).collect(), gas_price }
}

#[test]
fn accept_tx_is_idempotent() {
    let mut m = MempoolSrv::new(params(10));
    assert_eq!(m.accept_tx(tx(1, &[1], 5), false, Ok(()), 10), Ok(vec![TransactionEvent::Included(hash(1))]));
    assert_eq!(m.accept_tx(tx(1, &[1], 5), false, Ok(()), 11), Err(TxAcceptanceError::AlreadyExistsInMempool));
    assert_eq!(m.txs_count(), 1);
}

#[test]
fn mempool_capacity_is_exact() {
    let mut m = MempoolSrv::new(params(3));
    for i in 0..3u8 {
        assert!(m.accept_tx(tx(i, &[i], 1), false, Ok(()), 1).is_ok());
    }
    assert_eq!(m.txs_count(), 3);
    assert_eq!(m.accept_tx(tx(7, &[7], 1), false, Ok(()), 1), Err(TxAcceptanceError::MaxTxnCountExceeded(3)));
}

#[test]
fn replace_by_gas_price() {
    let mut m = MempoolSrv::new(params(10));
    assert!(m.accept_tx(tx(1, &[5], 5), false, Ok(()), 1).is_ok());
    assert_eq!(
        m.accept_tx(tx(2, &[5], 6), false, Ok(()), 2),
        Ok(vec![TransactionEvent::Removed(hash(1)), TransactionEvent::Included(hash(2))])
    );
    assert!(!m.contains(&hash(1)));
    assert!(m.contains(&hash(2)));
    assert_eq!(m.accept_tx(tx(3, &[5], 6), false, Ok(()), 3), Err(TxAcceptanceError::SpendIdExistsInMempool));
    assert_eq!(m.txs_count(), 1);
}

#[test]
fn equal_gas_price_does_not_replace() {
    let mut m = MempoolSrv::new(params(10));
    assert!(m.accept_tx(tx(1, &[5, 6], 5), false, Ok(()), 1).is_ok());
    assert_eq!(m.accept_tx(tx(2, &[6], 5), false, Ok(()), 2), Err(TxAcceptanceError::SpendIdExistsInMempool));
    assert!(m.contains(&hash(1)));
}

#[test]
fn mempool_rejections() {
    let mut m = MempoolSrv::new(params(10));
    assert_eq!(m.accept_tx(tx(1, &[1], 5), true, Ok(()), 1), Err(TxAcceptanceError::AlreadyExistsInLedger));
    assert_eq!(
        m.accept_tx(tx(1, &[1], 5), false, Err("bad proof".to_string()), 1),
        Err(TxAcceptanceError::VerificationFailed("bad proof".to_string()))
    );
    assert_eq!(m.txs_count(), 0);
}

#[test]
fn expired_transactions_leave() {
    let mut m = MempoolSrv::new(params(10));
    assert!(m.accept_tx(tx(1, &[1], 5), false, Ok(()), 100).is_ok());
    assert!(m.accept_tx(tx(2, &[2], 5), false, Ok(()), 200).is_ok());
    assert_eq!(m.remove_expired(150), vec![TransactionEvent::Removed(hash(1))]);
    assert!(!m.contains(&hash(1)));
    assert!(m.contains(&hash(2)));
    assert_eq!(m.remove_expired(150), vec![]);
}

#[test]
fn seed_is_generator_signature_of_previous_seed() {
    let mut b = [0u8; 32];
    b[0] = 11;
    let sk = SecretKey::from_bytes(&b).unwrap();
    let pk = PublicKey::from(&sk);
    let mut p = prev();
    p.seed = [4u8; 48];
    let v = Validator::new(&p);
    let mut h = header(10, NOW, hash(9), hash(10));
    h.generator_bls_pubkey = pk.to_bytes();
    h.seed = sk.sign(&pk, &p.seed).to_bytes();
    assert!(v.verify_seed_field(&h));
    assert_eq!(v.verify_basic_fields(&h, NOW, false, v.verify_seed_field(&h)), Ok(()));
    let other = sk.sign(&pk, b"something else").to_bytes();
    h.seed = other;
    assert!(!v.verify_seed_field(&h));
    h.generator_bls_pubkey = [0xffu8; 96];
    assert!(!v.verify_seed_field(&h));
}

#[test]
fn voters_merge_both_committees() {
    let ps = vec![
        Provisioner { key: [1u8; 96], stake: 10 },
        Provisioner { key: [2u8; 96], stake: 10 },
        Provisioner { key: [3u8; 96], stake: 10 },
    ];
    // Validation: 1 twice, 2 once. Ratification: 2 once, 3 twice.
    let v = Committee::new(&ps, None, &vec![0, 5, 10]);
    let r = Committee::new(&ps, None, &vec![15, 20, 29]);
    let merged = merge_committees(&v, &r);
    assert_eq!(merged, vec![([1u8; 96], 2), ([2u8; 96], 2), ([3u8; 96], 2)]);
    let h = {
        let mut h = header(10, NOW, hash(9), hash(10));
        h.att = Attestation { result: RatificationResult::Success(Vote::Valid(hash(10))), validation: sv(0b11), ratification: sv(0b11) };
        h
    };
    let check = AttestationCheck {
        validation: StepCheck { committee: v, signature_valid: true },
        ratification: StepCheck { committee: r, signature_valid: true },
    };
    assert_eq!(Validator::get_voters(&h, &check).unwrap(), merged);
    let bad = AttestationCheck {
        validation: StepCheck { committee: Committee::new(&ps, None, &vec![0]), signature_valid: false },
        ratification: StepCheck { committee: Committee::new(&ps, None, &vec![0]), signature_valid: true },
    };
    assert_eq!(Validator::get_voters(&h, &bad), Err(HeaderError::InvalidValidation));
}

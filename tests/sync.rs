use dusk_node_core::chain::{AcceptError, BlockInfo, Chain};
use dusk_node_core::fsm::{Action, SimpleFSM, DEFAULT_HOPS_LIMIT, MISSING_BLOCKS_HOPS};
use dusk_node_core::ledger::{Attestation, RatificationResult};
use dusk_node_core::step_votes_reg::{StepVotes, Vote};

fn h(height: u64, variant: u8) -> [u8; 32] {
    let mut x = [0u8; 32];
    x[0] = height as u8;
    x[1] = (height >> 8) as u8;
    x[2] = variant;
    x[31] = 0x77;
    x
}

fn att_for(hash: [u8; 32]) -> Attestation {
    Attestation {
        result: RatificationResult::Success(Vote::Valid(hash)),
        validation: StepVotes::new(3, [1u8; 48]),
        ratification: StepVotes::new(3, [1u8; 48]),
    }
}

/// Block `height` of branch `variant`, on top of the block with hash `prev`.
fn blk(height: u64, prev: [u8; 32], variant: u8, iteration: u8) -> BlockInfo {
    let hash = h(height, variant);
    BlockInfo { height, hash, prev_block_hash: prev, iteration, state_hash: h(height, 100 + variant), att: Some(att_for(hash)) }
}

/// A main-branch chain from genesis up to `tip`; the tip was produced at `tip_iteration`.
fn chain_to(tip: u64, tip_iteration: u8) -> Chain {
    let mut c = Chain::new(blk(0, [0u8; 32], 0, 0));
    for height in 1..=tip {
        let it = if height == tip { tip_iteration } else { 0 };
        assert_eq!(c.try_accept_block(blk(height, h(height - 1, 0), 0, it)), Ok(()));
    }
    c
}

const PEER: u64 = 7;

#[test]
fn accepted_blocks_extend_the_tip() {
    let mut c = chain_to(3, 0);
    assert_eq!(c.try_accept_block(blk(5, h(4, 0), 0, 0)), Err(AcceptError::InvalidHeight));
    assert_eq!(c.try_accept_block(blk(4, h(2, 0), 0, 0)), Err(AcceptError::InvalidPrevHash));
    assert_eq!(c.height(), 3);
    assert_eq!(c.try_accept_block(blk(4, h(3, 0), 0, 0)), Ok(()));
    assert_eq!(c.tip().hash, h(4, 0));
    assert_eq!(c.block_at_height(2).unwrap().hash, h(2, 0));
}

#[test]
fn accepting_same_block_twice_is_a_no_op() {
    let mut fsm = SimpleFSM::new(chain_to(100, 0));
    let b = blk(101, h(100, 0), 0, 0);
    let first = fsm.on_block_event(b, Some(PEER), 1000, false);
    assert_eq!(first.block, Some(b));
    assert_eq!(fsm.chain().height(), 101);
    let second = fsm.on_block_event(b, Some(PEER), 1001, false);
    assert_eq!(second.actions, vec![]);
    assert_eq!(fsm.chain().height(), 101);
    assert_eq!(fsm.chain().tip(), b);
    assert!(fsm.is_in_sync());
}

#[test]
fn fork_fallback_at_tip_height() {
    let mut fsm = SimpleFSM::new(chain_to(100, 2));
    let local = fsm.chain().tip();
    let remote = blk(100, h(99, 0), 1, 1);
    let res = fsm.on_block_event(remote, Some(PEER), 1000, false);
    assert_eq!(res.actions, vec![Action::RevertState { state_hash: h(99, 100) }]);
    assert!(fsm.pending_fallback().is_some());
    assert_eq!(fsm.chain().tip(), local);
    let done = fsm.on_fallback_done(true);
    assert_eq!(done, vec![]);
    assert_eq!(fsm.chain().tip(), remote);
    assert_eq!(fsm.chain().height(), 100);
    assert!(fsm.is_blacklisted(&local.hash));
    assert!(fsm.is_in_sync());
    // The abandoned block is dropped if it comes back.
    let again = fsm.on_block_event(local, Some(PEER), 1002, false);
    assert_eq!(again.block, None);
    assert_eq!(fsm.chain().tip(), remote);
}

#[test]
fn failed_revert_leaves_node_unchanged() {
    let mut fsm = SimpleFSM::new(chain_to(100, 2));
    let local = fsm.chain().tip();
    let remote = blk(100, h(99, 0), 1, 1);
    fsm.on_block_event(remote, Some(PEER), 1000, false);
    assert_eq!(fsm.on_fallback_done(false), vec![]);
    assert_eq!(fsm.chain().tip(), local);
    assert!(!fsm.is_blacklisted(&local.hash));
    assert!(fsm.pending_fallback().is_none());
}

#[test]
fn fallback_below_tip_needs_lower_iteration() {
    let mut fsm = SimpleFSM::new(chain_to(100, 0));
    // Local block 99 was produced at iteration 0: a competitor at iteration 0 is ignored.
    let same_iter = blk(99, h(98, 0), 1, 0);
    assert_eq!(fsm.on_block_event(same_iter, Some(PEER), 1000, false).actions, vec![]);
    // Rebuild with local 99 at iteration 3 by reverting through a fork at 99.
    let mut c = chain_to(98, 0);
    c.try_accept_block(blk(99, h(98, 0), 0, 3)).unwrap();
    c.try_accept_block(blk(100, h(99, 0), 0, 0)).unwrap();
    let mut fsm = SimpleFSM::new(c);
    let remote = blk(99, h(98, 0), 1, 1);
    let res = fsm.on_block_event(remote, Some(PEER), 1000, false);
    assert_eq!(res.actions, vec![Action::RevertState { state_hash: h(98, 100) }]);
    fsm.on_fallback_done(true);
    assert_eq!(fsm.chain().tip(), remote);
    assert!(fsm.is_blacklisted(&h(99, 0)));
}

#[test]
fn stalled_on_fork_recovers() {
    let mut fsm = SimpleFSM::new(chain_to(100, 0));
    // Fifty future blocks that cannot be linked.
    for i in 0..50u64 {
        let b = blk(102 + i, h(101 + i, 9), 9, 0);
        fsm.on_block_event(b, Some(PEER), 1000 + i, false);
    }
    assert_eq!(fsm.chain().height(), 100);
    let remote = blk(98, h(97, 0), 1, 0);
    let actions = fsm.on_stalled_on_fork(h(98, 0), remote);
    assert_eq!(actions, vec![Action::RevertState { state_hash: h(97, 100) }]);
    fsm.on_fallback_done(true);
    assert_eq!(fsm.chain().tip(), remote);
    assert_eq!(fsm.chain().height(), 98);
    assert!(fsm.is_blacklisted(&h(98, 0)));
    fsm.on_stalled();
    assert!(!fsm.is_blacklisted(&h(98, 0)));
}

#[test]
fn bulk_sync_through_two_windows() {
    let mut fsm = SimpleFSM::new(chain_to(100, 0));
    let target = blk(200, h(199, 0), 0, 0);
    let res = fsm.on_block_event(target, Some(PEER), 1000, false);
    assert_eq!(res.actions, vec![Action::RequestBlockByHeight { height: 101, peer: PEER }]);
    assert!(fsm.is_in_sync());
    // The presync peer delivers the next block: bulk download starts.
    let res = fsm.on_block_event(blk(101, h(100, 0), 0, 0), Some(PEER), 1001, false);
    assert_eq!(res.actions, vec![Action::GetBlocks { locator: h(101, 0), peer: PEER }]);
    assert!(!fsm.is_in_sync());
    assert_eq!(fsm.sync_range(), Some((101, 151)));
    let mut now = 1002;
    for height in 102..=150u64 {
        let res = fsm.on_block_event(blk(height, h(height - 1, 0), 0, 0), Some(PEER), now, false);
        assert_eq!(res.actions, vec![]);
        now += 1;
    }
    let res = fsm.on_block_event(blk(151, h(150, 0), 0, 0), Some(PEER), now, false);
    assert_eq!(res.actions, vec![Action::GetBlocks { locator: h(151, 0), peer: PEER }]);
    assert_eq!(fsm.sync_range(), Some((151, 200)));
    for height in 152..=198u64 {
        now += 1;
        fsm.on_block_event(blk(height, h(height - 1, 0), 0, 0), Some(PEER), now, false);
    }
    assert_eq!(fsm.chain().height(), 198);
    // Block 199 arrives; the target block 200, pooled since the start, follows.
    let res = fsm.on_block_event(blk(199, h(198, 0), 0, 0), Some(PEER), now + 1, false);
    assert_eq!(res.actions, vec![Action::RestartConsensus]);
    assert!(fsm.is_in_sync());
    assert_eq!(fsm.chain().height(), 200);
}

#[test]
fn pooled_blocks_are_drained() {
    let mut fsm = SimpleFSM::new(chain_to(100, 0));
    fsm.on_block_event(blk(120, h(119, 0), 0, 0), Some(PEER), 1000, false);
    fsm.on_block_event(blk(101, h(100, 0), 0, 0), Some(PEER), 1001, false);
    assert!(!fsm.is_in_sync());
    // 103 and 104 arrive ahead of 102.
    fsm.on_block_event(blk(103, h(102, 0), 0, 0), Some(PEER), 1002, false);
    fsm.on_block_event(blk(104, h(103, 0), 0, 0), Some(PEER), 1003, false);
    assert_eq!(fsm.chain().height(), 101);
    fsm.on_block_event(blk(102, h(101, 0), 0, 0), Some(PEER), 1004, false);
    assert_eq!(fsm.chain().height(), 104);
}

#[test]
fn stalled_download_retries_then_gives_up() {
    let mut fsm = SimpleFSM::new(chain_to(100, 0));
    fsm.on_block_event(blk(105, h(104, 0), 0, 0), Some(PEER), 1000, false);
    fsm.on_block_event(blk(101, h(100, 0), 0, 0), Some(PEER), 1000, false);
    assert_eq!(fsm.sync_range(), Some((101, 105)));
    assert_eq!(fsm.on_heartbeat_event(4999), vec![]);
    let expected = Action::FloodRequestBlocks { heights: vec![102, 103, 104, 106], hops: MISSING_BLOCKS_HOPS };
    assert_eq!(fsm.on_heartbeat_event(6000), vec![expected.clone()]);
    assert_eq!(fsm.on_heartbeat_event(11_000), vec![expected.clone()]);
    assert_eq!(fsm.on_heartbeat_event(16_000), vec![expected]);
    assert!(!fsm.is_in_sync());
    assert_eq!(fsm.on_heartbeat_event(21_000), vec![Action::RestartConsensus]);
    assert!(fsm.is_in_sync());
}

#[test]
fn quorum_turns_candidate_into_block() {
    let mut fsm = SimpleFSM::new(chain_to(10, 0));
    let mut cand = blk(11, h(10, 0), 0, 0);
    cand.att = None;
    let res = fsm.on_quorum_msg(att_for(cand.hash), 11, Some(cand), None, 1000, false);
    assert_eq!(res.block.unwrap().att, Some(att_for(cand.hash)));
    assert_eq!(fsm.chain().height(), 11);
}

#[test]
fn quorum_without_candidate_requests_it() {
    let mut fsm = SimpleFSM::new(chain_to(10, 0));
    let mut cand = blk(11, h(10, 0), 0, 0);
    cand.att = None;
    let res = fsm.on_quorum_msg(att_for(cand.hash), 11, None, None, 1000, false);
    assert_eq!(res.actions, vec![Action::FloodRequestCandidate { hash: cand.hash, hops: DEFAULT_HOPS_LIMIT }]);
    assert_eq!(fsm.chain().height(), 10);
    // The candidate arrives without attestation: the cached one is attached.
    let res = fsm.on_block_event(cand, Some(PEER), 2000, false);
    assert_eq!(res.block.unwrap().att, Some(att_for(cand.hash)));
    assert_eq!(fsm.chain().height(), 11);
}

#[test]
fn block_without_attestation_is_dropped() {
    let mut fsm = SimpleFSM::new(chain_to(10, 0));
    let mut cand = blk(11, h(10, 0), 0, 0);
    cand.att = None;
    assert_eq!(fsm.on_block_event(cand, Some(PEER), 1000, false).block, None);
    assert_eq!(fsm.chain().height(), 10);
}

#[test]
fn future_quorum_is_cached_once() {
    let mut fsm = SimpleFSM::new(chain_to(10, 0));
    let hash = h(15, 0);
    let first = fsm.on_quorum_msg(att_for(hash), 15, None, None, 1000, false);
    assert_eq!(first.actions, vec![Action::FloodRequestCandidate { hash, hops: DEFAULT_HOPS_LIMIT }]);
    let second = fsm.on_quorum_msg(att_for(hash), 15, None, None, 1001, false);
    assert_eq!(second.actions, vec![]);
    // A failed quorum names no block.
    let failed = Attestation { result: RatificationResult::Fail(Vote::NoCandidate), ..att_for(hash) };
    assert_eq!(fsm.on_quorum_msg(failed, 11, None, None, 1002, false).actions, vec![]);
}

#[test]
fn finalized_block_clears_blacklist() {
    let mut fsm = SimpleFSM::new(chain_to(100, 2));
    let local = fsm.chain().tip();
    fsm.on_block_event(blk(100, h(99, 0), 1, 1), Some(PEER), 1000, false);
    fsm.on_fallback_done(true);
    assert!(fsm.is_blacklisted(&local.hash));
    fsm.on_block_event(blk(101, h(100, 1), 1, 0), Some(PEER), 1002, true);
    assert_eq!(fsm.chain().height(), 101);
    assert_eq!(fsm.chain().final_height(), 101);
    assert!(!fsm.is_blacklisted(&local.hash));
}

#[test]
fn presync_expires() {
    let mut fsm = SimpleFSM::new(chain_to(100, 0));
    fsm.on_block_event(blk(150, h(149, 0), 0, 0), Some(PEER), 1000, false);
    assert_eq!(fsm.on_heartbeat_event(20_000), vec![]);
    // The presync request is gone: the next block does not start a download.
    fsm.on_block_event(blk(101, h(100, 0), 0, 0), Some(PEER), 20_001, false);
    assert!(fsm.is_in_sync());
    assert_eq!(fsm.chain().height(), 101);
}

#[test]
fn failed_consensus_restarts() {
    let fsm = SimpleFSM::new(chain_to(1, 0));
    assert_eq!(fsm.on_failed_consensus(), vec![Action::RestartConsensus]);
}

//! The chain synchronisation state machine (InSync / OutOfSync).
//!
//! It owns the local chain model, the blacklist of blocks abandoned by a
//! fallback, and the attestations cached from quorum messages. Each event
//! handler updates that state and returns the actions the caller performs:
//! network requests, restarting consensus, reverting the virtual machine's
//! state. A fallback is applied in two steps: the handler asks for the state
//! revert, and `on_fallback_done` applies it once the caller reports the
//! revert's outcome, so that a failed revert leaves everything as it was.
use vstd::prelude::*;
use crate::bytes::{bytes_eq, Digest};
use crate::chain::{at_height, extends, hash_index_from, holds_hash, lemma_accepted_blocks_link, lemma_at_height, lemma_hash_index_range, AcceptError, BlockInfo, Chain};
use crate::ledger::{Attestation, RatificationResult};
use crate::step_votes_reg::Vote;

verus! {

/// Identifier the caller gives to a peer.
pub type PeerId = u64;

/// Blocks requested in one window of bulk download, and the bound of the
/// pool of blocks received ahead of it.
pub const MAX_BLOCKS_TO_REQUEST: u64 = 50;

/// Milliseconds without progress after which bulk download re-requests.
pub const EXPIRY_TIMEOUT_MILLIS: u64 = 5000;

/// Milliseconds an attestation stays cached.
pub const DEFAULT_ATT_CACHE_EXPIRY_MILLIS: u64 = 60_000;

/// Milliseconds a presync request stays open.
pub const PRESYNC_TIMEOUT_MILLIS: u64 = 10_000;

/// Hops a flood request for a candidate may travel.
pub const DEFAULT_HOPS_LIMIT: u16 = 16;

/// Hops a flood request for missing blocks may travel.
pub const MISSING_BLOCKS_HOPS: u16 = 8;

/// Re-request rounds of bulk download before giving up.
pub const SYNC_ATTEMPTS: u8 = 3;

/// What the caller is asked to do.
#[derive(Debug, Clone, PartialEq, Eq)]
pub enum Action {
    /// Ask `peer` for the block at `height`.
    RequestBlockByHeight { height: u64, peer: PeerId },
    /// Ask `peer` for the blocks that follow `locator`.
    GetBlocks { locator: Digest, peer: PeerId },
    /// Flood a request for the blocks at these heights.
    FloodRequestBlocks { heights: Vec<u64>, hops: u16 },
    /// Flood a request for the candidate block with this hash.
    FloodRequestCandidate { hash: Digest, hops: u16 },
    /// Restart consensus from the current tip.
    RestartConsensus,
    /// Revert the virtual machine to this state root, then report the
    /// outcome to `on_fallback_done`.
    RevertState { state_hash: Digest },
}

/// A block seen ahead of the tip, and the peer expected to know the way to it.
#[derive(Debug, Clone, Copy, PartialEq, Eq)]
pub struct PresyncInfo {
    pub peer_addr: PeerId,
    pub start_height: u64,
    pub target_blk: BlockInfo,
    pub expiry: u64,
}

impl OutOfSyncImpl {
    /// Handles a block during bulk download; returns whether to go back to
    /// InSync mode.
    ///
    /// Without progress for `EXPIRY_TIMEOUT_MILLIS` the download gives up and
    /// consensus restarts. A block at or below the tip is ignored; the block
    /// that follows the tip is accepted, then the pooled blocks that follow
    /// it; reaching the end of the window requests the next window, or ends
    /// the download at its target. A block further ahead is pooled, up to
    /// `MAX_BLOCKS_TO_REQUEST` blocks.
    pub fn on_block_event(
        &mut self,
        chain: &mut Chain,
        blk: BlockInfo,
        src: Option<PeerId>,
        now: u64,
        actions: &mut Vec<Action>,
    ) -> (r: bool)
        requires
            old(chain).wf(),
        ensures
            final(chain).wf(),
            is_prefix(old(chain).blocks(), final(chain).blocks()),
            final(chain).final_height_spec() == old(chain).final_height_spec(),
            ({
                let o = *old(self);
                let tip = old(chain).tip_spec();
                let expired = sat_add(o.start_time, EXPIRY_TIMEOUT_MILLIS) <= now;
                &&& expired ==> r && final(actions)@ == old(actions)@.push(Action::RestartConsensus)
                    && *final(chain) == *old(chain)
                &&& !expired && blk.height <= tip.height ==> !r && final(actions)@ == old(actions)@
                    && *final(chain) == *old(chain) && *final(self) == *old(self)
                &&& !expired && blk.height as int > tip.height as int + 1 ==> {
                    &&& !r
                    &&& final(actions)@ == old(actions)@
                    &&& *final(chain) == *old(chain)
                    &&& final(self).range_from == o.range_from && final(self).range_to == o.range_to
                    &&& final(self).start_time == o.start_time && final(self).attempts == o.attempts
                    &&& final(self).pool@ == (if o.pool@.len() < MAX_BLOCKS_TO_REQUEST { o.pool@.push(blk) } else { o.pool@ })
                }
                &&& !expired && blk.height as int == tip.height as int + 1 && !extends(tip, blk) ==> !r
                    && final(actions)@ == old(actions)@ && final(chain).blocks() == old(chain).blocks()
                    && *final(self) == *old(self)
                &&& !expired && extends(tip, blk) ==> {
                    let after = drained(old(chain).blocks().push(blk), o.pool@, blk.height, o.range_to);
                    let t = after.last();
                    let window_end_reached = t.height >= o.range_to;
                    &&& final(chain).blocks() == after
                    &&& is_prefix(old(chain).blocks().push(blk), after)
                    &&& r == (window_end_reached && t.height >= o.target_height)
                    &&& final(actions)@ == if !window_end_reached {
                        old(actions)@
                    } else if t.height >= o.target_height {
                        old(actions)@.push(Action::RestartConsensus)
                    } else {
                        old(actions)@.push(Action::GetBlocks { locator: t.hash, peer: o.peer_addr })
                    }
                    &&& !r ==> {
                        &&& final(self).start_time == if window_end_reached || src == Some(o.peer_addr) { now } else { o.start_time }
                        &&& final(self).range_from == if window_end_reached { t.height } else { o.range_from }
                        &&& final(self).range_to == if window_end_reached { window_end(t.height, o.target_height) } else { o.range_to }
                        &&& final(self).target_height == o.target_height
                        &&& final(self).pool@ == o.pool@
                        &&& final(self).peer_addr == o.peer_addr
                        &&& final(self).attempts == o.attempts
                    }
                }
            }),
    {
        if self.start_time.saturating_add(EXPIRY_TIMEOUT_MILLIS) <= now {
            // The download made no progress in time.
            actions.push(Action::RestartConsensus);
            return true;
        }
        let tip_height = chain.height();
        let h = blk.height;
        if h <= tip_height {
            return false;
        }
        if h == tip_height + 1 {
            if chain.try_accept_block(blk).is_err() {
                return false;
            }
            if src == Some(self.peer_addr) {
                self.start_time = now;
            }
            // Accept the pooled blocks that now follow the tip.
            let mut height = h;
            let mut draining = true;
            while draining && height < self.range_to
                invariant
                    chain.wf(),
                    is_prefix(old(chain).blocks().push(blk), chain.blocks()),
                    chain.final_height_spec() == old(chain).final_height_spec(),
                    drained(old(chain).blocks().push(blk), self.pool@, h, self.range_to)
                        == if draining { drained(chain.blocks(), self.pool@, height, self.range_to) } else { chain.blocks() },
                decreases self.range_to - height, if draining { 1int } else { 0int },
            {
                match SimpleFSM::pooled_at(&self.pool, height + 1) {
                    Some(b) => {
                        if chain.try_accept_block(b).is_ok() {
                            height = height + 1;
                        } else {
                            draining = false;
                        }
                    },
                    None => {
                        draining = false;
                    },
                }
            }
            let tip = chain.tip();
            if tip.height >= self.range_to {
                if tip.height >= self.target_height {
                    // The download reached its target.
                    actions.push(Action::RestartConsensus);
                    return true;
                }
                // Request the next window.
                self.range_from = tip.height;
                self.range_to = next_window_end(tip.height, self.target_height);
                self.start_time = now;
                actions.push(Action::GetBlocks { locator: tip.hash, peer: self.peer_addr });
            }
            return false;
        }
        if (self.pool.len() as u64) < MAX_BLOCKS_TO_REQUEST {
            self.pool.push(blk);
        }
        false
    }

}

impl OutOfSyncImpl {
    /// A copy of the download state.
    pub fn clone_state(&self) -> (r: OutOfSyncImpl)
        ensures
            r.range_from == self.range_from,
            r.range_to == self.range_to,
            r.target_height == self.target_height,
            r.start_time == self.start_time,
            r.pool@ == self.pool@,
            r.peer_addr == self.peer_addr,
            r.attempts == self.attempts,
    {
        let mut pool: Vec<BlockInfo> = Vec::new();
        let mut i: usize = 0;
        while i < self.pool.len()
            invariant
                i <= self.pool@.len(),
                pool@ == self.pool@.take(i as int),
            decreases self.pool@.len() - i,
        {
            pool.push(self.pool[i]);
            i = i + 1;
            assert(pool@ =~= self.pool@.take(i as int));
        }
        assert(pool@ =~= self.pool@);
        OutOfSyncImpl {
            range_from: self.range_from,
            range_to: self.range_to,
            target_height: self.target_height,
            start_time: self.start_time,
            pool,
            peer_addr: self.peer_addr,
            attempts: self.attempts,
        }
    }
}

impl PresyncInfo {
    pub fn new(peer_addr: PeerId, target_blk: BlockInfo, start_height: u64, now: u64) -> (r: PresyncInfo)
        ensures
            r.peer_addr == peer_addr,
            r.target_blk == target_blk,
            r.start_height == start_height,
            r.expiry == sat_add(now, PRESYNC_TIMEOUT_MILLIS),
    {
        PresyncInfo { peer_addr, target_blk, start_height, expiry: now.saturating_add(PRESYNC_TIMEOUT_MILLIS) }
    }

    pub fn start_height(&self) -> (r: u64)
        ensures
            r == self.start_height,
    {
        self.start_height
    }
}

/// Addition capped at `u64::MAX`.
pub open spec fn sat_add(a: u64, b: u64) -> u64 {
    if a as int + b as int > u64::MAX as int { u64::MAX } else { (a + b) as u64 }
}

/// Bulk download state.
#[derive(Debug, Clone, PartialEq, Eq)]
pub struct OutOfSyncImpl {
    /// Tip height when the current window was requested.
    pub range_from: u64,
    /// Last height of the current window.
    pub range_to: u64,
    /// Height of the block that started the download.
    pub target_height: u64,
    /// Time of the last progress.
    pub start_time: u64,
    /// Blocks received ahead of the tip.
    pub pool: Vec<BlockInfo>,
    pub peer_addr: PeerId,
    pub attempts: u8,
}

/// The current mode.
#[derive(Debug, Clone, PartialEq, Eq)]
pub enum State {
    InSync { presync: Option<PresyncInfo> },
    OutOfSync(OutOfSyncImpl),
}

/// A fallback waiting for the outcome of its state revert.
#[derive(Debug, Clone, Copy, PartialEq, Eq)]
pub struct Fallback {
    /// The block to accept once reverted.
    pub remote: BlockInfo,
    /// Height the chain goes back to: the block `remote` extends.
    pub revert_height: u64,
    /// The local block abandoned at the remote's height.
    pub abandoned: Digest,
}

/// What a block event produced.
#[derive(Debug, Clone, PartialEq, Eq)]
pub struct BlockEventResult {
    /// The block as processed (with its attestation attached), unless it was
    /// dropped.
    pub block: Option<BlockInfo>,
    pub actions: Vec<Action>,
}

/// The synchronisation state machine.
pub struct SimpleFSM {
    curr: State,
    chain: Chain,
    blacklisted_blocks: Vec<Digest>,
    attestations_cache: Vec<(Digest, Attestation, u64)>,
    pending: Option<Fallback>,
}

/// End of a download window that starts above `tip`: at most
/// `MAX_BLOCKS_TO_REQUEST` blocks, and not past `target`.
pub open spec fn window_end(tip: u64, target: u64) -> u64 {
    if tip as int + MAX_BLOCKS_TO_REQUEST as int <= target as int { (tip + MAX_BLOCKS_TO_REQUEST) as u64 } else { target }
}

/// End of a download window that starts above `tip`.
pub fn next_window_end(tip: u64, target: u64) -> (r: u64)
    ensures
        r == window_end(tip, target),
{
    if tip <= u64::MAX - MAX_BLOCKS_TO_REQUEST && tip + MAX_BLOCKS_TO_REQUEST <= target {
        tip + MAX_BLOCKS_TO_REQUEST
    } else {
        target
    }
}

/// A pending fallback fits the chain: the block at its revert height is at
/// or above the finalized height and is the one the remote extends.
pub open spec fn applicable(c: Chain, f: Fallback) -> bool {
    &&& c.final_height_spec() <= f.revert_height <= c.tip_spec().height
    &&& at_height(c.blocks(), f.revert_height as int) matches Some(prev) && extends(prev, f.remote)
}

/// Some pooled block has this height.
pub open spec fn pooled(pool: Seq<BlockInfo>, height: int) -> bool {
    exists|i: int| 0 <= i < pool.len() && pool[i].height == height
}

/// The first pooled block, at or after position `i`, with this height.
pub open spec fn pool_at(pool: Seq<BlockInfo>, height: u64, i: int) -> Option<BlockInfo>
    decreases pool.len() - i,
{
    if i >= pool.len() || i < 0 {
        None
    } else if pool[i].height == height {
        Some(pool[i])
    } else {
        pool_at(pool, height, i + 1)
    }
}

/// The chain after draining the pool above `height`, up to `range_to`: the
/// pooled block of each next height is appended while it links to the tip.
pub open spec fn drained(blocks: Seq<BlockInfo>, pool: Seq<BlockInfo>, height: u64, range_to: u64) -> Seq<BlockInfo>
    decreases range_to - height,
{
    if height >= range_to {
        blocks
    } else {
        match pool_at(pool, (height + 1) as u64, 0) {
            Some(b) => if extends(blocks.last(), b) {
                drained(blocks.push(b), pool, (height + 1) as u64, range_to)
            } else {
                blocks
            },
            None => blocks,
        }
    }
}

/// Heights in `(lo, hi]` that no pooled block has, in increasing order.
pub open spec fn missing_heights(pool: Seq<BlockInfo>, lo: int, hi: int) -> Seq<u64>
    decreases hi - lo,
{
    if hi <= lo {
        Seq::empty()
    } else {
        let rest = missing_heights(pool, lo, hi - 1);
        if pooled(pool, hi) { rest } else { rest.push(hi as u64) }
    }
}

/// The actions of a heartbeat that re-requests: one flood request for the
/// missing heights of the window and of the height after it, when any is
/// missing.
pub open spec fn is_retry_actions(o: OutOfSyncImpl, r: Seq<Action>) -> bool {
    let hi = if o.range_to < u64::MAX { o.range_to as int + 1 } else { u64::MAX as int };
    let hs = missing_heights(o.pool@, o.range_from as int, hi);
    if hs.len() == 0 {
        r.len() == 0
    } else {
        &&& r.len() == 1
        &&& r[0] matches Action::FloodRequestBlocks { heights, hops } && heights@ == hs && hops == MISSING_BLOCKS_HOPS
    }
}

/// The fallback that a block received in InSync mode calls for: the block
/// it extends (to revert to) and the local block it displaces. A block at the
/// tip's height with another hash displaces the tip; a block below the tip,
/// not held and above the finalized height, displaces the local block of its
/// height when it was produced at an earlier iteration. The block it extends
/// must be held, at or above the finalized height.
pub open spec fn fallback_case(c: Chain, remote: BlockInfo) -> Option<(BlockInfo, Digest)> {
    let tip = c.tip_spec();
    let prev = at_height(c.blocks(), remote.height - 1);
    let local = at_height(c.blocks(), remote.height as int);
    let links = prev is Some && prev->0.hash == remote.prev_block_hash && prev->0.height >= c.final_height_spec();
    if remote.height == tip.height && remote.hash != tip.hash && remote.height > 0 && links {
        Some((prev->0, tip.hash))
    } else if remote.height < tip.height && !holds_hash(c.blocks(), remote.hash) && remote.height > c.final_height_spec()
        && links && local is Some && remote.iteration < local->0.iteration {
        Some((prev->0, local->0.hash))
    } else {
        None
    }
}

/// The InSync state after a block from beyond the next height: the first
/// such block from a peer is recorded as the presync target.
pub open spec fn recorded_presync(st: State, src: Option<PeerId>, remote: BlockInfo, tip_height: u64, now: u64) -> State {
    match (st, src) {
        (State::InSync { presync: None }, Some(peer)) => State::InSync {
            presync: Some(PresyncInfo {
                peer_addr: peer,
                start_height: tip_height,
                target_blk: remote,
                expiry: sat_add(now, PRESYNC_TIMEOUT_MILLIS),
            }),
        },
        _ => st,
    }
}

/// The presync record that an accepted block completes: the block came from
/// the recorded peer and is the one after the recorded height.
pub open spec fn presync_switch(st: State, src: Option<PeerId>, remote: BlockInfo) -> Option<PresyncInfo> {
    match (st, src) {
        (State::InSync { presync: Some(p) }, Some(peer)) => if peer == p.peer_addr && remote.height as int == p.start_height as int + 1 {
            Some(p)
        } else {
            None
        },
        _ => None,
    }
}

/// The cached attestations whose expiry is after `now`, in order.
pub open spec fn unexpired(c: Seq<(Digest, Attestation, u64)>, now: u64) -> Seq<(Digest, Attestation, u64)>
    decreases c.len(),
{
    if c.len() == 0 {
        c
    } else {
        let rest = unexpired(c.drop_last(), now);
        if c.last().2 > now { rest.push(c.last()) } else { rest }
    }
}

/// The cached attestations of other blocks than `h`, in order.
pub open spec fn without_hash(c: Seq<(Digest, Attestation, u64)>, h: Digest) -> Seq<(Digest, Attestation, u64)>
    decreases c.len(),
{
    if c.len() == 0 {
        c
    } else {
        let rest = without_hash(c.drop_last(), h);
        if c.last().0 != h { rest.push(c.last()) } else { rest }
    }
}

/// At most one cached attestation per block hash.
pub open spec fn distinct_cache(c: Seq<(Digest, Attestation, u64)>) -> bool {
    forall|i: int, j: int| 0 <= i < j < c.len() ==> c[i].0 != c[j].0
}

proof fn lemma_unexpired_distinct(c: Seq<(Digest, Attestation, u64)>, now: u64)
    requires
        distinct_cache(c),
    ensures
        distinct_cache(unexpired(c, now)),
        forall|i: int| 0 <= i < unexpired(c, now).len() ==> cache_has(c, #[trigger] unexpired(c, now)[i].0),
    decreases c.len(),
{
    if c.len() > 0 {
        let d = c.drop_last();
        lemma_unexpired_distinct(d, now);
        let rest = unexpired(d, now);
        assert forall|i: int| 0 <= i < rest.len() implies rest[i].0 != c.last().0 by {
            let j = choose|j: int| 0 <= j < d.len() && d[j].0 == rest[i].0;
            assert(c[j] == d[j]);
        }
        assert forall|i: int| 0 <= i < unexpired(c, now).len() implies cache_has(c, #[trigger] unexpired(c, now)[i].0) by {
            if i < rest.len() {
                let j = choose|j: int| 0 <= j < d.len() && d[j].0 == rest[i].0;
                assert(c[j] == d[j]);
            } else {
                assert(c[c.len() - 1] == c.last());
            }
        }
    }
}

proof fn lemma_without_hash_distinct(c: Seq<(Digest, Attestation, u64)>, h: Digest)
    requires
        distinct_cache(c),
    ensures
        distinct_cache(without_hash(c, h)),
        forall|i: int| 0 <= i < without_hash(c, h).len() ==> cache_has(c, #[trigger] without_hash(c, h)[i].0),
    decreases c.len(),
{
    if c.len() > 0 {
        let d = c.drop_last();
        lemma_without_hash_distinct(d, h);
        let rest = without_hash(d, h);
        assert forall|i: int| 0 <= i < rest.len() implies rest[i].0 != c.last().0 by {
            let j = choose|j: int| 0 <= j < d.len() && d[j].0 == rest[i].0;
            assert(c[j] == d[j]);
        }
        assert forall|i: int| 0 <= i < without_hash(c, h).len() implies cache_has(c, #[trigger] without_hash(c, h)[i].0) by {
            if i < rest.len() {
                let j = choose|j: int| 0 <= j < d.len() && d[j].0 == rest[i].0;
                assert(c[j] == d[j]);
            } else {
                assert(c[c.len() - 1] == c.last());
            }
        }
    }
}

/// An attestation is cached for `h`.
pub open spec fn cache_has(c: Seq<(Digest, Attestation, u64)>, h: Digest) -> bool {
    exists|i: int| 0 <= i < c.len() && c[i].0 == h
}

/// `a` is a prefix of `b`.
pub open spec fn is_prefix(a: Seq<BlockInfo>, b: Seq<BlockInfo>) -> bool {
    a.len() <= b.len() && forall|i: int| 0 <= i < a.len() ==> a[i] == b[i]
}

/// No hash occurs twice.
pub open spec fn distinct_hashes(s: Seq<Digest>) -> bool {
    forall|i: int, j: int| 0 <= i < j < s.len() ==> s[i] != s[j]
}

/// The block before the first held block with hash `h`: where a fork at
/// that block started.
pub open spec fn fork_parent(c: Chain, h: Digest) -> Option<BlockInfo> {
    let i = hash_index_from(c.blocks(), h, 0);
    if i > 0 { Some(c.blocks()[i - 1]) } else { None }
}

/// The hash occurs in the list.
pub open spec fn listed(s: Seq<Digest>, h: Digest) -> bool {
    exists|i: int| 0 <= i < s.len() && s[i] == h
}

impl SimpleFSM {
    pub closed spec fn chain_spec(&self) -> Chain {
        self.chain
    }

    pub closed spec fn blacklist(&self) -> Seq<Digest> {
        self.blacklisted_blocks@
    }

    pub closed spec fn state_spec(&self) -> State {
        self.curr
    }

    pub closed spec fn pending_spec(&self) -> Option<Fallback> {
        self.pending
    }

    /// The chain is well formed and no hash is blacklisted twice.
    pub open spec fn wf(&self) -> bool {
        &&& self.chain_spec().wf()
        &&& distinct_hashes(self.blacklist())
        &&& distinct_cache(self.cache())
    }

    /// A machine in InSync mode over `chain`.
    pub fn new(chain: Chain) -> (r: SimpleFSM)
        requires
            chain.wf(),
        ensures
            r.wf(),
            r.chain_spec() == chain,
            r.blacklist() == Seq::<Digest>::empty(),
            r.state_spec() == (State::InSync { presync: None }),
            r.pending_spec() is None,
    {
        SimpleFSM {
            curr: State::InSync { presync: None },
            chain,
            blacklisted_blocks: Vec::new(),
            attestations_cache: Vec::new(),
            pending: None,
        }
    }

    /// The local chain.
    pub fn chain(&self) -> (r: &Chain)
        ensures
            *r == self.chain_spec(),
    {
        &self.chain
    }

    /// The fallback waiting for its state revert, if any.
    pub fn pending_fallback(&self) -> (r: Option<Fallback>)
        ensures
            r == self.pending_spec(),
    {
        self.pending
    }

    /// Whether the machine is in InSync mode.
    pub fn is_in_sync(&self) -> (r: bool)
        ensures
            r == (self.state_spec() is InSync),
    {
        match &self.curr {
            State::InSync { .. } => true,
            State::OutOfSync(_) => false,
        }
    }

    /// The bulk download window, in OutOfSync mode.
    pub fn sync_range(&self) -> (r: Option<(u64, u64)>)
        ensures
            match self.state_spec() {
                State::OutOfSync(o) => r == Some((o.range_from, o.range_to)),
                State::InSync { .. } => r is None,
            },
    {
        match &self.curr {
            State::InSync { .. } => None,
            State::OutOfSync(o) => Some((o.range_from, o.range_to)),
        }
    }

    /// Whether a block hash is blacklisted.
    pub fn is_blacklisted(&self, hash: &Digest) -> (r: bool)
        ensures
            r == listed(self.blacklist(), *hash),
    {
        let mut i: usize = 0;
        while i < self.blacklisted_blocks.len()
            invariant
                i <= self.blacklisted_blocks@.len(),
                forall|x: int| 0 <= x < i ==> self.blacklisted_blocks@[x] != *hash,
            decreases self.blacklisted_blocks@.len() - i,
        {
            if bytes_eq(&self.blacklisted_blocks[i], hash) {
                assert(self.blacklisted_blocks@[i as int] == *hash);
                return true;
            }
            i = i + 1;
        }
        false
    }

    fn blacklist_insert(&mut self, hash: Digest)
        requires
            distinct_hashes(old(self).blacklist()),
        ensures
            distinct_hashes(final(self).blacklist()),
            final(self).blacklist() == if listed(old(self).blacklist(), hash) {
                old(self).blacklist()
            } else {
                old(self).blacklist().push(hash)
            },
            final(self).cache() == old(self).cache(),
            final(self).chain_spec() == old(self).chain_spec(),
            final(self).state_spec() == old(self).state_spec(),
            final(self).pending_spec() == old(self).pending_spec(),
    {
        if !self.is_blacklisted(&hash) {
            self.blacklisted_blocks.push(hash);
        }
    }

    /// Drops cached attestations whose expiry is not after `now`.
    fn purge_cache(&mut self, now: u64)
        ensures
            final(self).chain_spec() == old(self).chain_spec(),
            final(self).blacklist() == old(self).blacklist(),
            final(self).state_spec() == old(self).state_spec(),
            final(self).pending_spec() == old(self).pending_spec(),
            final(self).cache() == unexpired(old(self).cache(), now),
            distinct_cache(old(self).cache()) ==> distinct_cache(final(self).cache()),
    {
        proof {
            if distinct_cache(self.cache()) {
                lemma_unexpired_distinct(self.cache(), now);
            }
        }
        let mut kept: Vec<(Digest, Attestation, u64)> = Vec::new();
        let mut i: usize = 0;
        while i < self.attestations_cache.len()
            invariant
                i <= self.attestations_cache@.len(),
                kept@ == unexpired(self.attestations_cache@.take(i as int), now),
            decreases self.attestations_cache@.len() - i,
        {
            let e = self.attestations_cache[i];
            assert(self.attestations_cache@.take(i as int + 1).drop_last() =~= self.attestations_cache@.take(i as int));
            if e.2 > now {
                kept.push(e);
            }
            i = i + 1;
        }
        assert(self.attestations_cache@.take(i as int) =~= self.attestations_cache@);
        self.attestations_cache = kept;
    }

    pub closed spec fn cache(&self) -> Seq<(Digest, Attestation, u64)> {
        self.attestations_cache@
    }

    /// The attestation cached for a block hash.
    fn cached_att(&self, hash: &Digest) -> (r: Option<Attestation>)
        ensures
            r matches Some(a) ==> exists|i: int| 0 <= i < self.cache().len() && self.cache()[i].0 == *hash && self.cache()[i].1 == a,
            r is None ==> forall|i: int| 0 <= i < self.cache().len() ==> self.cache()[i].0 != *hash,
    {
        let mut i: usize = 0;
        while i < self.attestations_cache.len()
            invariant
                i <= self.attestations_cache@.len(),
                forall|x: int| 0 <= x < i ==> self.attestations_cache@[x].0 != *hash,
            decreases self.attestations_cache@.len() - i,
        {
            if bytes_eq(&self.attestations_cache[i].0, hash) {
                assert(self.cache()[i as int].0 == *hash);
                return Some(self.attestations_cache[i].1);
            }
            i = i + 1;
        }
        None
    }

    /// Removes the cached attestation of a block hash.
    fn uncache(&mut self, hash: &Digest)
        ensures
            final(self).chain_spec() == old(self).chain_spec(),
            final(self).blacklist() == old(self).blacklist(),
            final(self).state_spec() == old(self).state_spec(),
            final(self).pending_spec() == old(self).pending_spec(),
            final(self).cache() == without_hash(old(self).cache(), *hash),
            distinct_cache(old(self).cache()) ==> distinct_cache(final(self).cache()),
    {
        proof {
            if distinct_cache(self.cache()) {
                lemma_without_hash_distinct(self.cache(), *hash);
            }
        }
        let mut kept: Vec<(Digest, Attestation, u64)> = Vec::new();
        let mut i: usize = 0;
        while i < self.attestations_cache.len()
            invariant
                i <= self.attestations_cache@.len(),
                kept@ == without_hash(self.attestations_cache@.take(i as int), *hash),
            decreases self.attestations_cache@.len() - i,
        {
            let e = self.attestations_cache[i];
            assert(self.attestations_cache@.take(i as int + 1).drop_last() =~= self.attestations_cache@.take(i as int));
            if !bytes_eq(&e.0, hash) {
                kept.push(e);
            }
            i = i + 1;
        }
        assert(self.attestations_cache@.take(i as int) =~= self.attestations_cache@);
        self.attestations_cache = kept;
    }

    /// Gives a block read from the candidate store (without attestation) the
    /// attestation cached for it; such a block without a cached attestation
    /// is dropped. Expired entries and the block's own entry leave the cache.
    pub fn attach_att_if_needed(&mut self, blk: BlockInfo, now: u64) -> (r: Option<BlockInfo>)
        ensures
            final(self).chain_spec() == old(self).chain_spec(),
            final(self).blacklist() == old(self).blacklist(),
            final(self).state_spec() == old(self).state_spec(),
            final(self).pending_spec() == old(self).pending_spec(),
            final(self).cache() == without_hash(unexpired(old(self).cache(), now), blk.hash),
            distinct_cache(old(self).cache()) ==> distinct_cache(final(self).cache()),
            blk.att is Some ==> r == Some(blk),
            blk.att is None ==> match r {
                Some(b) => b == (BlockInfo { att: b.att, ..blk }) && b.att is Some
                    && exists|i: int| 0 <= i < old(self).cache().len() && old(self).cache()[i].0 == blk.hash
                        && Some(old(self).cache()[i].1) == b.att,
                None => forall|i: int| 0 <= i < old(self).cache().len() ==> old(self).cache()[i].0 != blk.hash,
            },
    {
        let res = match blk.att {
            Some(_) => Some(blk),
            None => match self.cached_att(&blk.hash) {
                Some(att) => Some(BlockInfo { att: Some(att), ..blk }),
                None => None,
            },
        };
        self.purge_cache(now);
        self.uncache(&blk.hash);
        res
    }

    /// Caches the attestation of a block that is not held locally and floods
    /// a request for the block; nothing when one is already cached.
    fn flood_request_block(&mut self, hash: Digest, att: Attestation, now: u64, actions: &mut Vec<Action>)
        ensures
            final(self).chain_spec() == old(self).chain_spec(),
            final(self).blacklist() == old(self).blacklist(),
            final(self).state_spec() == old(self).state_spec(),
            final(self).pending_spec() == old(self).pending_spec(),
            cache_has(old(self).cache(), hash) ==> final(actions)@ == old(actions)@
                && final(self).cache() == old(self).cache(),
            !cache_has(old(self).cache(), hash) ==> final(actions)@ == old(actions)@.push(
                Action::FloodRequestCandidate { hash, hops: DEFAULT_HOPS_LIMIT },
            ) && final(self).cache() == old(self).cache().push((hash, att, sat_add(now, DEFAULT_ATT_CACHE_EXPIRY_MILLIS))),
            distinct_cache(old(self).cache()) ==> distinct_cache(final(self).cache()),
    {
        if self.cached_att(&hash).is_some() {
            return;
        }
        self.attestations_cache.push((hash, att, now.saturating_add(DEFAULT_ATT_CACHE_EXPIRY_MILLIS)));
        actions.push(Action::FloodRequestCandidate { hash, hops: DEFAULT_HOPS_LIMIT });
    }

    /// Accepts `blk` on the local chain when it extends the tip.
    fn accept(&mut self, blk: BlockInfo) -> (r: Result<(), AcceptError>)
        requires
            old(self).wf(),
        ensures
            final(self).wf(),
            r is Ok <==> extends(old(self).chain_spec().tip_spec(), blk),
            r is Ok ==> final(self).chain_spec().blocks() == old(self).chain_spec().blocks().push(blk),
            r is Err ==> final(self).chain_spec().blocks() == old(self).chain_spec().blocks(),
            final(self).chain_spec().final_height_spec() == old(self).chain_spec().final_height_spec(),
            final(self).blacklist() == old(self).blacklist(),
            final(self).state_spec() == old(self).state_spec(),
            final(self).pending_spec() == old(self).pending_spec(),
    {
        self.chain.try_accept_block(blk)
    }

    /// Asks for the state revert of a fallback onto `prev`, the block that
    /// `remote` extends; nothing when `prev` lies below the finalized height.
    fn request_fallback(&mut self, remote: BlockInfo, prev: BlockInfo, abandoned: Digest, actions: &mut Vec<Action>)
        requires
            old(self).wf(),
        ensures
            final(self).wf(),
            final(self).chain_spec() == old(self).chain_spec(),
            final(self).blacklist() == old(self).blacklist(),
            final(self).state_spec() == old(self).state_spec(),
            prev.height < old(self).chain_spec().final_height_spec() ==> final(actions)@ == old(actions)@
                && final(self).pending_spec() == old(self).pending_spec(),
            prev.height >= old(self).chain_spec().final_height_spec() ==> final(actions)@ == old(actions)@.push(Action::RevertState { state_hash: prev.state_hash })
                && final(self).pending_spec() == Some(Fallback { remote, revert_height: prev.height, abandoned }),
    {
        if prev.height < self.chain.final_height() {
            return;
        }
        self.pending = Some(Fallback { remote, revert_height: prev.height, abandoned });
        actions.push(Action::RevertState { state_hash: prev.state_hash });
    }

    /// InSync handling of a block; returns the target and peer of a bulk
    /// download when one must start.
    fn in_sync_on_block_event(
        &mut self,
        remote: BlockInfo,
        src: Option<PeerId>,
        now: u64,
        finalizes: bool,
        actions: &mut Vec<Action>,
    ) -> (r: Option<(BlockInfo, PeerId)>)
        requires
            old(self).wf(),
            old(self).state_spec() is InSync,
        ensures
            final(self).wf(),
            final(self).state_spec() is InSync,
            is_prefix(old(self).chain_spec().blocks(), final(self).chain_spec().blocks()),
            remote.height == old(self).chain_spec().tip_spec().height + 1 ==> {
                &&& extends(old(self).chain_spec().tip_spec(), remote) ==> final(self).chain_spec().blocks() == old(self).chain_spec().blocks().push(remote)
                &&& !extends(old(self).chain_spec().tip_spec(), remote) ==> final(self).chain_spec().blocks() == old(self).chain_spec().blocks()
            },
            remote.height != old(self).chain_spec().tip_spec().height + 1 ==> final(self).chain_spec() == old(self).chain_spec(),
            remote.height == old(self).chain_spec().tip_spec().height && remote.hash == old(self).chain_spec().tip_spec().hash ==> {
                &&& final(self).chain_spec() == old(self).chain_spec()
                &&& final(self).blacklist() == old(self).blacklist()
                &&& final(self).state_spec() == old(self).state_spec()
                &&& final(actions)@ == old(actions)@
                &&& r is None
            },
            remote.height as int > old(self).chain_spec().tip_spec().height as int + 1 ==>
                final(self).state_spec() == recorded_presync(old(self).state_spec(), src, remote, old(self).chain_spec().tip_spec().height, now),
            extends(old(self).chain_spec().tip_spec(), remote) ==> final(actions)@ == old(actions)@,
            extends(old(self).chain_spec().tip_spec(), remote) ==> match presync_switch(old(self).state_spec(), src, remote) {
                Some(p) => r == Some((p.target_blk, p.peer_addr)) && final(self).state_spec() == (State::InSync { presync: None }),
                None => r is None && final(self).state_spec() == old(self).state_spec(),
            },
            remote.height as int > old(self).chain_spec().tip_spec().height as int + 1 ==> {
                &&& r is None
                &&& final(self).chain_spec() == old(self).chain_spec()
                &&& final(self).blacklist() == old(self).blacklist()
                &&& final(actions)@ == match src {
                    Some(peer) => old(actions)@.push(Action::RequestBlockByHeight {
                        height: (old(self).chain_spec().tip_spec().height + 1) as u64,
                        peer,
                    }),
                    None => old(actions)@,
                }
            },
            fallback_case(old(self).chain_spec(), remote) matches Some((prev, abandoned)) ==> {
                &&& applicable(final(self).chain_spec(), final(self).pending_spec()->0)
                &&& final(actions)@ == old(actions)@.push(Action::RevertState { state_hash: prev.state_hash })
                &&& final(self).pending_spec() == Some(Fallback { remote, revert_height: prev.height, abandoned })
                &&& final(self).chain_spec() == old(self).chain_spec()
                &&& final(self).blacklist() == old(self).blacklist()
                &&& final(self).state_spec() == old(self).state_spec()
                &&& r is None
            },
    {
        let tip = self.chain.tip();
        let presync = match &self.curr {
            State::InSync { presync } => *presync,
            State::OutOfSync(_) => None,
        };
        if remote.height < tip.height {
            if self.chain.contains_hash(&remote.hash) {
                return None;
            }
            if remote.height <= self.chain.final_height() {
                return None;
            }
            // A competing block at a non-final height: fall back to it when it
            // was produced at an earlier iteration than the local one.
            if let (Some(prev), Some(local)) = (self.chain.block_at_height(remote.height - 1), self.chain.block_at_height(remote.height)) {
                if bytes_eq(&prev.hash, &remote.prev_block_hash) && remote.iteration < local.iteration {
                    proof {
                        lemma_at_height(self.chain_spec(), remote.height - 1);
                    }
                    self.request_fallback(remote, prev, local.hash, actions);
                }
            }
            return None;
        }
        if remote.height == tip.height {
            if bytes_eq(&remote.hash, &tip.hash) {
                return None;
            }
            // A competing block at the tip's height.
            if remote.height > 0 {
                if let Some(prev) = self.chain.block_at_height(remote.height - 1) {
                    if bytes_eq(&prev.hash, &remote.prev_block_hash) {
                        proof {
                            lemma_at_height(self.chain_spec(), remote.height - 1);
                        }
                        self.request_fallback(remote, prev, tip.hash, actions);
                    }
                }
            }
            return None;
        }
        if tip.height < u64::MAX && remote.height == tip.height + 1 {
            if self.accept(remote).is_err() {
                return None;
            }
            if finalizes {
                self.chain.finalize_up_to(remote.height);
                self.blacklisted_blocks = Vec::new();
            }
            // The block asked from a presync peer opens the bulk download.
            if let (Some(peer), Some(p)) = (src, presync) {
                if peer == p.peer_addr && p.start_height < u64::MAX && remote.height == p.start_height + 1 {
                    self.curr = State::InSync { presync: None };
                    return Some((p.target_blk, p.peer_addr));
                }
            }
            return None;
        }
        // A block from the future: ask its sender for the next block first.
        if let Some(peer) = src {
            if presync.is_none() {
                self.curr = State::InSync { presync: Some(PresyncInfo::new(peer, remote, tip.height, now)) };
            }
            actions.push(Action::RequestBlockByHeight { height: tip.height + 1, peer });
        }
        None
    }

    /// Enters bulk download toward `target` from `peer`.
    fn enter_out_of_sync(&mut self, target: BlockInfo, peer: PeerId, now: u64, actions: &mut Vec<Action>)
        requires
            old(self).wf(),
        ensures
            final(self).wf(),
            final(self).chain_spec() == old(self).chain_spec(),
            final(self).blacklist() == old(self).blacklist(),
            final(self).state_spec() is OutOfSync,
            ({
                let tip = old(self).chain_spec().tip_spec();
                &&& final(self).state_spec()->OutOfSync_0.range_from == tip.height
                &&& final(self).state_spec()->OutOfSync_0.range_to == window_end(tip.height, target.height)
                &&& final(self).state_spec()->OutOfSync_0.target_height == target.height
                &&& final(self).state_spec()->OutOfSync_0.peer_addr == peer
                &&& final(self).state_spec()->OutOfSync_0.pool@ == seq![target]
                &&& final(self).state_spec()->OutOfSync_0.start_time == now
                &&& final(self).state_spec()->OutOfSync_0.attempts == SYNC_ATTEMPTS
                &&& final(self).pending_spec() == old(self).pending_spec()
                &&& final(actions)@ == old(actions)@.push(Action::GetBlocks { locator: tip.hash, peer })
            }),
    {
        let tip = self.chain.tip();
        let mut pool: Vec<BlockInfo> = Vec::new();
        pool.push(target);
        assert(pool@ =~= seq![target]);
        let o = OutOfSyncImpl {
            range_from: tip.height,
            range_to: next_window_end(tip.height, target.height),
            target_height: target.height,
            start_time: now,
            pool,
            peer_addr: peer,
            attempts: SYNC_ATTEMPTS,
        };
        actions.push(Action::GetBlocks { locator: tip.hash, peer });
        self.curr = State::OutOfSync(o);
    }

    /// The pooled block at a height, if any.
    fn pooled_at(pool: &Vec<BlockInfo>, height: u64) -> (r: Option<BlockInfo>)
        ensures
            r matches Some(b) ==> b.height == height && pool@.contains(b),
            r is None <==> !pooled(pool@, height as int),
            r == pool_at(pool@, height, 0),
    {
        let mut i: usize = 0;
        while i < pool.len()
            invariant
                i <= pool@.len(),
                forall|x: int| 0 <= x < i ==> pool@[x].height != height,
                pool_at(pool@, height, 0) == pool_at(pool@, height, i as int),
            decreases pool@.len() - i,
        {
            if pool[i].height == height {
                assert(pool@[i as int] == pool[i as int]);
                return Some(pool[i]);
            }
            i = i + 1;
        }
        None
    }

    /// OutOfSync handling of a block; returns whether to go back to InSync.
    fn out_of_sync_on_block_event(
        &mut self,
        blk: BlockInfo,
        src: Option<PeerId>,
        now: u64,
        actions: &mut Vec<Action>,
    ) -> (r: bool)
        requires
            old(self).wf(),
            old(self).state_spec() is OutOfSync,
        ensures
            final(self).wf(),
            !r ==> final(self).state_spec() is OutOfSync,
            final(self).blacklist() == old(self).blacklist(),
            final(self).pending_spec() == old(self).pending_spec(),
            is_prefix(old(self).chain_spec().blocks(), final(self).chain_spec().blocks()),
            final(self).chain_spec().final_height_spec() == old(self).chain_spec().final_height_spec(),
            ({
                let o = old(self).state_spec()->OutOfSync_0;
                let tip = old(self).chain_spec().tip_spec();
                let expired = sat_add(o.start_time, EXPIRY_TIMEOUT_MILLIS) <= now;
                &&& expired ==> r && final(actions)@ == old(actions)@.push(Action::RestartConsensus)
                    && final(self).chain_spec() == old(self).chain_spec()
                &&& !expired && blk.height <= tip.height ==> !r && final(actions)@ == old(actions)@
                    && final(self).chain_spec() == old(self).chain_spec()
                    && final(self).state_spec() == old(self).state_spec()
                &&& !expired && blk.height as int > tip.height as int + 1 ==> {
                    &&& !r
                    &&& final(actions)@ == old(actions)@
                    &&& final(self).chain_spec() == old(self).chain_spec()
                    &&& (final(self).state_spec() matches State::OutOfSync(n) && n.range_from == o.range_from
                        && n.range_to == o.range_to && n.start_time == o.start_time && n.attempts == o.attempts
                        && n.pool@ == (if o.pool@.len() < MAX_BLOCKS_TO_REQUEST { o.pool@.push(blk) } else { o.pool@ }))
                }
                &&& !expired && extends(tip, blk) ==> is_prefix(old(self).chain_spec().blocks().push(blk), final(self).chain_spec().blocks())
                &&& !expired && extends(tip, blk) ==> {
                    let after = drained(old(self).chain_spec().blocks().push(blk), o.pool@, blk.height, o.range_to);
                    &&& final(self).chain_spec().blocks() == after
                    &&& r == (after.last().height >= o.range_to && after.last().height >= o.target_height)
                }
            }),
    {
        let mut st = State::InSync { presync: None };
        std::mem::swap(&mut st, &mut self.curr);
        let mut o = match st {
            State::OutOfSync(o) => o,
            State::InSync { presync } => {
                self.curr = State::InSync { presync };
                return true;
            },
        };
        let back = o.on_block_event(&mut self.chain, blk, src, now, actions);
        self.curr = State::OutOfSync(o);
        back
    }

    /// Handles a block that arrived from local consensus, from a peer
    /// (`src`), or from a quorum. `finalizes` says whether the acceptor's
    /// finality rule makes the block final once accepted.
    ///
    /// A blacklisted block is dropped, as is a block without attestation
    /// for which none is cached. Otherwise the current mode handles it and
    /// may switch modes.
    pub fn on_block_event(&mut self, blk: BlockInfo, src: Option<PeerId>, now: u64, finalizes: bool) -> (r: BlockEventResult)
        requires
            old(self).wf(),
        ensures
            final(self).wf(),
            is_prefix(old(self).chain_spec().blocks(), final(self).chain_spec().blocks()),
            listed(old(self).blacklist(), blk.hash) ==> {
                &&& r.block is None
                &&& r.actions@.len() == 0
                &&& final(self).cache() == old(self).cache()
                &&& final(self).pending_spec() == old(self).pending_spec()
                &&& final(self).chain_spec() == old(self).chain_spec()
                &&& final(self).state_spec() == old(self).state_spec()
                &&& final(self).blacklist() == old(self).blacklist()
            },
            !listed(old(self).blacklist(), blk.hash) && blk.att is Some ==> r.block == Some(blk),
            !listed(old(self).blacklist(), blk.hash) && blk.att is None
                && (forall|i: int| 0 <= i < old(self).cache().len() ==> old(self).cache()[i].0 != blk.hash) ==> {
                &&& r.block is None
                &&& r.actions@.len() == 0
                &&& final(self).chain_spec() == old(self).chain_spec()
                &&& final(self).state_spec() == old(self).state_spec()
            },
            !listed(old(self).blacklist(), blk.hash) && blk.att is Some && old(self).state_spec() is OutOfSync
                && sat_add(old(self).state_spec()->OutOfSync_0.start_time, EXPIRY_TIMEOUT_MILLIS) <= now ==> {
                &&& r.block == Some(blk)
                &&& r.actions@ == seq![Action::RestartConsensus]
                &&& final(self).state_spec() == (State::InSync { presync: None })
                &&& extends(old(self).chain_spec().tip_spec(), blk) ==> final(self).chain_spec().blocks() == old(self).chain_spec().blocks().push(blk)
            },
            !listed(old(self).blacklist(), blk.hash) && blk.att is Some && old(self).state_spec() is InSync ==> {
                let tip = old(self).chain_spec().tip_spec();
                &&& r.block == Some(blk)
                &&& extends(tip, blk) ==> final(self).chain_spec().blocks() == old(self).chain_spec().blocks().push(blk)
                &&& blk.height == tip.height && blk.hash == tip.hash ==> {
                    &&& final(self).chain_spec() == old(self).chain_spec()
                    &&& final(self).state_spec() == old(self).state_spec()
                    &&& final(self).blacklist() == old(self).blacklist()
                    &&& r.actions@.len() == 0
                }
                &&& blk.height as int > tip.height as int + 1 ==>
                    final(self).state_spec() == recorded_presync(old(self).state_spec(), src, blk, tip.height, now)
                &&& extends(tip, blk) ==> match presync_switch(old(self).state_spec(), src, blk) {
                    Some(p) => {
                        &&& r.actions@ == seq![Action::GetBlocks { locator: blk.hash, peer: p.peer_addr }]
                        &&& (final(self).state_spec() matches State::OutOfSync(o) && o.range_from == blk.height
                            && o.range_to == window_end(blk.height, p.target_blk.height)
                            && o.target_height == p.target_blk.height && o.peer_addr == p.peer_addr
                            && o.pool@ == seq![p.target_blk] && o.start_time == now && o.attempts == SYNC_ATTEMPTS)
                    },
                    None => r.actions@.len() == 0 && final(self).state_spec() == old(self).state_spec(),
                }
                &&& blk.height as int > tip.height as int + 1 ==> {
                    &&& final(self).chain_spec() == old(self).chain_spec()
                    &&& r.actions@ == match src {
                        Some(peer) => seq![Action::RequestBlockByHeight { height: (tip.height + 1) as u64, peer }],
                        None => Seq::<Action>::empty(),
                    }
                }
                &&& fallback_case(old(self).chain_spec(), blk) matches Some((prev, abandoned)) ==> {
                    &&& applicable(final(self).chain_spec(), final(self).pending_spec()->0)
                    &&& r.actions@ == seq![Action::RevertState { state_hash: prev.state_hash }]
                    &&& final(self).pending_spec() == Some(Fallback { remote: blk, revert_height: prev.height, abandoned })
                    &&& final(self).chain_spec() == old(self).chain_spec()
                    &&& final(self).state_spec() == old(self).state_spec()
                    &&& final(self).blacklist() == old(self).blacklist()
                }
            },
    {
        let mut actions: Vec<Action> = Vec::new();
        if self.is_blacklisted(&blk.hash) {
            return BlockEventResult { block: None, actions };
        }
        let blk = match self.attach_att_if_needed(blk, now) {
            Some(b) => b,
            None => return BlockEventResult { block: None, actions },
        };
        let in_sync = self.is_in_sync();
        if in_sync {
            if let Some((target, peer)) = self.in_sync_on_block_event(blk, src, now, finalizes, &mut actions) {
                self.enter_out_of_sync(target, peer, now, &mut actions);
            }
        } else {
            if self.out_of_sync_on_block_event(blk, src, now, &mut actions) {
                self.curr = State::InSync { presync: None };
                // Entering InSync: accept the block when it follows the tip.
                let tip_height = self.chain.height();
                if tip_height < u64::MAX && blk.height == tip_height + 1 {
                    let _ = self.accept(blk);
                }
            }
        }
        BlockEventResult { block: Some(blk), actions }
    }

    /// Handles the periodic tick: an expired presync request is dropped; a
    /// stalled download re-requests the missing blocks of its window, or
    /// gives up after its attempts and goes back to InSync.
    pub fn on_heartbeat_event(&mut self, now: u64) -> (r: Vec<Action>)
        requires
            old(self).wf(),
        ensures
            final(self).wf(),
            final(self).chain_spec() == old(self).chain_spec(),
            final(self).blacklist() == old(self).blacklist(),
            final(self).pending_spec() == old(self).pending_spec(),
            match old(self).state_spec() {
                State::InSync { presync } => r@.len() == 0 && final(self).state_spec() == (match presync {
                    Some(p) => if p.expiry <= now { State::InSync { presync: None } } else { old(self).state_spec() },
                    None => old(self).state_spec(),
                }),
                State::OutOfSync(o) => if sat_add(o.start_time, EXPIRY_TIMEOUT_MILLIS) > now {
                    r@.len() == 0 && final(self).state_spec() == old(self).state_spec()
                } else if o.attempts == 0 {
                    r@ == seq![Action::RestartConsensus] && final(self).state_spec() == (State::InSync { presync: None })
                } else {
                    &&& is_retry_actions(o, r@)
                    &&& (final(self).state_spec() matches State::OutOfSync(n) && n.range_from == o.range_from
                        && n.range_to == o.range_to && n.target_height == o.target_height && n.pool@ == o.pool@
                        && n.peer_addr == o.peer_addr && n.start_time == now && n.attempts == o.attempts - 1)
                },
            },
    {
        let mut actions: Vec<Action> = Vec::new();
        let next = match &self.curr {
            State::InSync { presync } => {
                match presync {
                    Some(p) => if p.expiry <= now { Some(State::InSync { presync: None }) } else { None },
                    None => None,
                }
            },
            State::OutOfSync(o) => {
                if o.start_time.saturating_add(EXPIRY_TIMEOUT_MILLIS) <= now {
                    if o.attempts == 0 {
                        actions.push(Action::RestartConsensus);
                        Some(State::InSync { presync: None })
                    } else {
                        let mut heights: Vec<u64> = Vec::new();
                        let mut height = o.range_from;
                        while height <= o.range_to && height < u64::MAX
                            invariant
                                o.range_from <= height,
                                height <= o.range_to as int + 1 || height == o.range_from,
                                heights@ == missing_heights(o.pool@, o.range_from as int, height as int),
                            decreases u64::MAX - height,
                        {
                            height = height + 1;
                            if Self::pooled_at(&o.pool, height).is_none() {
                                heights.push(height);
                            }
                        }
                        proof {
                            let hi = if o.range_to < u64::MAX { o.range_to as int + 1 } else { u64::MAX as int };
                            if height > hi {
                                // An empty window.
                                assert(missing_heights(o.pool@, o.range_from as int, hi) == Seq::<u64>::empty());
                            }
                        }
                        if heights.len() > 0 {
                            actions.push(Action::FloodRequestBlocks { heights, hops: MISSING_BLOCKS_HOPS });
                        }
                        let mut n = o.clone_state();
                        n.start_time = now;
                        n.attempts = o.attempts - 1;
                        Some(State::OutOfSync(n))
                    }
                } else {
                    None
                }
            },
        };
        if let Some(s) = next {
            self.curr = s;
        }
        actions
    }

    /// Handles a quorum for block `hash` of round `round`, carrying attestation
    /// `att`; `candidate` is the candidate block stored under `hash`, if any.
    ///
    /// A quorum from beyond the next round caches the attestation and
    /// floods a request for the block. A quorum for the next round, or for a
    /// different block of the current round, turns the candidate into a block
    /// event; a missing candidate is requested as above.
    pub fn on_quorum_msg(
        &mut self,
        att: Attestation,
        round: u64,
        candidate: Option<BlockInfo>,
        src: Option<PeerId>,
        now: u64,
        finalizes: bool,
    ) -> (r: BlockEventResult)
        requires
            old(self).wf(),
        ensures
            final(self).wf(),
            is_prefix(old(self).chain_spec().blocks(), final(self).chain_spec().blocks()),
            !(att.result matches RatificationResult::Success(Vote::Valid(_))) ==> {
                &&& r.block is None
                &&& r.actions@.len() == 0
                &&& final(self).chain_spec() == old(self).chain_spec()
                &&& final(self).state_spec() == old(self).state_spec()
                &&& final(self).blacklist() == old(self).blacklist()
            },
            att.result matches RatificationResult::Success(Vote::Valid(hash)) ==> {
                let tip = old(self).chain_spec().tip_spec();
                let next_round = round as int == tip.height as int + 1;
                let competing = round == tip.height && hash != tip.hash;
                let c = unexpired(old(self).cache(), now);
                let requested = if cache_has(c, hash) {
                    r.actions@ == Seq::<Action>::empty() && final(self).cache() == c
                } else {
                    r.actions@ == seq![Action::FloodRequestCandidate { hash, hops: DEFAULT_HOPS_LIMIT }]
                        && final(self).cache() == c.push((hash, att, sat_add(now, DEFAULT_ATT_CACHE_EXPIRY_MILLIS)))
                };
                &&& (round as int > tip.height as int + 1 || ((next_round || competing) && !(candidate is Some && candidate->0.hash == hash))) ==> {
                    &&& r.block is None
                    &&& requested
                    &&& final(self).chain_spec() == old(self).chain_spec()
                    &&& final(self).state_spec() == old(self).state_spec()
                }
                &&& (round as int <= tip.height as int && !competing) ==> {
                    &&& r.block is None
                    &&& r.actions@.len() == 0
                    &&& final(self).chain_spec() == old(self).chain_spec()
                    &&& final(self).state_spec() == old(self).state_spec()
                }
                &&& ((next_round || competing) && candidate is Some && candidate->0.hash == hash
                    && !listed(old(self).blacklist(), hash)) ==> r.block == Some(BlockInfo { att: Some(att), ..candidate->0 })
                &&& ((next_round || competing) && candidate is Some && candidate->0.hash == hash
                    && !listed(old(self).blacklist(), hash) && old(self).state_spec() is InSync
                    && extends(tip, candidate->0)) ==> final(self).chain_spec().blocks()
                    == old(self).chain_spec().blocks().push(BlockInfo { att: Some(att), ..candidate->0 })
            },
    {
        self.purge_cache(now);
        let mut actions: Vec<Action> = Vec::new();
        let hash = match att.result {
            RatificationResult::Success(Vote::Valid(h)) => h,
            _ => return BlockEventResult { block: None, actions },
        };
        let tip = self.chain.tip();
        if tip.height < u64::MAX - 1 && round > tip.height + 1 {
            self.flood_request_block(hash, att, now, &mut actions);
            return BlockEventResult { block: None, actions };
        }
        let next_round = tip.height < u64::MAX && round == tip.height + 1;
        let competing = round == tip.height && !bytes_eq(&tip.hash, &hash);
        if !next_round && !competing {
            return BlockEventResult { block: None, actions };
        }
        match candidate {
            Some(b) => {
                if !bytes_eq(&b.hash, &hash) {
                    self.flood_request_block(hash, att, now, &mut actions);
                    return BlockEventResult { block: None, actions };
                }
                let blk = BlockInfo { att: Some(att), ..b };
                let mut res = self.on_block_event(blk, src, now, finalizes);
                res.actions.append(&mut actions);
                res
            },
            None => {
                self.flood_request_block(hash, att, now, &mut actions);
                BlockEventResult { block: None, actions }
            },
        }
    }

    /// Completes the pending fallback once the state revert is done. On
    /// success the chain goes back to the block the remote extends, the
    /// abandoned local block is blacklisted and the remote block becomes the
    /// tip. On failure, or when the chain no longer fits the fallback,
    /// nothing changes but the pending fallback is dropped.
    pub fn on_fallback_done(&mut self, revert_ok: bool) -> (r: Vec<Action>)
        requires
            old(self).wf(),
        ensures
            final(self).wf(),
            final(self).pending_spec() is None,
            !revert_ok ==> final(self).chain_spec() == old(self).chain_spec()
                && final(self).blacklist() == old(self).blacklist()
                && final(self).state_spec() == old(self).state_spec(),
            revert_ok && old(self).pending_spec() is Some && applicable(old(self).chain_spec(), old(self).pending_spec()->0) ==> {
                let f = old(self).pending_spec()->0;
                &&& final(self).chain_spec().tip_spec() == f.remote
                &&& listed(final(self).blacklist(), f.abandoned)
                &&& final(self).blacklist() == if listed(old(self).blacklist(), f.abandoned) {
                    old(self).blacklist()
                } else {
                    old(self).blacklist().push(f.abandoned)
                }
                &&& final(self).state_spec() == old(self).state_spec()
                &&& final(self).chain_spec().blocks() == old(self).chain_spec().blocks().take(
                    f.revert_height - old(self).chain_spec().blocks()[0].height + 1).push(f.remote)
            },
    {
        let mut actions: Vec<Action> = Vec::new();
        let f = match self.pending {
            Some(f) => f,
            None => return actions,
        };
        self.pending = None;
        if !revert_ok {
            return actions;
        }
        if !self.fallback_applicable(&f) {
            return actions;
        }
        self.chain.revert_to_height(f.revert_height);
        self.blacklist_insert(f.abandoned);
        let r = self.accept(f.remote);
        assert(r is Ok);
        assert(listed(self.blacklist(), f.abandoned)) by {
            if !listed(old(self).blacklist(), f.abandoned) {
                assert(self.blacklist()[self.blacklist().len() - 1] == f.abandoned);
            }
        }
        actions
    }

    /// The pending fallback still fits the chain: the block the remote
    /// extends is held, at or above the finalized height.
    fn fallback_applicable(&self, f: &Fallback) -> (r: bool)
        requires
            self.wf(),
        ensures
            r == applicable(self.chain_spec(), *f),
    {
        if f.revert_height < self.chain.final_height() || f.revert_height > self.chain.height() {
            return false;
        }
        match self.chain.block_at_height(f.revert_height) {
            Some(prev) => prev.height < u64::MAX && f.remote.height == prev.height + 1 && bytes_eq(&f.remote.prev_block_hash, &prev.hash),
            None => false,
        }
    }

    /// The stalled-chain detector found the node stalled on a fork: the
    /// local block `local_hash_at_fork` and the `remote` block compete at the
    /// same height. Asks for the revert to the state before the fork; the
    /// remote block is accepted and the local one blacklisted in
    /// `on_fallback_done`.
    pub fn on_stalled_on_fork(&mut self, local_hash_at_fork: Digest, remote: BlockInfo) -> (r: Vec<Action>)
        requires
            old(self).wf(),
        ensures
            final(self).wf(),
            final(self).chain_spec() == old(self).chain_spec(),
            final(self).blacklist() == old(self).blacklist(),
            final(self).state_spec() == old(self).state_spec(),
            match fork_parent(old(self).chain_spec(), local_hash_at_fork) {
                Some(prev) => if prev.height >= old(self).chain_spec().final_height_spec() {
                    &&& extends(prev, remote) ==> applicable(final(self).chain_spec(), final(self).pending_spec()->0)
                    &&& r@ == seq![Action::RevertState { state_hash: prev.state_hash }]
                    &&& final(self).pending_spec() == Some(Fallback {
                        remote,
                        revert_height: prev.height,
                        abandoned: local_hash_at_fork,
                    })
                } else {
                    r@.len() == 0 && final(self).pending_spec() == old(self).pending_spec()
                },
                None => r@.len() == 0 && final(self).pending_spec() == old(self).pending_spec(),
            },
    {
        let mut actions: Vec<Action> = Vec::new();
        if let Some(i) = self.chain.find_by_hash(&local_hash_at_fork) {
            if i > 0 {
                let prev = self.chain.block(i - 1);
                proof {
                    lemma_hash_index_range(self.chain_spec().blocks(), local_hash_at_fork, 0);
                    let idx = hash_index_from(self.chain_spec().blocks(), local_hash_at_fork, 0);
                    assert(idx == i as int);
                    assert(prev == self.chain_spec().blocks()[idx - 1]);
                    assert(fork_parent(self.chain_spec(), local_hash_at_fork) == Some(prev));
                    if idx - 1 > 0 {
                        lemma_accepted_blocks_link(self.chain_spec(), idx - 1);
                    }
                    assert(at_height(self.chain_spec().blocks(), prev.height as int) == Some(prev));
                    lemma_at_height(self.chain_spec(), prev.height as int);
                }
                self.request_fallback(remote, prev, local_hash_at_fork, &mut actions);
                proof {
                    if prev.height >= old(self).chain_spec().final_height_spec() {
                        assert(actions@ =~= seq![Action::RevertState { state_hash: prev.state_hash }]);
                    }
                }
            }
        }
        actions
    }

    /// The stalled-chain detector found the node stalled without a known
    /// fork: blocks abandoned by earlier fallbacks may be needed again.
    pub fn on_stalled(&mut self)
        requires
            old(self).wf(),
        ensures
            final(self).wf(),
            final(self).chain_spec() == old(self).chain_spec(),
            final(self).blacklist() == Seq::<Digest>::empty(),
    {
        self.blacklisted_blocks = Vec::new();
    }

    /// Restarts consensus from the current tip.
    pub fn on_failed_consensus(&self) -> (r: Vec<Action>)
        ensures
            r@ == seq![Action::RestartConsensus],
    {
        let mut v: Vec<Action> = Vec::new();
        v.push(Action::RestartConsensus);
        v
    }
}

} // verus!

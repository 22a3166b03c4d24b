//! Mempool admission: duplicate detection, capacity, spend-id conflicts
//! resolved by gas price, and expiry.
use vstd::prelude::*;
use crate::bytes::{bytes_eq, Digest};

verus! {

/// Default age, in seconds, after which a transaction leaves the mempool.
pub const DEFAULT_EXPIRY_TIME: u64 = 3 * 60 * 60;

/// Default number of peers asked for their mempool at start.
pub const DEFAULT_DOWNLOAD_REDUNDANCY: usize = 5;

/// Mempool configuration.
#[derive(Debug, Clone, Copy, PartialEq, Eq)]
pub struct Params {
    pub max_queue_size: usize,
    pub max_mempool_txn_count: usize,
    /// Seconds after which a transaction expires.
    pub mempool_expiry: Option<u64>,
    pub mempool_download_redundancy: Option<usize>,
}

/// A transaction as the mempool sees it: its id, the spend-ids it consumes
/// and the price it pays per unit of gas.
#[derive(Debug, Clone, PartialEq, Eq)]
pub struct Transaction {
    pub id: Digest,
    pub spend_ids: Vec<Digest>,
    pub gas_price: u64,
}

/// A transaction held in the mempool, with its arrival time (seconds).
#[derive(Debug, Clone, PartialEq, Eq)]
pub struct MempoolTx {
    pub tx: Transaction,
    pub received_at: u64,
}

/// Mathematical view of a transaction.
pub struct TxView {
    pub id: Digest,
    pub spend_ids: Seq<Digest>,
    pub gas_price: u64,
}

/// Mathematical view of a held transaction.
pub struct HeldTx {
    pub tx: TxView,
    pub received_at: u64,
}

impl View for Transaction {
    type V = TxView;

    open spec fn view(&self) -> TxView {
        TxView { id: self.id, spend_ids: self.spend_ids@, gas_price: self.gas_price }
    }
}

impl View for MempoolTx {
    type V = HeldTx;

    open spec fn view(&self) -> HeldTx {
        HeldTx { tx: self.tx@, received_at: self.received_at }
    }
}

/// Why a transaction was not admitted.
#[derive(Debug, Clone, PartialEq, Eq)]
pub enum TxAcceptanceError {
    AlreadyExistsInMempool,
    AlreadyExistsInLedger,
    SpendIdExistsInMempool,
    VerificationFailed(String),
    MaxTxnCountExceeded(usize),
}

/// What admission and expiry report.
#[derive(Debug, Clone, Copy, PartialEq, Eq)]
pub enum TransactionEvent {
    Included(Digest),
    Removed(Digest),
}

/// Two transactions consume a common spend-id.
pub open spec fn conflicts(a: TxView, b: TxView) -> bool {
    exists|i: int, j: int| 0 <= i < a.spend_ids.len() && 0 <= j < b.spend_ids.len() && a.spend_ids[i] == b.spend_ids[j]
}

/// Some held transaction has this id.
pub open spec fn holds_id(pool: Seq<HeldTx>, id: Digest) -> bool {
    exists|i: int| 0 <= i < pool.len() && pool[i].tx.id == id
}

/// Some held transaction conflicts with `tx` at a gas price not below its own.
pub open spec fn outbid(pool: Seq<HeldTx>, tx: TxView) -> bool {
    exists|i: int| 0 <= i < pool.len() && conflicts(pool[i].tx, tx) && pool[i].tx.gas_price >= tx.gas_price
}

/// The first `n` held transactions that do not conflict with `tx`.
pub open spec fn kept_upto(pool: Seq<HeldTx>, tx: TxView, n: int) -> Seq<HeldTx>
    decreases n,
{
    if n <= 0 {
        Seq::empty()
    } else {
        let rest = kept_upto(pool, tx, n - 1);
        if conflicts(pool[n - 1].tx, tx) { rest } else { rest.push(pool[n - 1]) }
    }
}

/// `Removed` events for the first `n` held transactions that conflict with `tx`.
pub open spec fn removed_upto(pool: Seq<HeldTx>, tx: TxView, n: int) -> Seq<TransactionEvent>
    decreases n,
{
    if n <= 0 {
        Seq::empty()
    } else {
        let rest = removed_upto(pool, tx, n - 1);
        if conflicts(pool[n - 1].tx, tx) { rest.push(TransactionEvent::Removed(pool[n - 1].tx.id)) } else { rest }
    }
}

/// The outcome of admitting `tx`, in the order the checks are made.
pub open spec fn accept_result(
    pool: Seq<HeldTx>,
    max: usize,
    tx: TxView,
    in_ledger: bool,
    preverify: Result<(), String>,
) -> Result<Seq<TransactionEvent>, TxAcceptanceError> {
    if pool.len() >= max {
        Err(TxAcceptanceError::MaxTxnCountExceeded(pool.len() as usize))
    } else if holds_id(pool, tx.id) {
        Err(TxAcceptanceError::AlreadyExistsInMempool)
    } else if in_ledger {
        Err(TxAcceptanceError::AlreadyExistsInLedger)
    } else if preverify is Err {
        Err(TxAcceptanceError::VerificationFailed(preverify->Err_0))
    } else if outbid(pool, tx) {
        Err(TxAcceptanceError::SpendIdExistsInMempool)
    } else {
        Ok(removed_upto(pool, tx, pool.len() as int).push(TransactionEvent::Included(tx.id)))
    }
}

/// The pool after admitting `tx` at time `now`, when admission succeeds.
pub open spec fn pool_after_accept(pool: Seq<HeldTx>, tx: TxView, now: u64) -> Seq<HeldTx> {
    kept_upto(pool, tx, pool.len() as int).push(HeldTx { tx, received_at: now })
}

/// Held transactions, among the first `n`, that arrived after `expiration`.
pub open spec fn fresh_upto(pool: Seq<HeldTx>, expiration: u64, n: int) -> Seq<HeldTx>
    decreases n,
{
    if n <= 0 {
        Seq::empty()
    } else {
        let rest = fresh_upto(pool, expiration, n - 1);
        if pool[n - 1].received_at <= expiration { rest } else { rest.push(pool[n - 1]) }
    }
}

/// `Removed` events for the held transactions, among the first `n`, that
/// arrived at or before `expiration`.
pub open spec fn expired_upto(pool: Seq<HeldTx>, expiration: u64, n: int) -> Seq<TransactionEvent>
    decreases n,
{
    if n <= 0 {
        Seq::empty()
    } else {
        let rest = expired_upto(pool, expiration, n - 1);
        if pool[n - 1].received_at <= expiration { rest.push(TransactionEvent::Removed(pool[n - 1].tx.id)) } else { rest }
    }
}

/// No transaction id is held twice.
pub open spec fn distinct_ids(pool: Seq<HeldTx>) -> bool {
    forall|i: int, j: int| 0 <= i < j < pool.len() ==> pool[i].tx.id != pool[j].tx.id
}

proof fn lemma_kept_distinct(pool: Seq<HeldTx>, tx: TxView, n: int)
    requires
        0 <= n <= pool.len(),
        distinct_ids(pool),
    ensures
        distinct_ids(kept_upto(pool, tx, n)),
        forall|i: int| 0 <= i < kept_upto(pool, tx, n).len() ==> exists|j: int| 0 <= j < n && pool[j] == #[trigger] kept_upto(pool, tx, n)[i],
    decreases n,
{
    if n > 0 {
        lemma_kept_distinct(pool, tx, n - 1);
        let rest = kept_upto(pool, tx, n - 1);
        assert forall|i: int| 0 <= i < rest.len() implies rest[i].tx.id != pool[n - 1].tx.id by {
            let j = choose|j: int| 0 <= j < n - 1 && pool[j] == rest[i];
        }
        let cur = kept_upto(pool, tx, n);
        assert forall|i: int| 0 <= i < cur.len() implies exists|j: int| 0 <= j < n && pool[j] == #[trigger] cur[i] by {
            if i < rest.len() {
                let j = choose|j: int| 0 <= j < n - 1 && pool[j] == rest[i];
                assert(cur[i] == rest[i]);
            } else {
                assert(cur[i] == pool[n - 1]);
            }
        }
    }
}

proof fn lemma_fresh_distinct(pool: Seq<HeldTx>, expiration: u64, n: int)
    requires
        0 <= n <= pool.len(),
        distinct_ids(pool),
    ensures
        distinct_ids(fresh_upto(pool, expiration, n)),
        forall|i: int| 0 <= i < fresh_upto(pool, expiration, n).len() ==> exists|j: int| 0 <= j < n && pool[j] == #[trigger] fresh_upto(pool, expiration, n)[i],
    decreases n,
{
    if n > 0 {
        lemma_fresh_distinct(pool, expiration, n - 1);
        let rest = fresh_upto(pool, expiration, n - 1);
        assert forall|i: int| 0 <= i < rest.len() implies rest[i].tx.id != pool[n - 1].tx.id by {
            let j = choose|j: int| 0 <= j < n - 1 && pool[j] == rest[i];
        }
        let cur = fresh_upto(pool, expiration, n);
        assert forall|i: int| 0 <= i < cur.len() implies exists|j: int| 0 <= j < n && pool[j] == #[trigger] cur[i] by {
            if i < rest.len() {
                let j = choose|j: int| 0 <= j < n - 1 && pool[j] == rest[i];
                assert(cur[i] == rest[i]);
            } else {
                assert(cur[i] == pool[n - 1]);
            }
        }
    }
}

proof fn lemma_kept_len(pool: Seq<HeldTx>, tx: TxView, n: int)
    requires
        0 <= n <= pool.len(),
    ensures
        kept_upto(pool, tx, n).len() <= n,
    decreases n,
{
    if n > 0 {
        lemma_kept_len(pool, tx, n - 1);
    }
}

proof fn lemma_kept_has_no_conflict(pool: Seq<HeldTx>, tx: TxView, n: int)
    requires
        0 <= n <= pool.len(),
    ensures
        forall|i: int| 0 <= i < kept_upto(pool, tx, n).len() ==> !conflicts(#[trigger] kept_upto(pool, tx, n)[i].tx, tx),
    decreases n,
{
    if n > 0 {
        lemma_kept_has_no_conflict(pool, tx, n - 1);
        let rest = kept_upto(pool, tx, n - 1);
        let cur = kept_upto(pool, tx, n);
        assert forall|i: int| 0 <= i < cur.len() implies !conflicts(#[trigger] cur[i].tx, tx) by {
            if i < rest.len() {
                assert(cur[i] == rest[i]);
            }
        }
    }
}

/// Admission is idempotent: once a transaction is admitted, submitting it
/// again is rejected as already held, unless the pool has become full.
pub proof fn lemma_accept_idempotent(
    pool: Seq<HeldTx>,
    max: usize,
    tx: TxView,
    in_ledger: bool,
    preverify: Result<(), String>,
    now: u64,
    in_ledger2: bool,
    preverify2: Result<(), String>,
)
    requires
        accept_result(pool, max, tx, in_ledger, preverify) is Ok,
        pool_after_accept(pool, tx, now).len() < max,
    ensures
        accept_result(pool_after_accept(pool, tx, now), max, tx, in_ledger2, preverify2)
            == Err::<Seq<TransactionEvent>, TxAcceptanceError>(TxAcceptanceError::AlreadyExistsInMempool),
{
    let after = pool_after_accept(pool, tx, now);
    assert(after[after.len() - 1].tx.id == tx.id);
    assert(holds_id(after, tx.id));
}

/// A full pool admits nothing, and admission never takes the pool past its
/// capacity.
pub proof fn lemma_capacity(pool: Seq<HeldTx>, max: usize, tx: TxView, in_ledger: bool, preverify: Result<(), String>, now: u64)
    requires
        pool.len() <= max,
    ensures
        pool.len() == max ==> accept_result(pool, max, tx, in_ledger, preverify)
            == Err::<Seq<TransactionEvent>, TxAcceptanceError>(TxAcceptanceError::MaxTxnCountExceeded(max)),
        accept_result(pool, max, tx, in_ledger, preverify) is Ok ==> pool_after_accept(pool, tx, now).len() <= max,
{
    lemma_kept_len(pool, tx, pool.len() as int);
}

/// Replace-by-gas-price: a held transaction that shares a spend-id with `tx`
/// and pays at least as much makes `tx` rejected; when every such
/// transaction pays strictly less, `tx` is admitted, it is held afterwards,
/// and no transaction that shares a spend-id with it remains.
pub proof fn lemma_replace_by_gas_price(
    pool: Seq<HeldTx>,
    max: usize,
    tx: TxView,
    preverify: Result<(), String>,
    now: u64,
)
    requires
        pool.len() < max,
        distinct_ids(pool),
        !holds_id(pool, tx.id),
        preverify is Ok,
    ensures
        outbid(pool, tx) ==> accept_result(pool, max, tx, false, preverify)
            == Err::<Seq<TransactionEvent>, TxAcceptanceError>(TxAcceptanceError::SpendIdExistsInMempool),
        !outbid(pool, tx) ==> {
            let after = pool_after_accept(pool, tx, now);
            &&& accept_result(pool, max, tx, false, preverify) is Ok
            &&& after.last().tx == tx
            &&& forall|i: int| 0 <= i < after.len() - 1 ==> !conflicts(#[trigger] after[i].tx, tx)
            &&& forall|j: int| 0 <= j < pool.len() && conflicts(#[trigger] pool[j].tx, tx)
                ==> !holds_id(after.drop_last(), pool[j].tx.id)
        },
{
    lemma_kept_distinct(pool, tx, pool.len() as int);
    lemma_kept_has_no_conflict(pool, tx, pool.len() as int);
    let after = pool_after_accept(pool, tx, now);
    let kept = kept_upto(pool, tx, pool.len() as int);
    assert forall|i: int| 0 <= i < after.len() - 1 implies !conflicts(#[trigger] after[i].tx, tx) by {
        assert(after[i] == kept[i]);
    }
    assert(after.drop_last() =~= kept);
    assert forall|j: int| 0 <= j < pool.len() && conflicts(#[trigger] pool[j].tx, tx)
        implies !holds_id(after.drop_last(), pool[j].tx.id) by {
        if holds_id(kept, pool[j].tx.id) {
            let i = choose|i: int| 0 <= i < kept.len() && kept[i].tx.id == pool[j].tx.id;
            let j2 = choose|j2: int| 0 <= j2 < pool.len() && pool[j2] == kept[i];
            assert(j2 == j);
        }
    }
}

/// Whether two transactions share a spend-id.
fn tx_conflicts(a: &Transaction, b: &Transaction) -> (r: bool)
    ensures
        r == conflicts(a@, b@),
{
    let mut i: usize = 0;
    while i < a.spend_ids.len()
        invariant
            i <= a.spend_ids@.len(),
            forall|x: int, y: int| 0 <= x < i && 0 <= y < b.spend_ids@.len() ==> a.spend_ids@[x] != b.spend_ids@[y],
        decreases a.spend_ids@.len() - i,
    {
        let mut j: usize = 0;
        while j < b.spend_ids.len()
            invariant
                i < a.spend_ids@.len(),
                j <= b.spend_ids@.len(),
                forall|x: int, y: int| 0 <= x < i && 0 <= y < b.spend_ids@.len() ==> a.spend_ids@[x] != b.spend_ids@[y],
                forall|y: int| 0 <= y < j ==> a.spend_ids@[i as int] != b.spend_ids@[y],
            decreases b.spend_ids@.len() - j,
        {
            if bytes_eq(&a.spend_ids[i], &b.spend_ids[j]) {
                assert(a@.spend_ids[i as int] == b@.spend_ids[j as int]);
                return true;
            }
            j = j + 1;
        }
        i = i + 1;
    }
    false
}

/// The mempool service state: configuration and held transactions.
pub struct MempoolSrv {
    conf: Params,
    txs: Vec<MempoolTx>,
}

impl MempoolSrv {
    /// Held transactions, in arrival order.
    pub closed spec fn pool(&self) -> Seq<HeldTx> {
        self.txs@.map_values(|t: MempoolTx| t@)
    }

    pub closed spec fn conf_spec(&self) -> Params {
        self.conf
    }

    /// The pool never holds more than its capacity, and holds each
    /// transaction id once.
    pub open spec fn wf(&self) -> bool {
        &&& self.pool().len() <= self.conf_spec().max_mempool_txn_count
        &&& distinct_ids(self.pool())
    }

    /// An empty mempool.
    pub fn new(conf: Params) -> (r: MempoolSrv)
        ensures
            r.wf(),
            r.pool() == Seq::<HeldTx>::empty(),
            r.conf_spec() == conf,
    {
        let r = MempoolSrv { conf, txs: Vec::new() };
        assert(r.pool() =~= Seq::<HeldTx>::empty());
        r
    }

    /// Number of held transactions.
    pub fn txs_count(&self) -> (r: usize)
        ensures
            r == self.pool().len(),
    {
        self.txs.len()
    }

    /// Whether a transaction with this id is held.
    pub fn contains(&self, id: &Digest) -> (r: bool)
        ensures
            r == holds_id(self.pool(), *id),
    {
        let mut i: usize = 0;
        while i < self.txs.len()
            invariant
                i <= self.txs@.len(),
                forall|x: int| 0 <= x < i ==> self.pool()[x].tx.id != *id,
            decreases self.txs@.len() - i,
        {
            if bytes_eq(&self.txs[i].tx.id, id) {
                assert(self.pool()[i as int].tx.id == *id);
                return true;
            }
            i = i + 1;
        }
        false
    }

    /// Admits a transaction received at time `now`. `in_ledger` says whether
    /// the ledger already holds it; `preverify` is the virtual machine's
    /// verdict on it.
    ///
    /// It is rejected when the pool is full, when the pool or the ledger
    /// holds it, when verification failed, or when a held transaction that
    /// shares a spend-id pays at least its gas price. Otherwise every held
    /// transaction that shares a spend-id with it is removed, it is added,
    /// and the events report the removals, then its inclusion.
    pub fn accept_tx(&mut self, tx: Transaction, in_ledger: bool, preverify: Result<(), String>, now: u64) -> (r: Result<Vec<TransactionEvent>, TxAcceptanceError>)
        requires
            old(self).wf(),
        ensures
            final(self).wf(),
            final(self).conf_spec() == old(self).conf_spec(),
            match accept_result(old(self).pool(), old(self).conf_spec().max_mempool_txn_count, tx@, in_ledger, preverify) {
                Ok(events) => r matches Ok(ev) && ev@ == events
                    && final(self).pool() == pool_after_accept(old(self).pool(), tx@, now),
                Err(e) => r == Err::<Vec<TransactionEvent>, TxAcceptanceError>(e)
                    && final(self).pool() == old(self).pool(),
            },
    {
        let count = self.txs.len();
        if count >= self.conf.max_mempool_txn_count {
            return Err(TxAcceptanceError::MaxTxnCountExceeded(count));
        }
        if self.contains(&tx.id) {
            return Err(TxAcceptanceError::AlreadyExistsInMempool);
        }
        if in_ledger {
            return Err(TxAcceptanceError::AlreadyExistsInLedger);
        }
        if let Err(e) = preverify {
            return Err(TxAcceptanceError::VerificationFailed(e));
        }
        let ghost pool = self.pool();
        // Any conflicting transaction that pays at least as much keeps its place.
        let mut i: usize = 0;
        while i < self.txs.len()
            invariant
                pool == self.pool(),
                pool == old(self).pool(),
                self.wf(),
                self.conf_spec() == old(self).conf_spec(),
                pool.len() < self.conf_spec().max_mempool_txn_count,
                !holds_id(pool, tx@.id),
                !in_ledger,
                preverify is Ok,
                i <= pool.len(),
                forall|x: int| 0 <= x < i ==> !(conflicts(pool[x].tx, tx@) && pool[x].tx.gas_price >= tx.gas_price),
            decreases pool.len() - i,
        {
            if tx_conflicts(&self.txs[i].tx, &tx) && self.txs[i].tx.gas_price >= tx.gas_price {
                assert(conflicts(pool[i as int].tx, tx@) && pool[i as int].tx.gas_price >= tx.gas_price);
                assert(outbid(pool, tx@));
                return Err(TxAcceptanceError::SpendIdExistsInMempool);
            }
            i = i + 1;
        }
        // Displace the conflicting transactions.
        let mut kept: Vec<MempoolTx> = Vec::new();
        let mut events: Vec<TransactionEvent> = Vec::new();
        let mut old_txs: Vec<MempoolTx> = Vec::new();
        std::mem::swap(&mut old_txs, &mut self.txs);
        assert(old_txs@.map_values(|t: MempoolTx| t@) == pool);
        let mut k: usize = 0;
        while k < old_txs.len()
            invariant
                old_txs@.map_values(|t: MempoolTx| t@) == pool,
                k <= old_txs@.len(),
                kept@.map_values(|t: MempoolTx| t@) == kept_upto(pool, tx@, k as int),
                events@ == removed_upto(pool, tx@, k as int),
            decreases old_txs@.len() - k,
        {
            let held = &old_txs[k];
            let ghost kept_before = kept@;
            if tx_conflicts(&held.tx, &tx) {
                events.push(TransactionEvent::Removed(held.tx.id));
            } else {
                kept.push(held.clone_held());
                assert(kept@.map_values(|t: MempoolTx| t@) =~= kept_before.map_values(|t: MempoolTx| t@).push(pool[k as int]));
            }
            k = k + 1;
        }
        proof {
            lemma_kept_len(pool, tx@, pool.len() as int);
            lemma_kept_distinct(pool, tx@, pool.len() as int);
            let kept_s = kept_upto(pool, tx@, pool.len() as int);
            assert forall|i: int| 0 <= i < kept_s.len() implies kept_s[i].tx.id != tx.id by {
                let j = choose|j: int| 0 <= j < pool.len() && pool[j] == kept_s[i];
            }
        }
        let id = tx.id;
        let ghost kept_before = kept@;
        kept.push(MempoolTx { tx, received_at: now });
        assert(kept@.map_values(|t: MempoolTx| t@) =~= kept_before.map_values(|t: MempoolTx| t@).push(HeldTx { tx: tx@, received_at: now }));
        self.txs = kept;
        events.push(TransactionEvent::Included(id));
        Ok(events)
    }

    /// Removes every transaction that arrived at or before `expiration_time`
    /// and reports each removal.
    pub fn remove_expired(&mut self, expiration_time: u64) -> (r: Vec<TransactionEvent>)
        requires
            old(self).wf(),
        ensures
            final(self).wf(),
            final(self).conf_spec() == old(self).conf_spec(),
            final(self).pool() == fresh_upto(old(self).pool(), expiration_time, old(self).pool().len() as int),
            r@ == expired_upto(old(self).pool(), expiration_time, old(self).pool().len() as int),
    {
        let ghost pool = self.pool();
        let mut kept: Vec<MempoolTx> = Vec::new();
        let mut events: Vec<TransactionEvent> = Vec::new();
        let mut old_txs: Vec<MempoolTx> = Vec::new();
        std::mem::swap(&mut old_txs, &mut self.txs);
        assert(old_txs@.map_values(|t: MempoolTx| t@) == pool);
        let mut k: usize = 0;
        while k < old_txs.len()
            invariant
                old_txs@.map_values(|t: MempoolTx| t@) == pool,
                k <= old_txs@.len(),
                kept@.len() <= k,
                kept@.map_values(|t: MempoolTx| t@) == fresh_upto(pool, expiration_time, k as int),
                events@ == expired_upto(pool, expiration_time, k as int),
            decreases old_txs@.len() - k,
        {
            let held = &old_txs[k];
            let ghost kept_before = kept@;
            if held.received_at <= expiration_time {
                events.push(TransactionEvent::Removed(held.tx.id));
            } else {
                kept.push(held.clone_held());
                assert(kept@.map_values(|t: MempoolTx| t@) =~= kept_before.map_values(|t: MempoolTx| t@).push(pool[k as int]));
            }
            k = k + 1;
        }
        proof {
            lemma_fresh_distinct(pool, expiration_time, pool.len() as int);
        }
        self.txs = kept;
        events
    }
}

impl MempoolTx {
    /// A copy of the held transaction.
    pub fn clone_held(&self) -> (r: MempoolTx)
        ensures
            r@ == self@,
    {
        let mut ids: Vec<Digest> = Vec::new();
        let mut i: usize = 0;
        while i < self.tx.spend_ids.len()
            invariant
                i <= self.tx.spend_ids@.len(),
                ids@ == self.tx.spend_ids@.take(i as int),
            decreases self.tx.spend_ids@.len() - i,
        {
            ids.push(self.tx.spend_ids[i]);
            i = i + 1;
            assert(ids@ =~= self.tx.spend_ids@.take(i as int));
        }
        assert(ids@ =~= self.tx.spend_ids@);
        MempoolTx {
            tx: Transaction { id: self.tx.id, spend_ids: ids, gas_price: self.tx.gas_price },
            received_at: self.received_at,
        }
    }
}

} // verus!

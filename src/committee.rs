//! Deterministic committee sortition over provisioner stake.
//!
//! Each seat is drawn by one score (derived by the caller from the hash of
//! seed, round and step): the score, taken modulo the eligible stake, picks
//! one unit of stake, and the provisioner that owns it gains the seat. Stake
//! is not removed between draws. The excluded provisioner (the iteration's
//! generator, for Validation and Ratification) owns no eligible stake.
use vstd::prelude::*;
use crate::bytes::{bytes_eq, PublicKeyBytes};

verus! {

/// A staking participant: its public key and its stake.
#[derive(Debug, Clone, Copy, PartialEq, Eq)]
pub struct Provisioner {
    pub key: PublicKeyBytes,
    pub stake: u64,
}

/// Stake of provisioner `i` that takes part in the draw.
pub open spec fn eligible_stake(ps: Seq<Provisioner>, exclusion: Option<PublicKeyBytes>, i: int) -> nat {
    match exclusion {
        Some(k) => if ps[i].key == k { 0 } else { ps[i].stake as nat },
        None => ps[i].stake as nat,
    }
}

/// Eligible stake of the first `n` provisioners.
pub open spec fn prefix_stake(ps: Seq<Provisioner>, exclusion: Option<PublicKeyBytes>, n: int) -> nat
    decreases n,
{
    if n <= 0 {
        0
    } else {
        prefix_stake(ps, exclusion, n - 1) + eligible_stake(ps, exclusion, n - 1)
    }
}

/// Eligible stake of all provisioners.
pub open spec fn total_stake(ps: Seq<Provisioner>, exclusion: Option<PublicKeyBytes>) -> nat {
    prefix_stake(ps, exclusion, ps.len() as int)
}

/// The first provisioner at or after `i` whose stake range holds `point`.
pub open spec fn owner_from(ps: Seq<Provisioner>, exclusion: Option<PublicKeyBytes>, point: nat, i: int) -> int
    decreases ps.len() - i,
{
    if i >= ps.len() {
        ps.len() as int
    } else if point < prefix_stake(ps, exclusion, i + 1) {
        i
    } else {
        owner_from(ps, exclusion, point, i + 1)
    }
}

/// The provisioner that a draw score selects.
pub open spec fn draw_owner(ps: Seq<Provisioner>, exclusion: Option<PublicKeyBytes>, score: u64) -> int {
    owner_from(ps, exclusion, (score as nat) % total_stake(ps, exclusion), 0)
}

/// Seats that provisioner `i` wins in the first `j` draws.
pub open spec fn seats_won(ps: Seq<Provisioner>, exclusion: Option<PublicKeyBytes>, draws: Seq<u64>, j: int, i: int) -> nat
    decreases j,
{
    if j <= 0 {
        0
    } else {
        seats_won(ps, exclusion, draws, j - 1, i) + if draw_owner(ps, exclusion, draws[j - 1]) == i { 1nat } else { 0nat }
    }
}

/// The committee: provisioners with at least one seat, in provisioner order,
/// with their seat counts; computed over the first `n` provisioners.
pub open spec fn members_upto(ps: Seq<Provisioner>, exclusion: Option<PublicKeyBytes>, draws: Seq<u64>, n: int) -> Seq<(PublicKeyBytes, u64)>
    decreases n,
{
    if n <= 0 {
        Seq::empty()
    } else {
        let rest = members_upto(ps, exclusion, draws, n - 1);
        let seats = seats_won(ps, exclusion, draws, draws.len() as int, n - 1);
        if seats > 0 {
            rest.push((ps[n - 1].key, seats as u64))
        } else {
            rest
        }
    }
}

/// The committee extracted for these provisioners, exclusion and draws.
pub open spec fn sortition(ps: Seq<Provisioner>, exclusion: Option<PublicKeyBytes>, draws: Seq<u64>) -> Seq<(PublicKeyBytes, u64)> {
    if total_stake(ps, exclusion) == 0 {
        Seq::empty()
    } else {
        members_upto(ps, exclusion, draws, ps.len() as int)
    }
}

/// Total seats of a committee.
pub open spec fn seats_total(members: Seq<(PublicKeyBytes, u64)>) -> nat
    decreases members.len(),
{
    if members.len() == 0 {
        0
    } else {
        seats_total(members.drop_last()) + members.last().1 as nat
    }
}

/// Seats that `key` holds in a committee.
pub open spec fn seats_of(members: Seq<(PublicKeyBytes, u64)>, key: PublicKeyBytes) -> nat
    decreases members.len(),
{
    if members.len() == 0 {
        0
    } else {
        seats_of(members.drop_last(), key) + if members.last().0 == key { members.last().1 as nat } else { 0nat }
    }
}

/// The members a bitset can address: at most 64.
pub open spec fn min_len(n: nat) -> int {
    if n < 64 { n as int } else { 64 }
}

/// Keys of the members, among the first `n`, whose bit is set.
pub open spec fn selected_keys_spec(members: Seq<(PublicKeyBytes, u64)>, bitset: u64, n: int) -> Seq<PublicKeyBytes>
    decreases n,
{
    if n <= 0 {
        Seq::empty()
    } else {
        let rest = selected_keys_spec(members, bitset, n - 1);
        if bit_set(bitset, n - 1) { rest.push(members[n - 1].0) } else { rest }
    }
}

/// Position of the first member, at or after `i`, with this key; -1 if none.
pub open spec fn key_pos_from(members: Seq<(PublicKeyBytes, u64)>, key: PublicKeyBytes, i: int) -> int
    decreases members.len() - i,
{
    if i >= members.len() || i < 0 {
        -1
    } else if members[i].0 == key {
        i
    } else {
        key_pos_from(members, key, i + 1)
    }
}

pub proof fn lemma_key_pos_range(members: Seq<(PublicKeyBytes, u64)>, key: PublicKeyBytes, i: int)
    requires
        0 <= i,
    ensures
        -1 <= key_pos_from(members, key, i) < members.len(),
        key_pos_from(members, key, i) >= 0 ==> members[key_pos_from(members, key, i)].0 == key,
    decreases members.len() - i,
{
    if i < members.len() && members[i].0 != key {
        lemma_key_pos_range(members, key, i + 1);
    }
}

/// Whether bit `k` of a bitset is set.
pub open spec fn bit_set(bitset: u64, k: int) -> bool {
    0 <= k < 64 && (bitset >> (k as u64)) & 1 == 1
}

/// Seats of the members whose bit is set, over the first `n` members.
pub open spec fn bitset_seats(members: Seq<(PublicKeyBytes, u64)>, bitset: u64, n: int) -> nat
    decreases n,
{
    if n <= 0 {
        0
    } else {
        bitset_seats(members, bitset, n - 1) + if bit_set(bitset, n - 1) { members[n - 1].1 as nat } else { 0nat }
    }
}

proof fn lemma_prefix_monotone(ps: Seq<Provisioner>, exclusion: Option<PublicKeyBytes>, a: int, b: int)
    requires
        0 <= a <= b,
    ensures
        prefix_stake(ps, exclusion, a) <= prefix_stake(ps, exclusion, b),
    decreases b - a,
{
    if a < b {
        lemma_prefix_monotone(ps, exclusion, a, b - 1);
    }
}

proof fn lemma_owner_in_range(ps: Seq<Provisioner>, exclusion: Option<PublicKeyBytes>, point: nat, i: int)
    requires
        0 <= i <= ps.len(),
        point < total_stake(ps, exclusion),
        point >= prefix_stake(ps, exclusion, i),
    ensures
        i <= owner_from(ps, exclusion, point, i) < ps.len(),
    decreases ps.len() - i,
{
    if i < ps.len() && point >= prefix_stake(ps, exclusion, i + 1) {
        lemma_owner_in_range(ps, exclusion, point, i + 1);
    }
}

proof fn lemma_seats_bounded(ps: Seq<Provisioner>, exclusion: Option<PublicKeyBytes>, draws: Seq<u64>, j: int, i: int)
    requires
        0 <= j,
    ensures
        seats_won(ps, exclusion, draws, j, i) <= j,
    decreases j,
{
    if j > 0 {
        lemma_seats_bounded(ps, exclusion, draws, j - 1, i);
    }
}

/// Sortition is deterministic: two committees extracted from the same
/// provisioners, exclusion and draws are identical.
pub proof fn lemma_sortition_deterministic(
    a: Committee,
    b: Committee,
    ps: Seq<Provisioner>,
    exclusion: Option<PublicKeyBytes>,
    draws: Seq<u64>,
)
    requires
        a.members_spec() == sortition(ps, exclusion, draws),
        b.members_spec() == sortition(ps, exclusion, draws),
        a.size_spec() == draws.len(),
        b.size_spec() == draws.len(),
    ensures
        a.members_spec() == b.members_spec(),
        a.size_spec() == b.size_spec(),
{
}

/// Seats a bitset can select: at most 64 members of at most `u64::MAX` each.
pub proof fn lemma_bitset_seats_bounded(members: Seq<(PublicKeyBytes, u64)>, bitset: u64, n: int)
    requires
        0 <= n <= members.len(),
    ensures
        bitset_seats(members, bitset, n) <= n * (u64::MAX as int),
    decreases n,
{
    if n > 0 {
        lemma_bitset_seats_bounded(members, bitset, n - 1);
    }
}

/// Credits that `key` holds in a list of voters.
pub open spec fn voter_credits(v: Seq<(PublicKeyBytes, u128)>, key: PublicKeyBytes) -> nat
    decreases v.len(),
{
    if v.len() == 0 {
        0
    } else {
        voter_credits(v.drop_last(), key) + if v.last().0 == key { v.last().1 as nat } else { 0nat }
    }
}

/// No key occurs twice.
pub open spec fn distinct_keys(v: Seq<(PublicKeyBytes, u128)>) -> bool {
    forall|i: int, j: int| 0 <= i < j < v.len() ==> v[i].0 != v[j].0
}

proof fn lemma_credits_update(v: Seq<(PublicKeyBytes, u128)>, idx: int, c: u128, key: PublicKeyBytes)
    requires
        0 <= idx < v.len(),
    ensures
        voter_credits(v.update(idx, (v[idx].0, c)), key) + (if v[idx].0 == key { v[idx].1 as int } else { 0 })
            == voter_credits(v, key) + (if v[idx].0 == key { c as int } else { 0 }),
    decreases v.len(),
{
    let u = v.update(idx, (v[idx].0, c));
    if idx == v.len() - 1 {
        assert(u.drop_last() =~= v.drop_last());
    } else {
        lemma_credits_update(v.drop_last(), idx, c, key);
        assert(u.drop_last() =~= v.drop_last().update(idx, (v[idx].0, c)));
    }
}

proof fn lemma_entry_le_credits(v: Seq<(PublicKeyBytes, u128)>, idx: int)
    requires
        0 <= idx < v.len(),
    ensures
        v[idx].1 <= voter_credits(v, v[idx].0),
    decreases v.len(),
{
    if idx < v.len() - 1 {
        lemma_entry_le_credits(v.drop_last(), idx);
    }
}

proof fn lemma_seats_of_take(s: Seq<(PublicKeyBytes, u64)>, i: int, key: PublicKeyBytes)
    requires
        0 <= i < s.len(),
    ensures
        seats_of(s.take(i + 1), key) == seats_of(s.take(i), key) + if s[i].0 == key { s[i].1 as nat } else { 0nat },
{
    assert(s.take(i + 1).drop_last() =~= s.take(i));
}

proof fn lemma_seats_of_bounded(s: Seq<(PublicKeyBytes, u64)>, key: PublicKeyBytes)
    ensures
        seats_of(s, key) <= s.len() * (u64::MAX as int),
    decreases s.len(),
{
    if s.len() > 0 {
        lemma_seats_of_bounded(s.drop_last(), key);
    }
}

/// Adds `c` credits to `key`, in its entry or in a new one.
fn add_voter(res: &mut Vec<(PublicKeyBytes, u128)>, key: PublicKeyBytes, c: u64)
    requires
        distinct_keys(old(res)@),
        voter_credits(old(res)@, key) + c <= u128::MAX,
    ensures
        distinct_keys(final(res)@),
        forall|k: PublicKeyBytes| #[trigger] voter_credits(final(res)@, k) == voter_credits(old(res)@, k) + if k == key { c as nat } else { 0nat },
{
    let mut i: usize = 0;
    while i < res.len()
        invariant
            res@ == old(res)@,
            distinct_keys(old(res)@),
            voter_credits(old(res)@, key) + c <= u128::MAX,
            i <= res@.len(),
            forall|x: int| 0 <= x < i ==> res@[x].0 != key,
        decreases res@.len() - i,
    {
        if bytes_eq(&res[i].0, &key) {
            proof {
                assert(res@[i as int].0 == key);
                lemma_entry_le_credits(res@, i as int);
            }
            let total = res[i].1 + c as u128;
            let ghost before = res@;
            res.set(i, (key, total));
            proof {
                assert(res@ == before.update(i as int, (before[i as int].0, total)));
                assert forall|x: int| 0 <= x < res@.len() implies #[trigger] res@[x].0 == before[x].0 by {}
                assert(distinct_keys(res@));
                assert forall|k: PublicKeyBytes| #[trigger] voter_credits(res@, k) == voter_credits(before, k) + if k == key { c as nat } else { 0nat } by {
                    lemma_credits_update(before, i as int, total, k);
                }
            }
            return;
        }
        i = i + 1;
    }
    let ghost before = res@;
    res.push((key, c as u128));
    proof {
        assert(res@.drop_last() =~= before);
    }
}

/// The voters of a block: the members of its Validation and Ratification
/// committees, each with its seats in both summed.
pub fn merge_committees(a: &Committee, b: &Committee) -> (r: Vec<(PublicKeyBytes, u128)>)
    requires
        a.members_spec().len() + b.members_spec().len() <= usize::MAX,
    ensures
        distinct_keys(r@),
        forall|k: PublicKeyBytes| #[trigger] voter_credits(r@, k) == seats_of(a.members_spec(), k) + seats_of(b.members_spec(), k),
{
    let am = a.members();
    let bm = b.members();
    let mut res: Vec<(PublicKeyBytes, u128)> = Vec::new();
    let mut i: usize = 0;
    while i < am.len()
        invariant
            am@ == a.members_spec(),
            am@.len() + bm@.len() <= usize::MAX,
            i <= am@.len(),
            distinct_keys(res@),
            forall|k: PublicKeyBytes| #[trigger] voter_credits(res@, k) == seats_of(am@.take(i as int), k),
        decreases am@.len() - i,
    {
        let (key, c) = am[i];
        proof {
            lemma_seats_of_bounded(am@.take(i as int), key);
            assert(i * (u64::MAX as int) + u64::MAX <= u128::MAX) by (nonlinear_arith)
                requires i <= usize::MAX;
        }
        add_voter(&mut res, key, c);
        proof {
            assert forall|k: PublicKeyBytes| #[trigger] voter_credits(res@, k) == seats_of(am@.take(i as int + 1), k) by {
                lemma_seats_of_take(am@, i as int, k);
            }
        }
        i = i + 1;
    }
    assert(am@.take(am@.len() as int) =~= am@);
    let mut j: usize = 0;
    while j < bm.len()
        invariant
            am@ == a.members_spec(),
            bm@ == b.members_spec(),
            am@.len() + bm@.len() <= usize::MAX,
            j <= bm@.len(),
            distinct_keys(res@),
            forall|k: PublicKeyBytes| #[trigger] voter_credits(res@, k) == seats_of(am@, k) + seats_of(bm@.take(j as int), k),
        decreases bm@.len() - j,
    {
        let (key, c) = bm[j];
        proof {
            lemma_seats_of_bounded(am@, key);
            lemma_seats_of_bounded(bm@.take(j as int), key);
            let n = am@.len() + j;
            assert(n * (u64::MAX as int) + u64::MAX <= u128::MAX) by (nonlinear_arith)
                requires n <= usize::MAX;
            assert(seats_of(am@, key) + seats_of(bm@.take(j as int), key) <= n * (u64::MAX as int)) by (nonlinear_arith)
                requires
                    seats_of(am@, key) <= am@.len() * (u64::MAX as int),
                    seats_of(bm@.take(j as int), key) <= j * (u64::MAX as int),
                    n == am@.len() + j;
        }
        add_voter(&mut res, key, c);
        proof {
            assert forall|k: PublicKeyBytes| #[trigger] voter_credits(res@, k) == seats_of(am@, k) + seats_of(bm@.take(j as int + 1), k) by {
                lemma_seats_of_take(bm@, j as int, k);
            }
        }
        j = j + 1;
    }
    assert(bm@.take(bm@.len() as int) =~= bm@);
    res
}

/// A committee of one (round, iteration, step).
pub struct Committee {
    members: Vec<(PublicKeyBytes, u64)>,
    size: usize,
}

impl Committee {
    /// Members with their seat counts, in provisioner order.
    pub closed spec fn members_spec(&self) -> Seq<(PublicKeyBytes, u64)> {
        self.members@
    }

    /// Seats drawn for the committee.
    pub closed spec fn size_spec(&self) -> nat {
        self.size as nat
    }

    /// The seat count fits a machine word.
    pub proof fn lemma_size_fits(&self)
        ensures
            self.size_spec() <= usize::MAX,
    {
    }

    /// Extracts the committee: one seat per draw score. With no eligible stake
    /// the committee is empty.
    pub fn new(provisioners: &Vec<Provisioner>, exclusion: Option<PublicKeyBytes>, draws: &Vec<u64>) -> (r: Committee)
        requires
            total_stake(provisioners@, exclusion) <= u64::MAX,
        ensures
            r.members_spec() == sortition(provisioners@, exclusion, draws@),
            r.size_spec() == draws@.len(),
    {
        let ps = provisioners;
        let n = ps.len();
        // Eligible stake in total.
        let mut total: u64 = 0;
        let mut i: usize = 0;
        while i < n
            invariant
                n == ps@.len(),
                i <= n,
                total as nat == prefix_stake(ps@, exclusion, i as int),
                total_stake(ps@, exclusion) <= u64::MAX,
            decreases n - i,
        {
            proof {
                lemma_prefix_monotone(ps@, exclusion, i as int + 1, n as int);
            }
            total = total + Self::eligible(&ps[i], &exclusion);
            i = i + 1;
        }
        if total == 0 {
            return Committee { members: Vec::new(), size: draws.len() };
        }
        // Seats per provisioner.
        let mut credits: Vec<u64> = Vec::new();
        let mut k: usize = 0;
        while k < n
            invariant
                k <= n,
                credits@.len() == k,
                forall|x: int| 0 <= x < k ==> credits@[x] == 0,
            decreases n - k,
        {
            credits.push(0);
            k = k + 1;
        }
        let mut j: usize = 0;
        while j < draws.len()
            invariant
                n == ps@.len(),
                total as nat == total_stake(ps@, exclusion),
                total > 0,
                j <= draws@.len(),
                credits@.len() == n,
                forall|x: int| 0 <= x < n ==> credits@[x] as nat == seats_won(ps@, exclusion, draws@, j as int, x),
            decreases draws@.len() - j,
        {
            let point = draws[j] % total;
            let owner = Self::owner(ps, &exclusion, point, total);
            proof {
                lemma_seats_bounded(ps@, exclusion, draws@, j as int, owner as int);
            }
            let c = credits[owner] + 1;
            credits.set(owner, c);
            j = j + 1;
        }
        // Members: provisioners with at least one seat.
        let mut members: Vec<(PublicKeyBytes, u64)> = Vec::new();
        let mut m: usize = 0;
        while m < n
            invariant
                n == ps@.len(),
                m <= n,
                credits@.len() == n,
                total_stake(ps@, exclusion) > 0,
                forall|x: int| 0 <= x < n ==> credits@[x] as nat == seats_won(ps@, exclusion, draws@, draws@.len() as int, x),
                members@ == members_upto(ps@, exclusion, draws@, m as int),
            decreases n - m,
        {
            if credits[m] > 0 {
                members.push((ps[m].key, credits[m]));
            }
            m = m + 1;
        }
        Committee { members, size: draws.len() }
    }

    fn eligible(p: &Provisioner, exclusion: &Option<PublicKeyBytes>) -> (r: u64)
        ensures
            r == match *exclusion {
                Some(k) => if p.key == k { 0 } else { p.stake },
                None => p.stake,
            },
    {
        match exclusion {
            Some(k) => if bytes_eq(&p.key, k) { 0 } else { p.stake },
            None => p.stake,
        }
    }

    /// The provisioner whose stake range holds `point`.
    fn owner(ps: &Vec<Provisioner>, exclusion: &Option<PublicKeyBytes>, point: u64, total: u64) -> (r: usize)
        requires
            total as nat == total_stake(ps@, *exclusion),
            point < total,
        ensures
            r as int == owner_from(ps@, *exclusion, point as nat, 0),
            r < ps@.len(),
    {
        let mut i: usize = 0;
        let mut cum: u64 = 0;
        proof {
            lemma_owner_in_range(ps@, *exclusion, point as nat, 0);
        }
        while i < ps.len()
            invariant
                i <= ps@.len(),
                cum as nat == prefix_stake(ps@, *exclusion, i as int),
                point as nat >= cum,
                total as nat == total_stake(ps@, *exclusion),
                point < total,
                owner_from(ps@, *exclusion, point as nat, 0) == owner_from(ps@, *exclusion, point as nat, i as int),
            decreases ps@.len() - i,
        {
            proof {
                lemma_prefix_monotone(ps@, *exclusion, i as int + 1, ps@.len() as int);
            }
            cum = cum + Self::eligible(&ps[i], exclusion);
            if point < cum {
                return i;
            }
            i = i + 1;
        }
        proof {
            lemma_owner_in_range(ps@, *exclusion, point as nat, 0);
        }
        i
    }

    /// Members with their seat counts, in provisioner order.
    pub fn members(&self) -> (r: &Vec<(PublicKeyBytes, u64)>)
        ensures
            r@ == self.members_spec(),
    {
        &self.members
    }

    /// Number of members.
    pub fn len(&self) -> (r: usize)
        ensures
            r == self.members_spec().len(),
    {
        self.members.len()
    }

    /// Seats drawn for the committee.
    pub fn size(&self) -> (r: usize)
        ensures
            r as nat == self.size_spec(),
    {
        self.size
    }

    /// Seats of the members selected by a bitset (bit `k` selects member `k`).
    pub fn bitset_credits(&self, bitset: u64) -> (r: u128)
        ensures
            r as nat == bitset_seats(self.members_spec(), bitset, min_len(self.members_spec().len())),
    {
        let n: usize = if self.members.len() < 64 { self.members.len() } else { 64 };
        let mut total: u128 = 0;
        let mut k: usize = 0;
        while k < n
            invariant
                n as int == min_len(self.members@.len()),
                k <= n,
                n <= 64,
                n <= self.members@.len(),
                total as nat == bitset_seats(self.members@, bitset, k as int),
                total as nat <= k * 0x1_0000_0000_0000_0000,
            decreases n - k,
        {
            let shift = k as u64;
            if (bitset >> shift) & 1 == 1 {
                total = total + self.members[k].1 as u128;
            }
            k = k + 1;
        }
        total
    }

    /// Keys of the members a bitset selects, in member order.
    pub fn selected_keys(&self, bitset: u64) -> (r: Vec<PublicKeyBytes>)
        ensures
            r@ == selected_keys_spec(self.members_spec(), bitset, min_len(self.members_spec().len())),
    {
        let n: usize = if self.members.len() < 64 { self.members.len() } else { 64 };
        let mut keys: Vec<PublicKeyBytes> = Vec::new();
        let mut k: usize = 0;
        while k < n
            invariant
                n as int == min_len(self.members@.len()),
                k <= n,
                n <= 64,
                n <= self.members@.len(),
                keys@ == selected_keys_spec(self.members@, bitset, k as int),
            decreases n - k,
        {
            if (bitset >> (k as u64)) & 1 == 1 {
                keys.push(self.members[k].0);
            }
            k = k + 1;
        }
        keys
    }

    /// Position of `key` among the members, if it is one.
    pub fn index_of(&self, key: &PublicKeyBytes) -> (r: Option<usize>)
        ensures
            r matches Some(i) ==> i < self.members_spec().len() && self.members_spec()[i as int].0 == *key
                && forall|j: int| 0 <= j < i ==> self.members_spec()[j].0 != *key,
            r is None ==> forall|j: int| 0 <= j < self.members_spec().len() ==> self.members_spec()[j].0 != *key,
            r matches Some(i) ==> i as int == key_pos_from(self.members_spec(), *key, 0),
            r is None <==> key_pos_from(self.members_spec(), *key, 0) < 0,
    {
        let mut i: usize = 0;
        while i < self.members.len()
            invariant
                i <= self.members@.len(),
                forall|x: int| 0 <= x < i ==> self.members@[x].0 != *key,
                key_pos_from(self.members@, *key, 0) == key_pos_from(self.members@, *key, i as int),
            decreases self.members@.len() - i,
        {
            if bytes_eq(&self.members[i].0, key) {
                return Some(i);
            }
            i = i + 1;
        }
        None
    }

    /// Whether `key` holds at least one seat.
    pub fn is_member(&self, key: &PublicKeyBytes) -> (r: bool)
        ensures
            r == exists|i: int| 0 <= i < self.members_spec().len() && self.members_spec()[i].0 == *key,
    {
        let mut i: usize = 0;
        while i < self.members.len()
            invariant
                i <= self.members@.len(),
                forall|x: int| 0 <= x < i ==> self.members@[x].0 != *key,
            decreases self.members@.len() - i,
        {
            if bytes_eq(&self.members[i].0, key) {
                assert(self.members_spec()[i as int].0 == *key);
                return true;
            }
            i = i + 1;
        }
        false
    }
}

} // verus!

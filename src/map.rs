//! Map from a provisioner's public key (its 32 compressed bytes) to the
//! position of its bid.
use vstd::prelude::*;
use crate::bytes::bytes_eq;

verus! {

/// Key-value pairs, one per key, in insertion order.
pub open spec fn unique_keys(s: Seq<([u8; 32], u64)>) -> bool {
    forall|i: int, j: int| 0 <= i < j < s.len() ==> s[i].0 != s[j].0
}

/// The map a sequence of pairs with unique keys stands for.
pub open spec fn pairs_map(s: Seq<([u8; 32], u64)>) -> Map<[u8; 32], u64>
    decreases s.len(),
{
    if s.len() == 0 {
        Map::empty()
    } else {
        pairs_map(s.drop_last()).insert(s.last().0, s.last().1)
    }
}

proof fn lemma_pairs_map_index(s: Seq<([u8; 32], u64)>, i: int)
    requires
        unique_keys(s),
        0 <= i < s.len(),
    ensures
        pairs_map(s).contains_key(s[i].0),
        pairs_map(s)[s[i].0] == s[i].1,
    decreases s.len(),
{
    if i < s.len() - 1 {
        lemma_pairs_map_index(s.drop_last(), i);
    }
}

proof fn lemma_pairs_map_absent(s: Seq<([u8; 32], u64)>, k: [u8; 32])
    requires
        forall|i: int| 0 <= i < s.len() ==> s[i].0 != k,
    ensures
        !pairs_map(s).contains_key(k),
    decreases s.len(),
{
    if s.len() > 0 {
        lemma_pairs_map_absent(s.drop_last(), k);
    }
}

proof fn lemma_pairs_map_update(s: Seq<([u8; 32], u64)>, i: int, v: u64)
    requires
        unique_keys(s),
        0 <= i < s.len(),
    ensures
        unique_keys(s.update(i, (s[i].0, v))),
        pairs_map(s.update(i, (s[i].0, v))) == pairs_map(s).insert(s[i].0, v),
    decreases s.len(),
{
    let u = s.update(i, (s[i].0, v));
    if i == s.len() - 1 {
        assert(u.drop_last() =~= s.drop_last());
        assert(pairs_map(u) =~= pairs_map(s).insert(s[i].0, v));
    } else {
        lemma_pairs_map_update(s.drop_last(), i, v);
        assert(u.drop_last() =~= s.drop_last().update(i, (s[i].0, v)));
        assert(pairs_map(u) =~= pairs_map(s).insert(s[i].0, v));
    }
}

proof fn lemma_pairs_map_remove(s: Seq<([u8; 32], u64)>, i: int)
    requires
        unique_keys(s),
        0 <= i < s.len(),
    ensures
        unique_keys(s.remove(i)),
        pairs_map(s.remove(i)) == pairs_map(s).remove(s[i].0),
    decreases s.len(),
{
    let r = s.remove(i);
    if i == s.len() - 1 {
        assert(r =~= s.drop_last());
        lemma_pairs_map_absent(s.drop_last(), s[i].0);
        assert(pairs_map(r) =~= pairs_map(s).remove(s[i].0));
    } else {
        lemma_pairs_map_remove(s.drop_last(), i);
        assert(r.drop_last() =~= s.drop_last().remove(i));
        assert(r.last() == s.last());
        assert(pairs_map(r) =~= pairs_map(s).remove(s[i].0));
    }
}

/// Map from a provisioner's public key to the index of its bid.
pub struct KeyToIdxMap {
    pairs: Vec<([u8; 32], u64)>,
}

impl KeyToIdxMap {
    /// The pairs held.
    pub closed spec fn contents(&self) -> Map<[u8; 32], u64> {
        pairs_map(self.pairs@)
    }

    /// One pair per key.
    pub closed spec fn wf(&self) -> bool {
        unique_keys(self.pairs@)
    }

    /// An empty map.
    pub fn new() -> (r: KeyToIdxMap)
        ensures
            r.wf(),
            r.contents() =~= Map::empty(),
    {
        KeyToIdxMap { pairs: Vec::new() }
    }

    fn position(&self, pk: &[u8; 32]) -> (r: Option<usize>)
        ensures
            r matches Some(i) ==> i < self.pairs@.len() && self.pairs@[i as int].0 == *pk,
            r is None ==> forall|i: int| 0 <= i < self.pairs@.len() ==> self.pairs@[i].0 != *pk,
    {
        let mut i: usize = 0;
        while i < self.pairs.len()
            invariant
                i <= self.pairs@.len(),
                forall|x: int| 0 <= x < i ==> self.pairs@[x].0 != *pk,
            decreases self.pairs@.len() - i,
        {
            if bytes_eq(&self.pairs[i].0, pk) {
                return Some(i);
            }
            i = i + 1;
        }
        None
    }

    /// Maps `pk` to `bid_idx`; returns the index it was mapped to before.
    pub fn insert(&mut self, pk: [u8; 32], bid_idx: usize) -> (r: Option<u64>)
        requires
            old(self).wf(),
        ensures
            final(self).wf(),
            final(self).contents() == old(self).contents().insert(pk, bid_idx as u64),
            r == (if old(self).contents().contains_key(pk) { Some(old(self).contents()[pk]) } else { None::<u64> }),
    {
        match self.position(&pk) {
            Some(i) => {
                let prev = self.pairs[i].1;
                proof {
                    lemma_pairs_map_index(self.pairs@, i as int);
                    lemma_pairs_map_update(self.pairs@, i as int, bid_idx as u64);
                }
                self.pairs.set(i, (pk, bid_idx as u64));
                Some(prev)
            },
            None => {
                proof {
                    lemma_pairs_map_absent(self.pairs@, pk);
                }
                let ghost before = self.pairs@;
                self.pairs.push((pk, bid_idx as u64));
                assert(self.pairs@.drop_last() =~= before);
                None
            },
        }
    }

    /// The index `pk` is mapped to, if any.
    pub fn get(&self, pk: &[u8; 32]) -> (r: Option<u64>)
        requires
            self.wf(),
        ensures
            r == (if self.contents().contains_key(*pk) { Some(self.contents()[*pk]) } else { None::<u64> }),
    {
        match self.position(pk) {
            Some(i) => {
                proof {
                    lemma_pairs_map_index(self.pairs@, i as int);
                }
                Some(self.pairs[i].1)
            },
            None => {
                proof {
                    lemma_pairs_map_absent(self.pairs@, *pk);
                }
                None
            },
        }
    }

    /// Removes `pk`; returns the index it was mapped to, if it was held.
    pub fn remove(&mut self, pk: &[u8; 32]) -> (r: Option<u64>)
        requires
            old(self).wf(),
        ensures
            final(self).wf(),
            final(self).contents() == old(self).contents().remove(*pk),
            r == (if old(self).contents().contains_key(*pk) { Some(old(self).contents()[*pk]) } else { None::<u64> }),
    {
        match self.position(pk) {
            Some(i) => {
                proof {
                    lemma_pairs_map_index(self.pairs@, i as int);
                    lemma_pairs_map_remove(self.pairs@, i as int);
                }
                let (_, v) = self.pairs.remove(i);
                Some(v)
            },
            None => {
                proof {
                    lemma_pairs_map_absent(self.pairs@, *pk);
                    assert(old(self).contents().remove(*pk) =~= old(self).contents());
                }
                None
            },
        }
    }
}

} // verus!

//! A map keyed by 32-bit integers, backed by a vector of entries with
//! pairwise distinct keys. The file builder keeps its position tables and
//! its game table in these: the file-wide position table grows through
//! `try_insert`, whose first writer wins, and the per-game table overwrites
//! through `insert`.

use vstd::prelude::*;
use vstd::map::*;

verus! {

/// The map a list of entries denotes; later entries would override earlier
/// ones, and the container keeps keys distinct so the question never arises.
pub open spec fn to_map<V>(s: Seq<(u32, V)>) -> Map<u32, V>
    decreases s.len(),
{
    if s.len() == 0 {
        Map::empty()
    } else {
        to_map(s.drop_last()).insert(s.last().0, s.last().1)
    }
}

/// Pairwise distinct keys.
pub open spec fn distinct_keys<V>(s: Seq<(u32, V)>) -> bool {
    forall|i: int, j: int| 0 <= i < j < s.len() ==> s[i].0 != s[j].0
}

/// A key occurs in the denoted map exactly when an entry holds it, and the
/// map then carries that entry's value.
proof fn lemma_to_map_index<V>(s: Seq<(u32, V)>, i: int)
    requires
        distinct_keys(s),
        0 <= i < s.len(),
    ensures
        to_map(s).contains_key(s[i].0),
        to_map(s)[s[i].0] == s[i].1,
    decreases s.len(),
{
    if i < s.len() - 1 {
        assert(s.drop_last()[i] == s[i]);
        lemma_to_map_index(s.drop_last(), i);
        assert(s[i].0 != s.last().0);
    }
}

proof fn lemma_to_map_absent<V>(s: Seq<(u32, V)>, k: u32)
    requires
        forall|i: int| 0 <= i < s.len() ==> (#[trigger] s[i]).0 != k,
    ensures
        !to_map(s).contains_key(k),
    decreases s.len(),
{
    if s.len() > 0 {
        assert(forall|i: int|
            0 <= i < s.drop_last().len() ==> (#[trigger] s.drop_last()[i]).0 != k);
        lemma_to_map_absent(s.drop_last(), k);
    }
}

proof fn lemma_to_map_update<V>(s: Seq<(u32, V)>, i: int, v: V)
    requires
        distinct_keys(s),
        0 <= i < s.len(),
    ensures
        to_map(s.update(i, (s[i].0, v))) == to_map(s).insert(s[i].0, v),
    decreases s.len(),
{
    let k = s[i].0;
    let s2 = s.update(i, (k, v));
    if i == s.len() - 1 {
        assert(s2.drop_last() =~= s.drop_last());
        assert_maps_equal!(
            to_map(s.drop_last()).insert(s.last().0, s.last().1).insert(k, v),
            to_map(s.drop_last()).insert(k, v)
        );
    } else {
        assert(s2.drop_last() =~= s.drop_last().update(i, (k, v)));
        assert(s.drop_last()[i] == s[i]);
        lemma_to_map_update(s.drop_last(), i, v);
        assert(s.last().0 != k);
        assert_maps_equal!(
            to_map(s.drop_last()).insert(k, v).insert(s.last().0, s.last().1),
            to_map(s.drop_last()).insert(s.last().0, s.last().1).insert(k, v)
        );
        assert(s2.last() == s.last());
    }
}

/// A map from 32-bit keys to values, with vector storage.
pub struct U32Map<V> {
    entries: Vec<(u32, V)>,
}

impl<V> View for U32Map<V> {
    type V = Map<u32, V>;

    closed spec fn view(&self) -> Map<u32, V> {
        to_map(self.entries@)
    }
}

impl<V> U32Map<V> {
    /// The entries as stored, in insertion order.
    pub closed spec fn spec_entries(&self) -> Seq<(u32, V)> {
        self.entries@
    }

    /// The container's invariant: keys never repeat.
    pub closed spec fn wf(&self) -> bool {
        distinct_keys(self.entries@)
    }

    pub fn new() -> (r: Self)
        ensures
            r@ == Map::<u32, V>::empty(),
            r.wf(),
            r.spec_entries() == Seq::<(u32, V)>::empty(),
    {
        let r = U32Map { entries: Vec::new() };
        proof {
            assert(r.entries@ =~= Seq::<(u32, V)>::empty());
        }
        r
    }

    fn position_of(&self, k: u32) -> (r: Option<usize>)
        ensures
            match r {
                Some(i) => i < self.entries@.len() && self.entries@[i as int].0 == k,
                None => forall|i: int|
                    0 <= i < self.entries@.len() ==> (#[trigger] self.entries@[i]).0 != k,
            },
    {
        let mut i: usize = 0;
        while i < self.entries.len()
            invariant
                0 <= i <= self.entries@.len(),
                forall|j: int| 0 <= j < i ==> (#[trigger] self.entries@[j]).0 != k,
            decreases self.entries@.len() - i,
        {
            if self.entries[i].0 == k {
                return Some(i);
            }
            i = i + 1;
        }
        None
    }

    pub fn contains_key(&self, k: u32) -> (r: bool)
        requires
            self.wf(),
        ensures
            r == self@.contains_key(k),
    {
        match self.position_of(k) {
            Some(i) => {
                proof {
                    lemma_to_map_index(self.entries@, i as int);
                }
                true
            },
            None => {
                proof {
                    lemma_to_map_absent(self.entries@, k);
                }
                false
            },
        }
    }

    pub fn get(&self, k: u32) -> (r: Option<&V>)
        requires
            self.wf(),
        ensures
            match r {
                Some(v) => self@.contains_key(k) && *v == self@[k],
                None => !self@.contains_key(k),
            },
    {
        match self.position_of(k) {
            Some(i) => {
                proof {
                    lemma_to_map_index(self.entries@, i as int);
                }
                Some(&self.entries[i].1)
            },
            None => {
                proof {
                    lemma_to_map_absent(self.entries@, k);
                }
                None
            },
        }
    }

    /// Map-style insertion: an existing entry of the key is overwritten.
    pub fn insert(&mut self, k: u32, v: V)
        requires
            old(self).wf(),
        ensures
            final(self)@ == old(self)@.insert(k, v),
            final(self).wf(),
    {
        let pos = self.position_of(k);
        match pos {
            Some(i) => {
                proof {
                    lemma_to_map_update(self.entries@, i as int, v);
                }
                let elem = crate::utils::vec_index_mut(&mut self.entries, i);
                *elem = (k, v);
                proof {
                    let s_old = old(self).entries@;
                    let s_new = self.entries@;
                    assert(forall|j: int|
                        0 <= j < s_new.len() ==> (#[trigger] s_new[j]).0 == s_old[j].0);
                    assert(distinct_keys(s_new));
                }
            },
            None => {
                proof {
                    lemma_to_map_absent(self.entries@, k);
                }
                self.entries.push((k, v));
                proof {
                    assert(self.entries@.drop_last() =~= old(self).entries@);
                }
            },
        }
    }

    /// First-writer-wins insertion: a key already present keeps the value
    /// it was first recorded with, whatever arrives later.
    pub fn try_insert(&mut self, k: u32, v: V)
        requires
            old(self).wf(),
        ensures
            final(self)@ == if old(self)@.contains_key(k) {
                old(self)@
            } else {
                old(self)@.insert(k, v)
            },
            final(self).wf(),
    {
        let pos = self.position_of(k);
        match pos {
            Some(i) => {
                proof {
                    lemma_to_map_index(self.entries@, i as int);
                }
            },
            None => {
                proof {
                    lemma_to_map_absent(self.entries@, k);
                }
                self.entries.push((k, v));
                proof {
                    assert(self.entries@.drop_last() =~= old(self).entries@);
                }
            },
        }
    }

    pub fn len(&self) -> (r: usize)
        ensures
            r == self.spec_entries().len(),
    {
        self.entries.len()
    }

    /// Indexed access over the insertion order, for walking the container.
    pub fn entry_at(&self, i: usize) -> (r: (u32, &V))
        requires
            i < self.spec_entries().len(),
        ensures
            r.0 == self.spec_entries()[i as int].0,
            *r.1 == self.spec_entries()[i as int].1,
            self.wf() ==> self@.contains_key(r.0) && *r.1 == self@[r.0],
    {
        proof {
            if self.wf() {
                lemma_to_map_index(self.entries@, i as int);
            }
        }
        (self.entries[i].0, &self.entries[i].1)
    }
}

/// First-writer-wins twice over: once a key is recorded, recording it again
/// with any other value changes nothing, and the first value stays.
pub proof fn lemma_try_insert_idempotent<V>(m: Map<u32, V>, k: u32, v1: V, v2: V)
    requires
        !m.contains_key(k),
    ensures
        ({
            let after_first = m.insert(k, v1);
            let after_second = if after_first.contains_key(k) {
                after_first
            } else {
                after_first.insert(k, v2)
            };
            after_second == after_first && after_second[k] == v1
        }),
{
}

} // verus!

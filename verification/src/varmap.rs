//! The variation maps: sorted flat maps from variation pointer to variation,
//! kept in the outside crate's map type behind trusted declarations. The
//! contents of each instantiation carry a name, and every method the
//! builders call states over that name what the map crate's source shows:
//! sorted-position insertion with replacement, key lookup, and indexed
//! access in ascending key order.

use vstd::prelude::*;
use crate::cmbr::structs::CmbrVariation;
use crate::pgn::ast::PgnVariation;

verus! {

#[verifier::external_type_specification]
#[verifier::external_body]
#[verifier::reject_recursive_types(K)]
#[verifier::reject_recursive_types(V)]
#[verifier::reject_recursive_types(S)]
pub struct ExLiteMap<K: ?Sized, V: ?Sized, S>(litemap::LiteMap<K, V, S>);

/// Lookup by key: the first entry holding it.
pub open spec fn spec_entries_get<V>(s: Seq<(u32, V)>, k: u32) -> Option<V>
    decreases s.len(),
{
    if s.len() == 0 {
        None
    } else if s[0].0 == k {
        Some(s[0].1)
    } else {
        spec_entries_get(s.skip(1), k)
    }
}

/// Insertion into a key-sorted entry list: replaces the entry of an equal
/// key, otherwise places the new entry before the first greater key.
pub open spec fn spec_entries_insert<V>(s: Seq<(u32, V)>, k: u32, v: V) -> Seq<(u32, V)>
    decreases s.len(),
{
    if s.len() == 0 {
        seq![(k, v)]
    } else if s[0].0 == k {
        seq![(k, v)] + s.skip(1)
    } else if k < s[0].0 {
        seq![(k, v)] + s
    } else {
        seq![s[0]] + spec_entries_insert(s.skip(1), k, v)
    }
}

/// Strictly ascending keys.
pub open spec fn spec_entries_sorted<V>(s: Seq<(u32, V)>) -> bool {
    forall|i: int, j: int| 0 <= i < j < s.len() ==> s[i].0 < s[j].0
}

/// What a pointer-to-variation map holds, in ascending key order.
pub uninterp spec fn pgn_variation_entries(m: &litemap::LiteMap<u32, PgnVariation>) -> Seq<
    (u32, PgnVariation),
>;

/// Relies on `LiteMap::new_vec`: an empty map.
#[verifier::external_body]
pub(crate) fn pgn_vars_new() -> (r: litemap::LiteMap<u32, PgnVariation>)
    ensures
        pgn_variation_entries(&r) == Seq::<(u32, PgnVariation)>::empty(),
{
    litemap::LiteMap::new_vec()
}

/// Relies on `LiteMap::insert`: a binary search on the sorted store finds
/// the key's position; an equal key's value is replaced, otherwise the
/// entry is inserted there, keeping the store sorted.
#[verifier::external_body]
pub(crate) fn pgn_vars_insert(m: &mut litemap::LiteMap<u32, PgnVariation>, k: u32, v: PgnVariation)
    ensures
        pgn_variation_entries(final(m)) == spec_entries_insert(pgn_variation_entries(old(m)), k, v),
{
    let _ = m.insert(k, v);
}

/// Relies on `LiteMap::get`: the value stored under an equal key.
#[verifier::external_body]
pub(crate) fn pgn_vars_get<'a>(m: &'a litemap::LiteMap<u32, PgnVariation>, k: u32) -> (r: Option<
    &'a PgnVariation,
>)
    ensures
        match r {
            Some(v) => spec_entries_get(pgn_variation_entries(m), k) == Some(*v),
            None => spec_entries_get(pgn_variation_entries(m), k) is None,
        },
{
    m.get(&k)
}

/// Relies on `LiteMap::len`.
#[verifier::external_body]
pub(crate) fn pgn_vars_len(m: &litemap::LiteMap<u32, PgnVariation>) -> (r: usize)
    ensures
        r == pgn_variation_entries(m).len(),
{
    m.len()
}

/// Relies on `LiteMap::get_indexed`: the entry at a position of the sorted
/// store.
#[verifier::external_body]
pub(crate) fn pgn_vars_get_indexed<'a>(
    m: &'a litemap::LiteMap<u32, PgnVariation>,
    i: usize,
) -> (r: Option<(u32, &'a PgnVariation)>)
    ensures
        ({
            let entries = pgn_variation_entries(m);
            match r {
                Some(p) => i < entries.len() && p.0 == entries[i as int].0 && *p.1
                    == entries[i as int].1,
                None => i >= entries.len(),
            }
        }),
{
    match m.get_indexed(i) {
        Some((k, v)) => Some((*k, v)),
        None => None,
    }
}

/// What a pointer-to-converted-variation map holds, in ascending key order.
pub uninterp spec fn cmbr_variation_entries(m: &litemap::LiteMap<u32, CmbrVariation>) -> Seq<
    (u32, CmbrVariation),
>;

/// Relies on `LiteMap::new_vec`: an empty map.
#[verifier::external_body]
pub(crate) fn cmbr_vars_new() -> (r: litemap::LiteMap<u32, CmbrVariation>)
    ensures
        cmbr_variation_entries(&r) == Seq::<(u32, CmbrVariation)>::empty(),
{
    litemap::LiteMap::new_vec()
}

/// Relies on `LiteMap::insert`, as the parse-stage wrapper does.
#[verifier::external_body]
pub(crate) fn cmbr_vars_insert(m: &mut litemap::LiteMap<u32, CmbrVariation>, k: u32, v: CmbrVariation)
    ensures
        cmbr_variation_entries(final(m)) == spec_entries_insert(
            cmbr_variation_entries(old(m)),
            k,
            v,
        ),
{
    let _ = m.insert(k, v);
}

/// Relies on `LiteMap::get`: the value stored under an equal key.
#[verifier::external_body]
pub(crate) fn cmbr_vars_get<'a>(m: &'a litemap::LiteMap<u32, CmbrVariation>, k: u32) -> (r: Option<
    &'a CmbrVariation,
>)
    ensures
        match r {
            Some(v) => spec_entries_get(cmbr_variation_entries(m), k) == Some(*v),
            None => spec_entries_get(cmbr_variation_entries(m), k) is None,
        },
{
    m.get(&k)
}

/// Relies on `LiteMap::len`.
#[verifier::external_body]
pub(crate) fn cmbr_vars_len(m: &litemap::LiteMap<u32, CmbrVariation>) -> (r: usize)
    ensures
        r == cmbr_variation_entries(m).len(),
{
    m.len()
}

/// Relies on `LiteMap::get_indexed`: the entry at a position of the sorted
/// store.
#[verifier::external_body]
pub(crate) fn cmbr_vars_get_indexed<'a>(
    m: &'a litemap::LiteMap<u32, CmbrVariation>,
    i: usize,
) -> (r: Option<(u32, &'a CmbrVariation)>)
    ensures
        ({
            let entries = cmbr_variation_entries(m);
            match r {
                Some(p) => i < entries.len() && p.0 == entries[i as int].0 && *p.1
                    == entries[i as int].1,
                None => i >= entries.len(),
            }
        }),
{
    match m.get_indexed(i) {
        Some((k, v)) => Some((*k, v)),
        None => None,
    }
}

/// Sorted insertion keeps the keys strictly ascending, and brings in no key
/// besides the inserted one.
pub proof fn lemma_entries_insert_sorted<V>(s: Seq<(u32, V)>, k: u32, v: V)
    requires
        spec_entries_sorted(s),
    ensures
        spec_entries_sorted(spec_entries_insert(s, k, v)),
        forall|i: int|
            0 <= i < spec_entries_insert(s, k, v).len() ==> (#[trigger] spec_entries_insert(
                s,
                k,
                v,
            )[i]).0 == k || exists|j: int| 0 <= j < s.len() && (#[trigger] s[j]).0
                == spec_entries_insert(s, k, v)[i].0,
    decreases s.len(),
{
    let r = spec_entries_insert(s, k, v);
    if s.len() == 0 {
    } else if s[0].0 == k {
        assert(forall|i: int| 1 <= i < r.len() ==> r[i] == s[i]);
        assert forall|i: int| 0 <= i < r.len() implies r[i].0 == k || exists|j: int|
            0 <= j < s.len() && (#[trigger] s[j]).0 == r[i].0 by {
            if i >= 1 {
                assert(s[i].0 == r[i].0);
            }
        }
    } else if k < s[0].0 {
        assert(forall|i: int| 1 <= i < r.len() ==> r[i] == s[i - 1]);
        assert forall|i: int| 0 <= i < r.len() implies r[i].0 == k || exists|j: int|
            0 <= j < s.len() && (#[trigger] s[j]).0 == r[i].0 by {
            if i >= 1 {
                assert(s[i - 1].0 == r[i].0);
            }
        }
    } else {
        let tail = s.skip(1);
        assert(forall|i: int, j: int| 0 <= i < j < tail.len() ==> tail[i].0 < tail[j].0);
        lemma_entries_insert_sorted(tail, k, v);
        let rt = spec_entries_insert(tail, k, v);
        assert(forall|i: int| 1 <= i < r.len() ==> r[i] == rt[i - 1]);
        assert forall|i: int, j: int| 0 <= i < j < r.len() implies r[i].0 < r[j].0 by {
            if i == 0 {
                let e = rt[j - 1];
                assert(e.0 == k || exists|m: int| 0 <= m < tail.len() && (#[trigger] tail[m]).0
                    == e.0);
                if e.0 != k {
                    let m = choose|m: int| 0 <= m < tail.len() && (#[trigger] tail[m]).0 == e.0;
                    assert(s[m + 1].0 == e.0);
                    assert(s[0].0 < s[m + 1].0);
                }
            }
        }
        assert forall|i: int| 0 <= i < r.len() implies r[i].0 == k || exists|j: int|
            0 <= j < s.len() && (#[trigger] s[j]).0 == r[i].0 by {
            if i == 0 {
                assert(s[0].0 == r[0].0);
            } else {
                let e = rt[i - 1];
                if e.0 != k {
                    let m = choose|m: int| 0 <= m < tail.len() && (#[trigger] tail[m]).0 == e.0;
                    assert(s[m + 1].0 == e.0);
                }
            }
        }
    }
}

/// On a sorted entry list, insertion grows the length exactly when the key
/// is new.
pub proof fn lemma_entries_insert_len<V>(s: Seq<(u32, V)>, k: u32, v: V)
    requires
        spec_entries_sorted(s),
    ensures
        spec_entries_insert(s, k, v).len() == if spec_entries_get(s, k) is Some {
            s.len() as int
        } else {
            s.len() as int + 1
        },
    decreases s.len(),
{
    if s.len() == 0 {
    } else if s[0].0 == k {
    } else if k < s[0].0 {
        assert forall|j: int| 0 <= j < s.len() implies (#[trigger] s[j]).0 != k by {
            if j > 0 {
                assert(s[0].0 < s[j].0);
            }
        }
        lemma_entries_get_absent(s, k);
    } else {
        let tail = s.skip(1);
        assert(forall|i: int, j: int| 0 <= i < j < tail.len() ==> tail[i].0 < tail[j].0);
        lemma_entries_insert_len(tail, k, v);
    }
}

/// A key no entry holds is not found.
pub proof fn lemma_entries_get_absent<V>(s: Seq<(u32, V)>, k: u32)
    requires
        forall|j: int| 0 <= j < s.len() ==> (#[trigger] s[j]).0 != k,
    ensures
        spec_entries_get(s, k) is None,
    decreases s.len(),
{
    if s.len() > 0 {
        assert(forall|j: int| 0 <= j < s.skip(1).len() ==> (#[trigger] s.skip(1)[j]).0 != k);
        lemma_entries_get_absent(s.skip(1), k);
    }
}

/// Every key found after an insertion is the inserted key or was found
/// before.
pub proof fn lemma_entries_insert_keys<V>(s: Seq<(u32, V)>, k: u32, v: V, k2: u32)
    requires
        spec_entries_get(spec_entries_insert(s, k, v), k2) is Some,
    ensures
        k2 == k || spec_entries_get(s, k2) is Some,
    decreases s.len(),
{
    let r = spec_entries_insert(s, k, v);
    if s.len() == 0 {
        if k2 != k {
            assert(r[0].0 != k2);
            assert(spec_entries_get(r, k2) == spec_entries_get(r.skip(1), k2));
            assert(r.skip(1) =~= Seq::<(u32, V)>::empty());
        }
    } else if s[0].0 == k {
        if k2 != k {
            assert(r[0].0 != k2);
            assert(spec_entries_get(r, k2) == spec_entries_get(r.skip(1), k2));
            assert(r.skip(1) =~= s.skip(1));
            assert(spec_entries_get(s, k2) == spec_entries_get(s.skip(1), k2));
        }
    } else if k < s[0].0 {
        if k2 != k {
            assert(r[0].0 != k2);
            assert(spec_entries_get(r, k2) == spec_entries_get(r.skip(1), k2));
            assert(r.skip(1) =~= s);
        }
    } else {
        if k2 != k {
            assert(r[0] == s[0]);
            if s[0].0 == k2 {
                assert(spec_entries_get(s, k2) is Some);
            } else {
                assert(spec_entries_get(r, k2) == spec_entries_get(r.skip(1), k2));
                assert(r.skip(1) =~= spec_entries_insert(s.skip(1), k, v));
                lemma_entries_insert_keys(s.skip(1), k, v, k2);
                assert(spec_entries_get(s, k2) == spec_entries_get(s.skip(1), k2));
            }
        }
    }
}

/// Insertion always leaves the inserted key findable.
pub proof fn lemma_entries_insert_finds<V>(s: Seq<(u32, V)>, k: u32, v: V)
    ensures
        spec_entries_get(spec_entries_insert(s, k, v), k) is Some,
    decreases s.len(),
{
    let r = spec_entries_insert(s, k, v);
    if s.len() == 0 {
    } else if s[0].0 == k {
    } else if k < s[0].0 {
    } else {
        assert(r[0] == s[0]);
        assert(spec_entries_get(r, k) == spec_entries_get(r.skip(1), k));
        assert(r.skip(1) =~= spec_entries_insert(s.skip(1), k, v));
        lemma_entries_insert_finds(s.skip(1), k, v);
    }
}

/// Lookup after insertion: the inserted key finds the new value, every
/// other key finds what it found before.
pub proof fn lemma_entries_insert_get<V>(s: Seq<(u32, V)>, k: u32, v: V, k2: u32)
    ensures
        spec_entries_get(spec_entries_insert(s, k, v), k2) == if k2 == k {
            Some(v)
        } else {
            spec_entries_get(s, k2)
        },
    decreases s.len(),
{
    let r = spec_entries_insert(s, k, v);
    if s.len() == 0 {
        if k2 != k {
            assert(spec_entries_get(r, k2) == spec_entries_get(r.skip(1), k2));
            assert(r.skip(1) =~= Seq::<(u32, V)>::empty());
        }
    } else if s[0].0 == k {
        assert(r[0] == (k, v));
        if k2 != k {
            assert(spec_entries_get(r, k2) == spec_entries_get(r.skip(1), k2));
            assert(r.skip(1) =~= s.skip(1));
            assert(spec_entries_get(s, k2) == spec_entries_get(s.skip(1), k2));
        }
    } else if k < s[0].0 {
        assert(r[0] == (k, v));
        if k2 != k {
            assert(spec_entries_get(r, k2) == spec_entries_get(r.skip(1), k2));
            assert(r.skip(1) =~= s);
        }
    } else {
        assert(r[0] == s[0]);
        if s[0].0 == k2 {
        } else {
            assert(spec_entries_get(r, k2) == spec_entries_get(r.skip(1), k2));
            assert(r.skip(1) =~= spec_entries_insert(s.skip(1), k, v));
            lemma_entries_insert_get(s.skip(1), k, v, k2);
            assert(spec_entries_get(s, k2) == spec_entries_get(s.skip(1), k2));
        }
    }
}

} // verus!

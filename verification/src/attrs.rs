//! Attribute storage for parsed elements.
//!
//! Attributes keep their insertion order, which is occasionally meaningful to
//! rule handlers (class lists, for instance), so they live in a
//! `linked_hash_map::LinkedHashMap`. The map is specified through
//! `lhm_entries`, the ordered sequence of its key/value pairs.

use vstd::prelude::*;
use linked_hash_map::LinkedHashMap;

verus! {

#[verifier::external_type_specification]
#[verifier::external_body]
#[verifier::reject_recursive_types(K)]
#[verifier::reject_recursive_types(V)]
#[verifier::reject_recursive_types(S)]
pub struct ExLinkedHashMap<K, V, S>(LinkedHashMap<K, V, S>);

/// The key/value pairs held by an attribute map, in iteration order.
pub uninterp spec fn lhm_entries(m: LinkedHashMap<Vec<u16>, Vec<u16>>) -> Seq<(Seq<u16>, Seq<u16>)>;

/// The value of the first entry whose key is `k`, if any.
pub open spec fn spec_lookup(entries: Seq<(Seq<u16>, Seq<u16>)>, k: Seq<u16>) -> Option<Seq<u16>>
    decreases entries.len(),
{
    if entries.len() == 0 {
        None
    } else if entries[0].0 == k {
        Some(entries[0].1)
    } else {
        spec_lookup(entries.drop_first(), k)
    }
}

/// The entries with every pair keyed by `k` removed.
pub open spec fn remove_key(entries: Seq<(Seq<u16>, Seq<u16>)>, k: Seq<u16>) -> Seq<(Seq<u16>, Seq<u16>)> {
    entries.filter(|e: (Seq<u16>, Seq<u16>)| e.0 != k)
}

/// Relies on linked_hash_map::LinkedHashMap::new: the new map has no entries.
#[verifier::external_body]
pub(crate) fn lhm_new() -> (r: LinkedHashMap<Vec<u16>, Vec<u16>>)
    ensures
        lhm_entries(r) == Seq::<(Seq<u16>, Seq<u16>)>::empty(),
{
    LinkedHashMap::new()
}

/// Relies on linked_hash_map::LinkedHashMap::insert: a fresh key is appended
/// at the end of the iteration order; re-inserting an existing key detaches
/// the old node and re-attaches it at the end, so either way every older
/// entry under the same key disappears and the new pair ends up last.
#[verifier::external_body]
pub(crate) fn lhm_insert(m: &mut LinkedHashMap<Vec<u16>, Vec<u16>>, k: Vec<u16>, v: Vec<u16>)
    ensures
        lhm_entries(*final(m)) == remove_key(lhm_entries(*old(m)), k@).push((k@, v@)),
{
    m.insert(k, v);
}

/// Relies on linked_hash_map::LinkedHashMap::get: returns the value stored
/// under the key, if any; the value is cloned so the caller gets a plain
/// vector back.
#[verifier::external_body]
pub(crate) fn lhm_get(m: &LinkedHashMap<Vec<u16>, Vec<u16>>, k: &Vec<u16>) -> (r: Option<Vec<u16>>)
    ensures
        match r {
            Some(v) => spec_lookup(lhm_entries(*m), k@) == Some(v@),
            None => spec_lookup(lhm_entries(*m), k@) is None,
        },
{
    m.get(k).cloned()
}

/// Relies on linked_hash_map::LinkedHashMap::iter: yields the entries in
/// insertion order; each pair is cloned into plain vectors.
#[verifier::external_body]
pub(crate) fn lhm_entries_vec(m: &LinkedHashMap<Vec<u16>, Vec<u16>>) -> (r: Vec<(Vec<u16>, Vec<u16>)>)
    ensures
        r@.len() == lhm_entries(*m).len(),
        forall|i: int| 0 <= i < r@.len() ==>
            (#[trigger] r@[i]).0@ == lhm_entries(*m)[i].0 && r@[i].1@ == lhm_entries(*m)[i].1,
{
    m.iter().map(|(k, v)| (k.clone(), v.clone())).collect()
}

} // verus!

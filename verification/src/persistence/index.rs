//! The key index of the in-memory stores: a concurrent map (`dashmap`) from
//! a record's key to its position in the store.

use vstd::prelude::*;
use dashmap::DashMap;
use crate::persistence::key_index;

verus! {

/// `dashmap::DashMap`, seen only through the wrappers below.
#[verifier::external_type_specification]
#[verifier::external_body]
#[verifier::reject_recursive_types(K)]
#[verifier::reject_recursive_types(V)]
#[verifier::reject_recursive_types(S)]
pub struct ExDashMap<K, V, S>(DashMap<K, V, S>);

/// A key index: record key to position.
pub type KeyIndex = DashMap<String, usize>;

/// The `key → position` entries an index holds.
pub uninterp spec fn index_entries(m: KeyIndex) -> Map<Seq<char>, usize>;

/// `DashMap::new`: an index with no entries.
#[verifier::external_body]
pub(crate) fn index_new() -> (res: KeyIndex)
    ensures
        index_entries(res).dom() == Set::<Seq<char>>::empty(),
{
    DashMap::new()
}

/// `DashMap::insert`: sets the position of `key`, replacing an earlier one
/// (the previous value it hands back is dropped).
#[verifier::external_body]
pub(crate) fn index_insert(m: &mut KeyIndex, key: String, pos: usize)
    ensures
        index_entries(*final(m)) == index_entries(*old(m)).insert(key@, pos),
{
    m.insert(key, pos);
}

/// `DashMap::get`: the position recorded for `key`, copied out of the
/// guard that `get` returns (the guard is released before returning).
#[verifier::external_body]
pub(crate) fn index_get(m: &KeyIndex, key: &str) -> (res: Option<usize>)
    ensures
        match res {
            Some(p) => index_entries(*m).contains_key(key@) && index_entries(*m)[key@] == p,
            None => !index_entries(*m).contains_key(key@),
        },
{
    m.get(key).map(|entry| *entry.value())
}

/// The index holds the position of each of `keys` (the last one, for a key
/// that repeats) and no other key.
pub open spec fn indexes(m: KeyIndex, keys: Seq<Seq<char>>) -> bool {
    forall|k: Seq<char>| #[trigger] index_entries(m).contains_key(k) == (key_index(keys, k) is Some) && (
    index_entries(m).contains_key(k) ==> key_index(keys, k) == Some(index_entries(m)[k] as int))
}

/// Recording the next position for a key appended to the keys keeps the
/// index exact.
pub proof fn lemma_indexes_push(m0: KeyIndex, m1: KeyIndex, keys: Seq<Seq<char>>, k: Seq<char>, pos: usize)
    requires
        indexes(m0, keys),
        pos == keys.len(),
        index_entries(m1) == index_entries(m0).insert(k, pos),
    ensures
        indexes(m1, keys.push(k)),
{
    let ks = keys.push(k);
    assert(ks.drop_last() =~= keys);
    assert forall|j: Seq<char>| #[trigger] index_entries(m1).contains_key(j) == (key_index(ks, j) is Some) && (
    index_entries(m1).contains_key(j) ==> key_index(ks, j) == Some(index_entries(m1)[j] as int)) by {
        if j != k {
            assert(key_index(ks, j) == key_index(keys, j));
        }
    }
}

/// An index of the empty key list is empty.
pub proof fn lemma_indexes_empty(m: KeyIndex)
    requires
        index_entries(m).dom() == Set::<Seq<char>>::empty(),
    ensures
        indexes(m, Seq::empty()),
{
    assert forall|k: Seq<char>| #[trigger] index_entries(m).contains_key(k) == (key_index(Seq::empty(), k) is Some)
        by {
        assert(!index_entries(m).dom().contains(k));
    }
}

} // verus!

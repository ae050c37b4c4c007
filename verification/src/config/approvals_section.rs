//! The `approvals:` section: per-action ticket lifetimes.

use vstd::prelude::*;
use crate::persistence::{key_index, lemma_key_index};

verus! {

/// The keys of a list of `(key, duration)` entries.
pub open spec fn entry_keys(entries: Seq<(String, u64)>) -> Seq<Seq<char>> {
    Seq::new(entries.len(), |i: int| entries[i].0@)
}

/// The duration recorded for `key`; a later entry for the same key wins.
pub open spec fn duration_for(entries: Seq<(String, u64)>, key: Seq<char>) -> Option<u64> {
    match key_index(entry_keys(entries), key) {
        Some(i) => Some(entries[i].1),
        None => None,
    }
}

/// The duration recorded for `key` in `entries`.
pub fn lookup_duration(entries: &Vec<(String, u64)>, key: &str) -> (res: Option<u64>)
    ensures
        res == duration_for(entries@, key@),
{
    let ghost ks = entry_keys(entries@);
    let wanted: String = key.to_owned();
    let mut i: usize = entries.len();
    proof {
        assert(ks.take(i as int) =~= ks);
    }
    while i > 0
        invariant
            i <= entries@.len(),
            ks == entry_keys(entries@),
            wanted@ == key@,
            key_index(ks, key@) == key_index(ks.take(i as int), key@),
        decreases i,
    {
        let same = entries[i - 1].0 == wanted;
        proof {
            let t = ks.take(i as int);
            assert(t.last() == entries@[i - 1].0@);
            assert(t.drop_last() =~= ks.take(i - 1));
        }
        if same {
            return Some(entries[i - 1].1);
        }
        i = i - 1;
    }
    None
}

/// Per-action ticket lifetimes, in nanoseconds.
#[derive(Debug, Clone, Default, PartialEq, Eq)]
pub struct ApprovalsConfig {
    pub ttl_overrides: Vec<(String, u64)>,
}

} // verus!

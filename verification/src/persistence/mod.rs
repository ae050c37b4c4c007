//! In-memory persistence: sessions, inboxes, tickets and notifications.
//!
//! Every store keeps its records in insertion order and finds a record by
//! its identifier through a key index; identifiers are unique within a store.

pub mod index;
pub mod memory;
pub mod notifications;
pub mod tickets;

use vstd::prelude::*;
use crate::sessions::SessionStatus;
use crate::sub_agent::outcome::AbandonReason;

verus! {

/// Terminal outcome marker.
#[derive(Debug, Clone, Copy, PartialEq, Eq, Structural)]
pub enum TerminalOutcome {
    Done,
    Abandoned(AbandonReason),
}

/// A change to a session that subscribers are told about.
#[derive(Debug, Clone, Copy, PartialEq, Eq, Structural)]
pub enum SessionEvent {
    StatusChanged(SessionStatus),
    WaitAdded,
    WaitResolved,
}

/// Index of the last record whose key is `k`.
pub open spec fn key_index(keys: Seq<Seq<char>>, k: Seq<char>) -> Option<int>
    decreases keys.len(),
{
    if keys.len() == 0 {
        None
    } else if keys.last() == k {
        Some(keys.len() - 1)
    } else {
        key_index(keys.drop_last(), k)
    }
}

/// Keys are pairwise distinct.
pub open spec fn keys_distinct(keys: Seq<Seq<char>>) -> bool {
    forall|i: int, j: int| 0 <= i < keys.len() && 0 <= j < keys.len() && i != j ==> keys[i] != keys[j]
}

/// `key_index` names a position that holds the key, or the key is absent.
pub proof fn lemma_key_index(keys: Seq<Seq<char>>, k: Seq<char>)
    ensures
        match key_index(keys, k) {
            Some(i) => 0 <= i < keys.len() && keys[i] == k,
            None => forall|j: int| 0 <= j < keys.len() ==> keys[j] != k,
        },
    decreases keys.len(),
{
    if keys.len() > 0 {
        lemma_key_index(keys.drop_last(), k);
        if keys.last() != k {
            assert forall|j: int| 0 <= j < keys.len() - 1 implies keys[j] == keys.drop_last()[j] by {}
        }
    }
}

/// With distinct keys, the record at `i` is the one found for its key.
pub proof fn lemma_key_index_unique(keys: Seq<Seq<char>>, i: int)
    requires
        keys_distinct(keys),
        0 <= i < keys.len(),
    ensures
        key_index(keys, keys[i]) == Some(i),
{
    lemma_key_index(keys, keys[i]);
}

} // verus!

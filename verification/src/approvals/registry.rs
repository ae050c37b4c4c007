//! Registry of approval-gated action handlers. The action kind of a ticket
//! resolves to the handler registered for it; the handler then runs with
//! the arguments stored on the ticket, never with arguments supplied anew.
//! The registry does not run the runtime checkpoint: it is consulted only after
//! the checkpoint has passed and consumed the ticket.

use vstd::prelude::*;
use crate::persistence::{key_index, keys_distinct, lemma_key_index};
use crate::persistence::index::{
    KeyIndex, index_get, index_insert, index_new, indexes, lemma_indexes_empty, lemma_indexes_push,
};

verus! {

/// Why an action could not be dispatched.
#[derive(Debug)]
pub enum ActionRegistryError {
    Unknown(String),
    Handler(String),
}

/// The action kinds with a handler; a handler is known by its slot, and a
/// key index finds the slot of a kind.
pub struct InMemoryActionRegistry {
    kinds: Vec<String>,
    by_kind: KeyIndex,
}

impl InMemoryActionRegistry {
    /// The registered action kinds, by slot.
    pub closed spec fn kinds(&self) -> Seq<Seq<char>> {
        Seq::new(self.kinds@.len(), |i: int| self.kinds@[i]@)
    }

    /// The key index holds the slot of each kind.
    pub closed spec fn indexed(&self) -> bool {
        indexes(self.by_kind, self.kinds())
    }

    /// Kinds are distinct and indexed.
    pub open spec fn wf(&self) -> bool {
        &&& keys_distinct(self.kinds())
        &&& self.indexed()
    }

    pub fn new() -> (res: Self)
        ensures
            res.wf(),
            res.kinds() == Seq::<Seq<char>>::empty(),
    {
        let res = InMemoryActionRegistry { kinds: Vec::new(), by_kind: index_new() };
        proof {
            assert(res.kinds() =~= Seq::<Seq<char>>::empty());
            lemma_indexes_empty(res.by_kind);
        }
        res
    }

    /// The slot of the handler of `action_kind`.
    pub fn lookup(&self, action_kind: &str) -> (res: Option<usize>)
        requires
            self.wf(),
        ensures
            match res {
                Some(i) => key_index(self.kinds(), action_kind@) == Some(i as int),
                None => key_index(self.kinds(), action_kind@) is None,
            },
    {
        index_get(&self.by_kind, action_kind)
    }

    /// Registers `action_kind` and returns the slot its handler goes in:
    /// the slot it already has, or a new last one. A later registration
    /// for the same kind replaces the handler in that slot.
    pub fn register(&mut self, action_kind: String) -> (res: usize)
        requires
            old(self).wf(),
        ensures
            final(self).wf(),
            match key_index(old(self).kinds(), action_kind@) {
                Some(i) => res == i && final(self).kinds() == old(self).kinds(),
                None => res == old(self).kinds().len() && final(self).kinds() == old(self).kinds().push(
                    action_kind@,
                ),
            },
            key_index(final(self).kinds(), action_kind@) == Some(res as int),
    {
        match self.lookup(action_kind.as_str()) {
            Some(i) => i,
            None => {
                let ghost old_ks = self.kinds();
                proof {
                    lemma_key_index(old_ks, action_kind@);
                }
                let ghost kv = action_kind@;
                let ghost old_index = self.by_kind;
                let slot = self.kinds.len();
                index_insert(&mut self.by_kind, action_kind.clone(), slot);
                self.kinds.push(action_kind);
                proof {
                    assert(self.kinds() =~= old_ks.push(kv));
                    assert(self.kinds().drop_last() =~= old_ks);
                    lemma_indexes_push(old_index, self.by_kind, old_ks, kv, slot);
                }
                self.kinds.len() - 1
            },
        }
    }

    /// The slot to dispatch `action_kind` to, or `Unknown` with the kind.
    pub fn resolve(&self, action_kind: &str) -> (res: Result<usize, ActionRegistryError>)
        requires
            self.wf(),
        ensures
            match key_index(self.kinds(), action_kind@) {
                Some(i) => res == Ok::<usize, ActionRegistryError>(i as usize),
                None => res matches Err(ActionRegistryError::Unknown(k)) && k@ == action_kind@,
            },
    {
        match self.lookup(action_kind) {
            Some(i) => Ok(i),
            None => Err(ActionRegistryError::Unknown(action_kind.to_owned())),
        }
    }
}

} // verus!

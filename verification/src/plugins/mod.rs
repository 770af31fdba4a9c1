//! The registry of plugins: values that are made available to every
//! request, one for each key.
//!
//! Plugins are registered while the application is configured. Once the
//! registry was handed out to the code that serves connections, it is
//! shared, and nothing is registered any more.

use crate::string_map::{lemma_position_is, position};
use vstd::prelude::*;

verus! {

/// The keys under which plugins are registered, in the order of their
/// registration. The embedding code keeps the plugin of each key at the
/// key's index.
#[derive(Debug)]
pub struct Plugins {
    pub keys: Vec<u64>,
    /// Whether the registry was handed out.
    pub shared: bool,
}

/// The keys of `keys` as the entries of a map that keeps nothing but its
/// keys.
pub open spec fn keyed(keys: Seq<u64>) -> Seq<(u64, ())> {
    Seq::new(keys.len(), |i: int| (keys[i], ()))
}

/// The index of the first occurrence of `key` in `keys`, or `keys.len()`.
pub open spec fn slot_of(keys: Seq<u64>, key: u64) -> int {
    position(keyed(keys), key)
}

impl Plugins {
    /// The empty registry, which is not shared.
    pub fn new() -> (p: Plugins)
        ensures
            p.keys@ == Seq::<u64>::empty(),
            !p.shared,
    {
        Plugins { keys: Vec::new(), shared: false }
    }

    /// Registers a plugin under `key` and returns its index. A plugin that
    /// was registered under the key before is replaced: the key keeps its
    /// index. Nothing may be registered in a registry that is shared.
    pub fn insert(&mut self, key: u64) -> (slot: usize)
        requires
            !old(self).shared,
        ensures
            !final(self).shared,
            slot == slot_of(old(self).keys@, key),
            final(self).keys@ == if slot < old(self).keys@.len() {
                old(self).keys@
            } else {
                old(self).keys@.push(key)
            },
    {
        let slot = self.find(key);
        if slot == self.keys.len() {
            self.keys.push(key);
        }
        slot
    }

    fn find(&self, key: u64) -> (slot: usize)
        ensures
            slot == slot_of(self.keys@, key),
            slot <= self.keys@.len(),
    {
        let mut i: usize = 0;
        while i < self.keys.len() && self.keys[i] != key
            invariant
                i <= self.keys@.len(),
                forall|j: int| 0 <= j < i ==> (#[trigger] keyed(self.keys@)[j]).0 != key,
            decreases self.keys@.len() - i,
        {
            i = i + 1;
        }
        proof {
            lemma_position_is(keyed(self.keys@), key, i as int);
        }
        i
    }

    /// The index of the plugin that is registered under `key`.
    pub fn get(&self, key: u64) -> (r: Option<usize>)
        ensures
            match r {
                Some(slot) => slot == slot_of(self.keys@, key) && slot < self.keys@.len(),
                None => slot_of(self.keys@, key) == self.keys@.len(),
            },
    {
        let slot = self.find(key);
        if slot < self.keys.len() {
            Some(slot)
        } else {
            None
        }
    }

    /// Hands the registry out: returns a registry with the same plugins.
    /// Both are shared from now on.
    pub fn share(&mut self) -> (handle: Plugins)
        ensures
            final(self).shared,
            final(self).keys@ == old(self).keys@,
            handle.shared,
            handle.keys@ == old(self).keys@,
    {
        self.shared = true;
        let keys = crate::text::copy_range(self.keys.as_slice(), 0, self.keys.len());
        assert(keys@ =~= self.keys@);
        Plugins { keys, shared: true }
    }
}

} // verus!

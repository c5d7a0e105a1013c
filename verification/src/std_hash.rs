//! Hashed-unique-container backing store.
//!
//! Insertion records the inserted item itself as the undo memory; reversal
//! removes it by key through a hash lookup.

use vstd::prelude::*;

use crate::collection::SetCollection;
use crate::CollectionSet;
use core::hash::BuildHasher;
use core::hash::Hash;
use std::collections::HashSet;
use vstd::std_specs::hash::builds_valid_hashers;
use vstd::std_specs::hash::obeys_key_model;

verus! {

broadcast use vstd::std_specs::hash::group_hash_axioms;

/// Hash-container-based implementation of [`crate::StackedSet`]: flat,
/// near-constant membership cost independent of the set's size.
pub type StdHash<Item> = CollectionSet<HashSet<Item>>;

impl<Item: Copy + Eq + Hash, S: BuildHasher + Default> SetCollection for HashSet<Item, S> {
    type Item = Item;

    type ExtendMemory = Item;

    /// The container hashes items, so `Item`'s hash and equality must
    /// follow its logical value, and the hasher family must be
    /// deterministic per hasher.
    open spec fn valid() -> bool {
        &&& obeys_key_model::<Item>()
        &&& builds_valid_hashers::<S>()
    }

    open spec fn inv(&self) -> bool {
        true
    }

    open spec fn view_set(v: Set<Item>) -> Set<Item> {
        v
    }

    open spec fn undoes(m: Item, item: Item, before: Set<Item>, after: Set<Item>) -> bool {
        &&& m == item
        &&& !before.contains(item)
        &&& after == before.insert(item)
    }

    fn new() -> (r: Self) {
        HashSet::default()
    }

    fn extend(&mut self, new_item: Item) -> (m: Item) {
        self.insert(new_item);
        new_item
    }

    fn contains_ref(&self, item: &Item) -> (r: bool) {
        HashSet::contains(self, item)
    }

    fn contains(&self, item: &Item) -> (r: bool) {
        HashSet::contains(self, item)
    }

    fn remove(&mut self, present_item: Item) {
        HashSet::remove(self, &present_item);
        proof {
            assert forall|item: Item, before: Set<Item>|
                Self::undoes(present_item, item, before, old(self)@) implies self@ == before by {
                assert(self@ =~= before);
            }
        }
    }

    fn iterate(&self) -> (r: Vec<Item>) {
        let mut out: Vec<Item> = Vec::new();
        for x in it: self.iter()
            invariant
                obeys_key_model::<Item>(),
                builds_valid_hashers::<S>(),
                it.snapshot@ == vstd::std_specs::hash::spec_hash_keys_iter(self),
                out@.len() == it.index(),
                forall|k: int| 0 <= k < out@.len() ==> out@[k] == *it.seq()[k],
        {
            out.push(*x);
        }
        proof {
            assert(out@ =~= vstd::std_specs::iter::IteratorSpec::remaining(
                &vstd::std_specs::hash::spec_hash_keys_iter(self),
            ).unref());
            assert(out@.to_set() =~= self@);
            out@.lemma_no_dup_set_cardinality();
        }
        out
    }
}

} // verus!

//! Ordered-unique-container backing store.
//!
//! Insertion records the inserted item itself as the undo memory; reversal
//! removes it by key through an ordered lookup.

use vstd::prelude::*;

use crate::collection::SetCollection;
use crate::CollectionSet;
use std::collections::BTreeSet;
use vstd::laws_cmp::obeys_cmp;

verus! {

broadcast use vstd::std_specs::btree::group_btree_axioms;

/// Ordered-container-based implementation of [`crate::StackedSet`]:
/// logarithmic membership tests for mid-size and large sets.
pub type AllocTree<Item> = CollectionSet<BTreeSet<Item>>;

impl<Item: Copy + Ord> SetCollection for BTreeSet<Item> {
    type Item = Item;

    type ExtendMemory = Item;

    /// The container orders items with `cmp`, so the derived comparisons on
    /// `Item` must describe a total order that agrees with logical
    /// equality.
    open spec fn valid() -> bool {
        obeys_cmp::<Item>()
    }

    open spec fn inv(&self) -> bool {
        true
    }

    open spec fn view_set(v: Set<Item>) -> Set<Item> {
        v
    }

    open spec fn undoes(m: Item, item: Item, before: Set<Item>, after: Set<Item>) -> bool {
        &&& m == item
        &&& !before.contains(item)
        &&& after == before.insert(item)
    }

    fn new() -> (r: Self) {
        BTreeSet::new()
    }

    fn extend(&mut self, new_item: Item) -> (m: Item) {
        self.insert(new_item);
        new_item
    }

    fn contains_ref(&self, item: &Item) -> (r: bool) {
        BTreeSet::contains(self, item)
    }

    fn contains(&self, item: &Item) -> (r: bool) {
        BTreeSet::contains(self, item)
    }

    fn remove(&mut self, present_item: Item) {
        BTreeSet::remove(self, &present_item);
        proof {
            assert forall|item: Item, before: Set<Item>|
                Self::undoes(present_item, item, before, old(self)@) implies self@ == before by {
                assert(self@ =~= before);
            }
        }
    }

    fn iterate(&self) -> (r: Vec<Item>) {
        let mut out: Vec<Item> = Vec::new();
        for x in it: self.iter()
            invariant
                obeys_cmp::<Item>(),
                it.snapshot@ == vstd::std_specs::btree::spec_btree_keys_iter(self),
                out@.len() == it.index(),
                forall|k: int| 0 <= k < out@.len() ==> out@[k] == *it.seq()[k],
        {
            out.push(*x);
        }
        proof {
            assert(out@ =~= vstd::std_specs::iter::IteratorSpec::remaining(
                &vstd::std_specs::btree::spec_btree_keys_iter(self),
            ).unref());
            assert(out@.to_set() =~= self@);
            out@.lemma_no_dup_set_cardinality();
        }
        out
    }
}

} // verus!

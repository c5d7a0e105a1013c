//! Growable-sequence backing store.
//!
//! Insertion appends, so the undo memory is a unit value: reversal removes
//! the last element.  That is correct only because the scoped-set
//! discipline inserts and removes in last-in-first-out order, which the
//! [`SetCollection::undoes`] relation captures by recording the whole
//! sequence the insertion produced.

use vstd::prelude::*;

use crate::collection::SetCollection;
use crate::CollectionSet;
use vstd::laws_eq::obeys_concrete_eq;

verus! {

/// Growable-sequence-based implementation of [`crate::StackedSet`]: linear
/// membership scans with the best locality for small sets.
pub type AllocVec<Item> = CollectionSet<Vec<Item>>;

impl<Item: Copy + PartialEq> SetCollection for Vec<Item> {
    type Item = Item;

    type ExtendMemory = ();

    /// Membership scans compare items with `==`, so `==` on `Item` must
    /// agree with logical equality.
    open spec fn valid() -> bool {
        obeys_concrete_eq::<Item>()
    }

    /// The scoped-extend discipline only ever appends items that were
    /// absent, so the sequence stays free of duplicates.
    open spec fn inv(&self) -> bool {
        self@.no_duplicates()
    }

    open spec fn view_set(v: Seq<Item>) -> Set<Item> {
        v.to_set()
    }

    open spec fn undoes(m: (), item: Item, before: Seq<Item>, after: Seq<Item>) -> bool {
        after == before.push(item)
    }

    fn new() -> (r: Self) {
        let r: Vec<Item> = Vec::new();
        proof {
            assert(r@.to_set() =~= Set::<Item>::empty());
        }
        r
    }

    fn extend(&mut self, new_item: Item) -> (m: ()) {
        self.push(new_item);
        proof {
            let pre = old(self)@;
            assert(self@.to_set() =~= pre.to_set().insert(new_item)) by {
                assert forall|y: Item| self@.to_set().contains(y) implies pre.to_set().contains(y)
                    || y == new_item by {
                    let i = choose|i: int| 0 <= i < self@.len() && self@[i] == y;
                    if i < pre.len() {
                        assert(pre[i] == y);
                    }
                }
                assert forall|y: Item| pre.to_set().contains(y) implies self@.to_set().contains(
                    y,
                ) by {
                    let i = choose|i: int| 0 <= i < pre.len() && pre[i] == y;
                    assert(self@[i] == y);
                }
                assert(self@[pre.len() as int] == new_item);
            }
            assert forall|i: int, j: int|
                0 <= i < self@.len() && 0 <= j < self@.len() && i != j implies self@[i]
                != self@[j] by {
                if i < pre.len() && j < pre.len() {
                    assert(pre[i] != pre[j]);
                } else if j == pre.len() {
                    assert(pre.to_set().contains(pre[i]));
                } else {
                    assert(pre.to_set().contains(pre[j]));
                }
            }
        }
    }

    fn contains_ref(&self, item: &Item) -> (r: bool) {
        proof {
            reveal(vstd::laws_eq::obeys_concrete_eq);
        }
        let n = self.len();
        let mut i: usize = 0;
        while i < n
            invariant
                obeys_concrete_eq::<Item>(),
                n == self@.len(),
                0 <= i <= n,
                forall|j: int| 0 <= j < i ==> self@[j] != *item,
            decreases n - i,
        {
            proof {
                reveal(vstd::laws_eq::obeys_concrete_eq);
            }
            if self[i] == *item {
                assert(self@.to_set().contains(*item)) by {
                    assert(self@[i as int] == *item);
                }
                return true;
            }
            i += 1;
        }
        proof {
            if self@.to_set().contains(*item) {
                let j = choose|j: int| 0 <= j < self@.len() && self@[j] == *item;
                assert(false);
            }
        }
        false
    }

    fn contains(&self, item: &Item) -> (r: bool) {
        self.contains_ref(item)
    }

    fn remove(&mut self, present_item: ()) {
        proof {
            let (item, before): (Item, Seq<Item>) = choose|item: Item, before: Seq<Item>|
                Self::undoes((), item, before, old(self)@);
            assert(old(self)@.len() == before.len() + 1);
        }
        let _ = self.pop();
        proof {
            let pre = old(self)@;
            assert forall|item: Item, before: Seq<Item>|
                Self::undoes((), item, before, pre) implies self@ == before by {
                assert(before =~= pre.subrange(0, pre.len() - 1));
            }
            assert forall|i: int, j: int|
                0 <= i < self@.len() && 0 <= j < self@.len() && i != j implies self@[i]
                != self@[j] by {
                assert(pre[i] != pre[j]);
            }
        }
    }

    fn iterate(&self) -> (r: Vec<Item>) {
        let n = self.len();
        let mut out: Vec<Item> = Vec::new();
        let mut i: usize = 0;
        while i < n
            invariant
                n == self@.len(),
                0 <= i <= n,
                out@ == self@.subrange(0, i as int),
            decreases n - i,
        {
            out.push(self[i]);
            proof {
                assert(out@ =~= self@.subrange(0, i + 1));
            }
            i += 1;
        }
        proof {
            assert(out@ =~= self@);
        }
        out
    }
}

} // verus!

//! Chain-based scoped set: one owned node per scope, no shared store.
//!
//! Membership lives entirely in the chain of nodes.  Extending wraps the
//! current chain in a new node carrying the item; releasing unwraps it, so
//! no undo bookkeeping is ever needed.

use vstd::prelude::*;

use crate::StackedSet;
use vstd::laws_eq::obeys_concrete_eq;

verus! {

/// Cons-list-like implementation of [`StackedSet`].
///
/// Each `extend` or `fork` pushes one node onto the chain; `release` pops
/// it again.  An `extend` with an item that is already a member pushes a
/// node without a payload, exactly like `fork`, which keeps the chain free
/// of duplicate payloads and makes the matching `release` a no-op on the
/// membership.
#[derive(Debug)]
pub struct ConsSet<Item> {
    repr: ConsRepr<Item>,
}

// The representation is private so that the node structure stays hidden
// from the public interface.
#[derive(Debug)]
enum ConsRepr<Item> {
    Nil,
    Con { this: Option<Item>, tail: Box<ConsSet<Item>> },
}

impl<Item> ConsSet<Item> {
    /// Membership of the current scope: all payloads on the chain.
    pub closed spec fn members(&self) -> Set<Item>
        decreases self,
    {
        match self.repr {
            ConsRepr::Nil => Set::empty(),
            ConsRepr::Con { this, tail } => match this {
                Some(x) => tail.members().insert(x),
                None => tail.members(),
            },
        }
    }

    /// The member sets of every scope on the chain, root first.
    pub closed spec fn scope_stack(&self) -> Seq<Set<Item>>
        decreases self,
    {
        match self.repr {
            ConsRepr::Nil => seq![Set::<Item>::empty()],
            ConsRepr::Con { this, tail } => tail.scope_stack().push(self.members()),
        }
    }

    /// No payload occurs twice on the chain.
    pub closed spec fn no_duplicate_payloads(&self) -> bool
        decreases self,
    {
        match self.repr {
            ConsRepr::Nil => true,
            ConsRepr::Con { this, tail } => {
                &&& match this {
                    Some(x) => !tail.members().contains(x),
                    None => true,
                }
                &&& tail.no_duplicate_payloads()
            },
        }
    }

    /// The payloads on the chain, most recently added first.
    pub closed spec fn to_seq(&self) -> Seq<Item>
        decreases self,
    {
        match self.repr {
            ConsRepr::Nil => Seq::empty(),
            ConsRepr::Con { this, tail } => match this {
                Some(x) => seq![x] + tail.to_seq(),
                None => tail.to_seq(),
            },
        }
    }

    /// The chain always stands for at least the root scope.
    pub proof fn lemma_scope_stack_nonempty(&self)
        ensures
            self.scope_stack().len() >= 1,
            self.scope_stack().last() == self.members(),
        decreases self,
    {
        match self.repr {
            ConsRepr::Nil => {},
            ConsRepr::Con { this, tail } => tail.lemma_scope_stack_nonempty(),
        }
    }

    /// The payload sequence enumerates exactly the members, without
    /// repetition on a chain free of duplicate payloads.
    pub proof fn lemma_to_seq_members(&self)
        ensures
            self.to_seq().to_set() == self.members(),
            self.no_duplicate_payloads() ==> self.to_seq().no_duplicates(),
        decreases self,
    {
        match self.repr {
            ConsRepr::Nil => {
                assert(self.to_seq().to_set() =~= self.members());
            },
            ConsRepr::Con { this, tail } => {
                tail.lemma_to_seq_members();
                match this {
                    Some(x) => {
                        assert(self.to_seq().to_set() =~= tail.to_seq().to_set().insert(x)) by {
                            let s = self.to_seq();
                            assert forall|y: Item| s.to_set().contains(y) implies tail.to_seq().to_set().contains(y) || y == x by {
                                let i = choose|i: int| 0 <= i < s.len() && s[i] == y;
                                if i > 0 {
                                    assert(tail.to_seq()[i - 1] == y);
                                }
                            }
                            assert forall|y: Item| tail.to_seq().to_set().contains(y) implies s.to_set().contains(y) by {
                                let i = choose|i: int| 0 <= i < tail.to_seq().len() && tail.to_seq()[i] == y;
                                assert(s[i + 1] == y);
                            }
                            assert(s.to_set().contains(x)) by {
                                assert(s[0] == x);
                            }
                        }
                        if self.no_duplicate_payloads() {
                            let s = self.to_seq();
                            assert forall|i: int, j: int|
                                0 <= i < s.len() && 0 <= j < s.len() && i != j implies s[i] != s[j] by {
                                if i > 0 && j > 0 {
                                    assert(s[i] == tail.to_seq()[i - 1]);
                                    assert(s[j] == tail.to_seq()[j - 1]);
                                } else if i == 0 {
                                    assert(s[j] == tail.to_seq()[j - 1]);
                                    assert(tail.to_seq().to_set().contains(s[j]));
                                } else {
                                    assert(s[i] == tail.to_seq()[i - 1]);
                                    assert(tail.to_seq().to_set().contains(s[i]));
                                }
                            }
                        }
                    },
                    None => {},
                }
            },
        }
    }

    /// Returns an iterator over the members, most recently added first.
    pub fn iter(&self) -> (r: ConsIter<'_, Item>)
        ensures
            r.remaining() == self.to_seq(),
    {
        ConsIter { at: self }
    }
}

impl<Item: PartialEq> StackedSet for ConsSet<Item> {
    type Item = Item;

    /// The chain walks compare items with `==`, so `==` on `Item` must
    /// agree with logical equality.
    open spec fn valid() -> bool {
        obeys_concrete_eq::<Item>()
    }

    open spec fn wf(&self) -> bool {
        self.no_duplicate_payloads()
    }

    open spec fn scopes(&self) -> Seq<Set<Item>> {
        self.scope_stack()
    }

    proof fn wf_scopes_nonempty(&self) {
        self.lemma_scope_stack_nonempty();
    }

    fn empty() -> (r: Self) {
        ConsSet { repr: ConsRepr::Nil }
    }

    fn contains_ref(&self, item: &Item) -> (r: bool)
        decreases self,
    {
        proof {
            self.lemma_scope_stack_nonempty();
            reveal(vstd::laws_eq::obeys_concrete_eq);
        }
        match &self.repr {
            ConsRepr::Nil => false,
            ConsRepr::Con { this, tail } => {
                proof {
                    tail.lemma_scope_stack_nonempty();
                }
                match this {
                    Some(x) => {
                        if *x == *item {
                            true
                        } else {
                            tail.contains_ref(item)
                        }
                    },
                    None => tail.contains_ref(item),
                }
            },
        }
    }

    fn contains(&self, item: &Item) -> (r: bool) {
        self.contains_ref(item)
    }

    fn extend(self, new_item: Item) -> (r: Self) {
        proof {
            self.lemma_scope_stack_nonempty();
        }
        if self.contains_ref(&new_item) {
            proof {
                assert(self.members().insert(new_item) =~= self.members());
            }
            ConsSet { repr: ConsRepr::Con { this: None, tail: Box::new(self) } }
        } else {
            ConsSet { repr: ConsRepr::Con { this: Some(new_item), tail: Box::new(self) } }
        }
    }

    fn fork(self) -> (r: Self) {
        proof {
            self.lemma_scope_stack_nonempty();
        }
        ConsSet { repr: ConsRepr::Con { this: None, tail: Box::new(self) } }
    }

    fn release(self) -> (r: Self) {
        match self.repr {
            ConsRepr::Nil => {
                // Unreachable: the root scope has a stack of length one,
                // which the precondition excludes.
                proof {
                    assert(false);
                }
                ConsSet { repr: ConsRepr::Nil }
            },
            ConsRepr::Con { this, tail } => *tail,
        }
    }
}

/// Iterator over the payloads of a [`ConsSet`] chain, most recently added
/// first.  Nodes without a payload are skipped.
pub struct ConsIter<'l, Item> {
    at: &'l ConsSet<Item>,
}

impl<'l, Item> ConsIter<'l, Item> {
    /// The items this iterator has yet to yield.
    pub closed spec fn remaining(&self) -> Seq<Item> {
        self.at.to_seq()
    }

    /// Yields the next member, or `None` once the chain is exhausted.
    pub fn next(&mut self) -> (r: Option<&'l Item>)
        ensures
            old(self).remaining().len() == 0 ==> r is None && final(self).remaining()
                == old(self).remaining(),
            old(self).remaining().len() > 0 ==> (r matches Some(x) && *x == old(
                self,
            ).remaining()[0]) && final(self).remaining() == old(self).remaining().drop_first(),
    {
        loop
            invariant
                self.at.to_seq() == old(self).remaining(),
            decreases self.at,
        {
            let cur: &'l ConsSet<Item> = self.at;
            match &cur.repr {
                ConsRepr::Nil => {
                    return None;
                },
                ConsRepr::Con { this, tail } => {
                    match this {
                        Some(x) => {
                            self.at = &**tail;
                            proof {
                                assert(old(self).remaining().drop_first() =~= tail.to_seq());
                            }
                            return Some(x);
                        },
                        None => {
                            self.at = &**tail;
                        },
                    }
                },
            }
        }
    }
}

} // verus!

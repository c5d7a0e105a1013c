//! Scoped membership sets.
//!
//! A stacked set tracks which items are active on the current exploration
//! path of a recursive traversal.  Adding an item yields a new scope value
//! that contains it; releasing that scope restores the previous membership
//! without any explicit cleanup by the caller.  Several backends implement
//! the same observable contract: a zero-allocation chain of scope nodes
//! ([`ConsSet`]) and an adapter that drives any growable collection through
//! the same extend/undo discipline ([`CollectionSet`]).

use vstd::prelude::*;

mod alloc_tree;
mod alloc_vec;
mod collection;
mod cons;
mod laws;
mod std_hash;

pub use alloc_tree::AllocTree;
pub use alloc_vec::AllocVec;
pub use collection::CollectionSet;
pub use collection::SetCollection;
pub use cons::ConsIter;
pub use cons::ConsSet;
pub use laws::apply_scope_op;
pub use laws::lemma_backend_equivalence;
pub use laws::lemma_duplicate_extend_idempotent;
pub use laws::lemma_empty_contains_nothing;
pub use laws::lemma_extend_then_query;
pub use laws::lemma_fork_transparent;
pub use laws::lemma_release_restores_parent;
pub use laws::run_scope_ops;
pub use laws::run_scoped;
pub use laws::ScopeOp;
pub use std_hash::StdHash;

verus! {

/// Common trait for stacked set implementations.
///
/// A stacked set value stands for one scope on a path of nested scopes.
/// Its whole history is modelled by [`StackedSet::scopes`]: the sequence of
/// member sets from the root scope to the current one, whose last entry is
/// the current membership.  `extend` and `fork` consume the current scope
/// and hand back the child scope, so the parent is inaccessible while the
/// child is alive; `release` consumes the child and hands back a scope with
/// the parent's membership.
pub trait StackedSet: Sized {
    /// Item stored in the set.
    type Item;

    /// Conditions on the item type under which this implementation's
    /// contracts hold (an equality, ordering or hashing discipline).
    spec fn valid() -> bool;

    /// Internal well-formedness, established by `empty` and preserved by
    /// every operation.
    spec fn wf(&self) -> bool;

    /// The stack of member sets, one per live scope from the root to the
    /// current one.  The last entry is the current membership.
    spec fn scopes(&self) -> Seq<Set<Self::Item>>;

    /// A well-formed stacked set always has at least the root scope.
    proof fn wf_scopes_nonempty(&self)
        requires
            self.wf(),
        ensures
            self.scopes().len() >= 1,
    ;

    /// Creates an empty set: one root scope with no members.
    #[must_use]
    fn empty() -> (r: Self)
        requires
            Self::valid(),
        ensures
            r.wf(),
            r.scopes() == seq![Set::<Self::Item>::empty()],
    ;

    /// Checks if the element is present in the current scope's membership.
    #[must_use]
    fn contains_ref(&self, item: &Self::Item) -> (r: bool)
        requires
            Self::valid(),
            self.wf(),
        ensures
            r == self.scopes().last().contains(*item),
    ;

    /// Checks if the element is present in the current scope's membership.
    fn contains(&self, item: &Self::Item) -> (r: bool)
        requires
            Self::valid(),
            self.wf(),
        ensures
            r == self.scopes().last().contains(*item),
    ;

    /// Descends into a child scope whose membership additionally holds
    /// `new_item`.  The parent is consumed and recovered by `release`.
    #[must_use]
    fn extend(self, new_item: Self::Item) -> (r: Self)
        requires
            Self::valid(),
            self.wf(),
        ensures
            r.wf(),
            r.scopes() == self.scopes().push(self.scopes().last().insert(new_item)),
    ;

    /// Descends into a child scope with the membership unchanged.  Used to
    /// make a recursive call without adding a member while still respecting
    /// the one-live-scope discipline.
    #[must_use]
    fn fork(self) -> (r: Self)
        requires
            Self::valid(),
            self.wf(),
        ensures
            r.wf(),
            r.scopes() == self.scopes().push(self.scopes().last()),
    ;

    /// Ends the current scope, undoing the `extend` or `fork` that created
    /// it and restoring the parent scope's membership.  Releasing the root
    /// scope is a usage error and is excluded by precondition.
    #[must_use]
    fn release(self) -> (r: Self)
        requires
            Self::valid(),
            self.wf(),
            self.scopes().len() > 1,
        ensures
            r.wf(),
            r.scopes() == self.scopes().drop_last(),
    ;
}

} // verus!

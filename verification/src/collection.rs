//! Scoped set driven by a shared growable store.
//!
//! [`SetCollection`] is the minimal contract a backing store must satisfy:
//! create empty, insert with an undo token, membership test, and undo of
//! exactly one insertion.  [`CollectionSet`] wraps such a store behind the
//! [`StackedSet`] contract, translating extend/fork/release into
//! insert/no-op/undo against the store.

use vstd::prelude::*;

use crate::StackedSet;

verus! {

/// Kind of interface a collection should expose for a [`StackedSet`]
/// implementation to be built on top of it.
///
/// To get a [`StackedSet`] implementor, wrap the collection into
/// [`CollectionSet`].  The collection stays reachable through
/// [`CollectionSet::c_ref`] and [`CollectionSet::c_mut`].
pub trait SetCollection: View + Sized {
    /// Element type stored in the collection.
    type Item: Copy;

    /// A memory that can be used to remove an inserted item again.  Some
    /// implementations make this a unit type, when the item to remove is
    /// known through the collection's structure.
    type ExtendMemory;

    /// Conditions on the element type (an equality, ordering or hashing
    /// discipline) under which this store's contracts hold.
    spec fn valid() -> bool;

    /// Internal invariant of the store, established by `new` and preserved
    /// by `extend` and `remove`.
    spec fn inv(&self) -> bool;

    /// The membership that a store view represents.
    spec fn view_set(v: Self::V) -> Set<Self::Item>;

    /// What the memory `m`, handed out by an `extend` of `item` that turned
    /// a store with view `before` into one with view `after`, records; a
    /// later `remove(m)` on a store with view `after` restores `before`.
    spec fn undoes(m: Self::ExtendMemory, item: Self::Item, before: Self::V, after: Self::V) -> bool;

    /// Creates an empty collection.
    fn new() -> (r: Self)
        requires
            Self::valid(),
        ensures
            r.inv(),
            Self::view_set(r@) == Set::<Self::Item>::empty(),
    ;

    /// Extends the collection, creating an [`SetCollection::ExtendMemory`]
    /// instance to later remove the element.  The caller guarantees that
    /// the item is not yet present; [`CollectionSet`] checks membership
    /// before this call.
    fn extend(&mut self, new_item: Self::Item) -> (m: Self::ExtendMemory)
        requires
            Self::valid(),
            old(self).inv(),
            !Self::view_set(old(self)@).contains(new_item),
        ensures
            final(self).inv(),
            Self::view_set(final(self)@) == Self::view_set(old(self)@).insert(new_item),
            Self::undoes(m, new_item, old(self)@, final(self)@),
    ;

    /// Checks if the collection contains a certain element.
    fn contains_ref(&self, item: &Self::Item) -> (r: bool)
        requires
            Self::valid(),
            self.inv(),
        ensures
            r == Self::view_set(self@).contains(*item),
    ;

    /// Checks if the collection contains a certain element.
    fn contains(&self, item: &Self::Item) -> (r: bool)
        requires
            Self::valid(),
            self.inv(),
        ensures
            r == Self::view_set(self@).contains(*item),
    ;

    /// Removes the element recorded by the given
    /// [`SetCollection::ExtendMemory`] instance, restoring the view the
    /// store had before the insertion that produced it.
    fn remove(&mut self, present_item: Self::ExtendMemory)
        requires
            Self::valid(),
            old(self).inv(),
            exists|item: Self::Item, before: Self::V|
                Self::undoes(present_item, item, before, old(self)@),
        ensures
            final(self).inv(),
            forall|item: Self::Item, before: Self::V|
                Self::undoes(present_item, item, before, old(self)@) ==> final(self)@ == before,
    ;

    /// Lists the current elements, in backend-native order.
    fn iterate(&self) -> (r: Vec<Self::Item>)
        requires
            Self::valid(),
            self.inv(),
        ensures
            r@.to_set() == Self::view_set(self@),
            r@.no_duplicates(),
    ;
}

// One record per live descendant scope: `memory` holds the undo token when
// the scope's creation genuinely inserted an item, and `snap` is the view
// the store had just before that creation.
struct ScopeFrame<C: SetCollection> {
    memory: Option<C::ExtendMemory>,
    snap: Ghost<<C as View>::V>,
}

/// [`SetCollection`]-based implementation of [`StackedSet`].
///
/// The value owns the store together with one frame per live scope below
/// the root.  `extend` tests membership first: only when the item is new is
/// it inserted and an undo token recorded; `release` pops the newest frame
/// and, when it holds a token, undoes that one insertion, restoring the
/// store's previous contents.
pub struct CollectionSet<C: SetCollection> {
    store: C,
    frames: Vec<ScopeFrame<C>>,
}

impl<C: SetCollection> CollectionSet<C> {
    /// The wrapped collection, as a mathematical value.
    pub closed spec fn collection(&self) -> C {
        self.store
    }

    // The store view that frame `i`'s operation produced: the next frame's
    // snapshot, or the current store view for the newest frame.
    spec fn frame_after(&self, i: int) -> <C as View>::V {
        if i + 1 == self.frames@.len() {
            self.store@
        } else {
            self.frames@[i + 1].snap@
        }
    }

    // Frame `i` correctly records its scope's creation: a frame without a
    // token left the store untouched, and a frame with a token records an
    // insertion of a then-new item that the token can undo.
    spec fn frame_ok(&self, i: int) -> bool {
        let f = self.frames@[i];
        match f.memory {
            None => self.frame_after(i) == f.snap@,
            Some(m) => exists|item: C::Item|
                C::undoes(m, item, f.snap@, self.frame_after(i)) && !C::view_set(
                    f.snap@,
                ).contains(item),
        }
    }

    /// The store satisfies its invariant and every frame records its
    /// scope's creation faithfully.
    pub closed spec fn well_formed(&self) -> bool {
        &&& self.store.inv()
        &&& forall|i: int| 0 <= i < self.frames@.len() ==> self.frame_ok(i)
    }

    /// The member sets of every live scope, root first; the last entry is
    /// the current store contents.
    pub closed spec fn scope_views(&self) -> Seq<Set<C::Item>> {
        Seq::new(
            self.frames@.len() + 1,
            |i: int|
                if i < self.frames@.len() {
                    C::view_set(self.frames@[i].snap@)
                } else {
                    C::view_set(self.store@)
                },
        )
    }

    /// Shared access to the wrapped collection.
    pub fn c_ref(&self) -> (r: &C)
        ensures
            *r == self.collection(),
    {
        &self.store
    }

    /// Exclusive access to the wrapped collection.  Mutating the store can
    /// invalidate the scoped view; putting it back observably unchanged
    /// leaves the scoped set as it was.
    pub fn c_mut(&mut self) -> (r: &mut C)
        ensures
            *r == old(self).collection(),
            final(self).collection() == *final(r),
            *final(r) == old(self).collection() ==> *final(self) == *old(self),
    {
        &mut self.store
    }

    /// Lists the current members, in the store's native order.
    pub fn iter(&self) -> (r: Vec<C::Item>)
        requires
            C::valid(),
            self.well_formed(),
        ensures
            r@.to_set() == self.scope_views().last(),
            r@.no_duplicates(),
    {
        self.store.iterate()
    }
}

impl<C: SetCollection> StackedSet for CollectionSet<C> {
    type Item = C::Item;

    open spec fn valid() -> bool {
        C::valid()
    }

    open spec fn wf(&self) -> bool {
        self.well_formed()
    }

    open spec fn scopes(&self) -> Seq<Set<C::Item>> {
        self.scope_views()
    }

    proof fn wf_scopes_nonempty(&self) {
    }

    fn empty() -> (r: Self) {
        let r = CollectionSet { store: C::new(), frames: Vec::new() };
        proof {
            assert(r.scope_views() =~= seq![Set::<C::Item>::empty()]);
        }
        r
    }

    fn contains_ref(&self, item: &C::Item) -> (r: bool) {
        self.store.contains_ref(item)
    }

    fn contains(&self, item: &C::Item) -> (r: bool) {
        self.store.contains_ref(item)
    }

    fn extend(self, new_item: C::Item) -> (r: Self) {
        let mut s = self;
        let ghost pre = s;
        let ghost snap = s.store@;
        if s.store.contains_ref(&new_item) {
            s.frames.push(ScopeFrame { memory: None, snap: Ghost(snap) });
            proof {
                assert forall|i: int| 0 <= i < s.frames@.len() implies s.frame_ok(i) by {
                    if i < pre.frames@.len() {
                        assert(pre.frame_ok(i));
                        assert(s.frame_after(i) == pre.frame_after(i));
                    }
                }
                assert(pre.scope_views().last().insert(new_item) =~= pre.scope_views().last());
                assert(s.scope_views() =~= pre.scope_views().push(
                    pre.scope_views().last().insert(new_item),
                ));
            }
            s
        } else {
            let m = s.store.extend(new_item);
            s.frames.push(ScopeFrame { memory: Some(m), snap: Ghost(snap) });
            proof {
                assert forall|i: int| 0 <= i < s.frames@.len() implies s.frame_ok(i) by {
                    if i < pre.frames@.len() {
                        assert(pre.frame_ok(i));
                        assert(s.frame_after(i) == pre.frame_after(i));
                    } else {
                        assert(s.frames@[i].memory == Some(m));
                        assert(s.frame_after(i) == s.store@);
                        assert(C::undoes(m, new_item, s.frames@[i].snap@, s.frame_after(i)));
                        assert(!C::view_set(s.frames@[i].snap@).contains(new_item));
                    }
                }
                assert(s.scope_views() =~= pre.scope_views().push(
                    pre.scope_views().last().insert(new_item),
                ));
            }
            s
        }
    }

    fn fork(self) -> (r: Self) {
        let mut s = self;
        let ghost pre = s;
        let ghost snap = s.store@;
        s.frames.push(ScopeFrame { memory: None, snap: Ghost(snap) });
        proof {
            assert forall|i: int| 0 <= i < s.frames@.len() implies s.frame_ok(i) by {
                if i < pre.frames@.len() {
                    assert(pre.frame_ok(i));
                    assert(s.frame_after(i) == pre.frame_after(i));
                }
            }
            assert(s.scope_views() =~= pre.scope_views().push(pre.scope_views().last()));
        }
        s
    }

    fn release(self) -> (r: Self) {
        let mut s = self;
        let ghost pre = s;
        proof {
            assert(pre.frame_ok(pre.frames@.len() - 1));
        }
        let f = s.frames.pop().unwrap();
        match f.memory {
            None => {
                proof {
                    assert(s.store@ == f.snap@);
                    assert forall|i: int| 0 <= i < s.frames@.len() implies s.frame_ok(i) by {
                        assert(pre.frame_ok(i));
                        assert(s.frame_after(i) == pre.frame_after(i));
                    }
                    assert(s.scope_views() =~= pre.scope_views().drop_last());
                }
                s
            },
            Some(m) => {
                s.store.remove(m);
                proof {
                    assert(s.store@ == f.snap@);
                    assert forall|i: int| 0 <= i < s.frames@.len() implies s.frame_ok(i) by {
                        assert(pre.frame_ok(i));
                        assert(s.frame_after(i) == pre.frame_after(i));
                    }
                    assert(s.scope_views() =~= pre.scope_views().drop_last());
                }
                s
            },
        }
    }
}

} // verus!

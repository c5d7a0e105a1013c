//! Laws that every [`StackedSet`] backend obeys.
//!
//! Each operation's contract describes how it transforms the stack of
//! member sets ([`StackedSet::scopes`]); the lemmas here spell out the
//! observable guarantees that follow, and [`run_scoped`] shows that a fixed
//! sequence of operations drives every backend to the same stack.

use vstd::prelude::*;

use crate::StackedSet;

verus! {

/// An empty stacked set contains nothing: for every item `x`,
/// `empty().contains(x)` is false.
pub proof fn lemma_empty_contains_nothing<S: StackedSet>(s: S, x: S::Item)
    requires
        s.scopes() == seq![Set::<S::Item>::empty()],
    ensures
        !s.scopes().last().contains(x),
{
}

/// Extending with an item not yet present makes exactly that item a member:
/// the child scope contains `x`, and membership of every other item is what
/// it was in the parent scope.
pub proof fn lemma_extend_then_query<S: StackedSet>(s: S, child: S, x: S::Item, y: S::Item)
    requires
        !s.scopes().last().contains(x),
        child.scopes() == s.scopes().push(s.scopes().last().insert(x)),
    ensures
        child.scopes().last().contains(x),
        y != x ==> child.scopes().last().contains(y) == s.scopes().last().contains(y),
{
}

/// Releasing a scope created by `extend` restores the parent's membership
/// exactly: afterwards `x` is present precisely if it was present before
/// the extend.
pub proof fn lemma_release_restores_parent<S: StackedSet>(s: S, child: S, released: S, x: S::Item)
    requires
        child.scopes() == s.scopes().push(s.scopes().last().insert(x)),
        released.scopes() == child.scopes().drop_last(),
    ensures
        released.scopes() == s.scopes(),
        released.scopes().last().contains(x) == s.scopes().last().contains(x),
{
    assert(child.scopes().drop_last() =~= s.scopes());
}

/// Extending with an already-present item is idempotent under release:
/// after `extend(x)` twice and two releases, `x`'s presence is exactly what
/// it was before the first extend, and the inner release does not remove
/// the outer membership of `x`.
pub proof fn lemma_duplicate_extend_idempotent<S: StackedSet>(
    s: S,
    c1: S,
    c2: S,
    r2: S,
    r1: S,
    x: S::Item,
)
    requires
        c1.scopes() == s.scopes().push(s.scopes().last().insert(x)),
        c2.scopes() == c1.scopes().push(c1.scopes().last().insert(x)),
        r2.scopes() == c2.scopes().drop_last(),
        r1.scopes() == r2.scopes().drop_last(),
    ensures
        r2.scopes() == c1.scopes(),
        r2.scopes().last().contains(x),
        r1.scopes() == s.scopes(),
        r1.scopes().last().contains(x) == s.scopes().last().contains(x),
{
    assert(c2.scopes().drop_last() =~= c1.scopes());
    assert(c1.scopes().drop_last() =~= s.scopes());
}

/// A fork has exactly the parent's membership, and releasing it restores
/// the parent's stack unchanged.
pub proof fn lemma_fork_transparent<S: StackedSet>(s: S, child: S, released: S)
    requires
        child.scopes() == s.scopes().push(s.scopes().last()),
        released.scopes() == child.scopes().drop_last(),
    ensures
        child.scopes().last() == s.scopes().last(),
        released.scopes() == s.scopes(),
{
    assert(child.scopes().drop_last() =~= s.scopes());
}

/// One scope-descending operation: add an item, or descend without one.
#[derive(Clone, Copy, Debug, PartialEq, Eq)]
pub enum ScopeOp<Item> {
    Extend(Item),
    Fork,
}

/// How one operation transforms a stack of member sets.
pub open spec fn apply_scope_op<Item>(scopes: Seq<Set<Item>>, op: ScopeOp<Item>) -> Seq<
    Set<Item>,
> {
    match op {
        ScopeOp::Extend(x) => scopes.push(scopes.last().insert(x)),
        ScopeOp::Fork => scopes.push(scopes.last()),
    }
}

/// The stack of member sets after running a sequence of operations from an
/// empty set.
pub open spec fn run_scope_ops<Item>(ops: Seq<ScopeOp<Item>>) -> Seq<Set<Item>>
    decreases ops.len(),
{
    if ops.len() == 0 {
        seq![Set::<Item>::empty()]
    } else {
        apply_scope_op(run_scope_ops(ops.drop_last()), ops.last())
    }
}

/// Runs a fixed sequence of operations against a fresh set of any backend.
/// The resulting stack of member sets depends on the operations alone, so
/// every backend reports the same `contains` results at every depth.
pub fn run_scoped<S: StackedSet>(ops: &Vec<ScopeOp<S::Item>>) -> (r: S) where S::Item: Copy
    requires
        S::valid(),
    ensures
        r.wf(),
        r.scopes() == run_scope_ops(ops@),
{
    let mut s: S = S::empty();
    let n = ops.len();
    let mut i: usize = 0;
    proof {
        assert(ops@.subrange(0, 0) =~= Seq::<ScopeOp<S::Item>>::empty());
    }
    while i < n
        invariant
            S::valid(),
            n == ops@.len(),
            0 <= i <= n,
            s.wf(),
            s.scopes() == run_scope_ops(ops@.subrange(0, i as int)),
        decreases n - i,
    {
        proof {
            s.wf_scopes_nonempty();
            assert(ops@.subrange(0, i + 1).drop_last() =~= ops@.subrange(0, i as int));
            assert(ops@.subrange(0, i + 1).last() == ops@[i as int]);
        }
        match &ops[i] {
            ScopeOp::Extend(x) => {
                s = s.extend(*x);
            },
            ScopeOp::Fork => {
                s = s.fork();
            },
        }
        i += 1;
    }
    proof {
        assert(ops@.subrange(0, n as int) =~= ops@);
    }
    s
}

/// Backend equivalence: two stacked sets of possibly different backends
/// that ran the same operations have the same membership at every depth.
pub proof fn lemma_backend_equivalence<A: StackedSet, B: StackedSet<Item = A::Item>>(
    a: A,
    b: B,
    ops: Seq<ScopeOp<A::Item>>,
)
    requires
        a.scopes() == run_scope_ops(ops),
        b.scopes() == run_scope_ops(ops),
    ensures
        a.scopes() == b.scopes(),
        forall|d: int, x: A::Item|
            0 <= d < a.scopes().len() ==> a.scopes()[d].contains(x) == b.scopes()[d].contains(x),
{
}

} // verus!

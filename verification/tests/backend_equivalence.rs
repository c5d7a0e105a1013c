use stacked_set::AllocTree;
use stacked_set::AllocVec;
use stacked_set::ConsSet;
use stacked_set::ScopeOp;
use stacked_set::StackedSet;
use stacked_set::StdHash;
use stacked_set::run_scoped;

fn probe<S: StackedSet<Item = i32>>(s: &S) -> Vec<bool> {
    let mut answers = Vec::new();
    let mut x: i32 = -2;
    while x <= 12 {
        answers.push(s.contains(&x));
        x += 1;
    }
    answers
}

// The same operations drive every backend to the same membership, checked
// after every single step.
#[test]
fn backends_agree_step_by_step() {
    let ops = vec![
        ScopeOp::Extend(3),
        ScopeOp::Fork,
        ScopeOp::Extend(7),
        ScopeOp::Extend(3),
        ScopeOp::Extend(-1),
        ScopeOp::Fork,
        ScopeOp::Extend(12),
        ScopeOp::Extend(7),
    ];
    let mut cons = ConsSet::<i32>::empty();
    let mut vecs = AllocVec::<i32>::empty();
    let mut tree = AllocTree::<i32>::empty();
    let mut hash = StdHash::<i32>::empty();
    for op in &ops {
        match op {
            ScopeOp::Extend(x) => {
                cons = cons.extend(*x);
                vecs = vecs.extend(*x);
                tree = tree.extend(*x);
                hash = hash.extend(*x);
            },
            ScopeOp::Fork => {
                cons = cons.fork();
                vecs = vecs.fork();
                tree = tree.fork();
                hash = hash.fork();
            },
        }
        let expected = probe(&cons);
        assert_eq!(probe(&vecs), expected);
        assert_eq!(probe(&tree), expected);
        assert_eq!(probe(&hash), expected);
    }
    for _ in &ops {
        cons = cons.release();
        vecs = vecs.release();
        tree = tree.release();
        hash = hash.release();
        let expected = probe(&cons);
        assert_eq!(probe(&vecs), expected);
        assert_eq!(probe(&tree), expected);
        assert_eq!(probe(&hash), expected);
    }
}

#[test]
fn run_scoped_backends_agree() {
    let ops = vec![
        ScopeOp::Extend(1),
        ScopeOp::Extend(2),
        ScopeOp::Fork,
        ScopeOp::Extend(1),
        ScopeOp::Extend(5),
    ];
    let cons: ConsSet<i32> = run_scoped(&ops);
    let vecs: AllocVec<i32> = run_scoped(&ops);
    let tree: AllocTree<i32> = run_scoped(&ops);
    let hash: StdHash<i32> = run_scoped(&ops);
    let expected = probe(&cons);
    assert_eq!(probe(&vecs), expected);
    assert_eq!(probe(&tree), expected);
    assert_eq!(probe(&hash), expected);
    assert!(cons.contains(&1) && cons.contains(&2) && cons.contains(&5));
    assert!(!cons.contains(&3));
}

fn recurse_cons(set: ConsSet<i32>, val: i32) -> Vec<i32> {
    if val == 0 {
        let mut v = Vec::new();
        let mut it = set.iter();
        while let Some(x) = it.next() {
            v.push(*x);
        }
        v
    } else if val & 1 == 1 {
        recurse_cons(set.extend(val), val - 1)
    } else {
        recurse_cons(set.fork(), val - 1)
    }
}

fn recurse_vec(set: AllocVec<i32>, val: i32) -> Vec<i32> {
    if val == 0 {
        set.iter()
    } else if val & 1 == 1 {
        recurse_vec(set.extend(val), val - 1)
    } else {
        recurse_vec(set.fork(), val - 1)
    }
}

fn recurse_tree(set: AllocTree<i32>, val: i32) -> Vec<i32> {
    if val == 0 {
        set.iter()
    } else if val & 1 == 1 {
        recurse_tree(set.extend(val), val - 1)
    } else {
        recurse_tree(set.fork(), val - 1)
    }
}

fn recurse_hash(set: StdHash<i32>, val: i32) -> Vec<i32> {
    if val == 0 {
        set.iter()
    } else if val & 1 == 1 {
        recurse_hash(set.extend(val), val - 1)
    } else {
        recurse_hash(set.fork(), val - 1)
    }
}

fn odd_values_to_100() -> Vec<i32> {
    let mut v = Vec::new();
    let mut i: i32 = 1;
    while i <= 100 {
        if i & 1 == 1 {
            v.push(i);
        }
        i += 1;
    }
    v
}

#[test]
fn cons_odd_depth_recursion() {
    let mut collected = recurse_cons(ConsSet::empty(), 100);
    collected.sort_unstable();
    assert_eq!(collected, odd_values_to_100());
}

#[test]
fn vec_odd_depth_recursion() {
    let mut collected = recurse_vec(AllocVec::empty(), 100);
    collected.sort_unstable();
    assert_eq!(collected, odd_values_to_100());
}

#[test]
fn tree_odd_depth_recursion() {
    let mut collected = recurse_tree(AllocTree::empty(), 100);
    collected.sort_unstable();
    assert_eq!(collected, odd_values_to_100());
}

#[test]
fn hash_odd_depth_recursion() {
    let mut collected = recurse_hash(StdHash::empty(), 100);
    collected.sort_unstable();
    assert_eq!(collected, odd_values_to_100());
}

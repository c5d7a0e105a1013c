use stacked_set::AllocTree;
use stacked_set::AllocVec;
use stacked_set::ConsSet;
use stacked_set::StackedSet;
use stacked_set::StdHash;

#[test]
fn cons_empty_contains_nothing() {
    let s = ConsSet::<i32>::empty();
    assert!(!s.contains(&1));
    assert!(!s.contains(&2));
    assert!(!s.contains(&3));
}

#[test]
fn vec_empty_contains_nothing() {
    let s = AllocVec::<i32>::empty();
    assert!(!s.contains(&1));
    assert!(!s.contains(&2));
    assert!(!s.contains(&3));
}

#[test]
fn tree_empty_contains_nothing() {
    let s = AllocTree::<i32>::empty();
    assert!(!s.contains(&1));
    assert!(!s.contains(&2));
    assert!(!s.contains(&3));
}

#[test]
fn hash_empty_contains_nothing() {
    let s = StdHash::<i32>::empty();
    assert!(!s.contains(&1));
    assert!(!s.contains(&2));
    assert!(!s.contains(&3));
}

#[test]
fn cons_extend_then_query() {
    let s = ConsSet::<i32>::empty();
    let s = s.extend(5);
    let child = s.extend(1);
    assert!(child.contains(&1));
    assert!(child.contains(&5));
    assert!(!child.contains(&2));
}

#[test]
fn vec_extend_then_query() {
    let s = AllocVec::<i32>::empty();
    let s = s.extend(5);
    let child = s.extend(1);
    assert!(child.contains(&1));
    assert!(child.contains(&5));
    assert!(!child.contains(&2));
}

#[test]
fn cons_release_restores_parent() {
    let s = ConsSet::<i32>::empty();
    let child = s.extend(1);
    assert!(child.contains(&1));
    let s = child.release();
    assert!(!s.contains(&1));
    // And when the item was already present, it stays present.
    let s = s.extend(2);
    let child = s.extend(2);
    let s = child.release();
    assert!(s.contains(&2));
}

#[test]
fn vec_release_restores_parent() {
    let s = AllocVec::<i32>::empty();
    let child = s.extend(1);
    assert!(child.contains(&1));
    let s = child.release();
    assert!(!s.contains(&1));
    let s = s.extend(2);
    let child = s.extend(2);
    let s = child.release();
    assert!(s.contains(&2));
}

#[test]
fn tree_release_restores_parent() {
    let s = AllocTree::<i32>::empty();
    let child = s.extend(1);
    assert!(child.contains(&1));
    let s = child.release();
    assert!(!s.contains(&1));
    let s = s.extend(2);
    let child = s.extend(2);
    let s = child.release();
    assert!(s.contains(&2));
}

#[test]
fn hash_release_restores_parent() {
    let s = StdHash::<i32>::empty();
    let child = s.extend(1);
    assert!(child.contains(&1));
    let s = child.release();
    assert!(!s.contains(&1));
    let s = s.extend(2);
    let child = s.extend(2);
    let s = child.release();
    assert!(s.contains(&2));
}

#[test]
fn cons_duplicate_add_idempotent() {
    let s = ConsSet::<i32>::empty();
    let c1 = s.extend(7);
    let c2 = c1.extend(7);
    assert!(c2.contains(&7));
    let r2 = c2.release();
    assert!(r2.contains(&7));
    let r1 = r2.release();
    assert!(!r1.contains(&7));
}

#[test]
fn vec_duplicate_add_idempotent() {
    let s = AllocVec::<i32>::empty();
    let c1 = s.extend(7);
    let c2 = c1.extend(7);
    assert!(c2.contains(&7));
    let r2 = c2.release();
    assert!(r2.contains(&7));
    let r1 = r2.release();
    assert!(!r1.contains(&7));
}

#[test]
fn tree_duplicate_add_idempotent() {
    let s = AllocTree::<i32>::empty();
    let c1 = s.extend(7);
    let c2 = c1.extend(7);
    assert!(c2.contains(&7));
    let r2 = c2.release();
    assert!(r2.contains(&7));
    let r1 = r2.release();
    assert!(!r1.contains(&7));
}

#[test]
fn hash_duplicate_add_idempotent() {
    let s = StdHash::<i32>::empty();
    let c1 = s.extend(7);
    let c2 = c1.extend(7);
    assert!(c2.contains(&7));
    let r2 = c2.release();
    assert!(r2.contains(&7));
    let r1 = r2.release();
    assert!(!r1.contains(&7));
}

#[test]
fn cons_fork_transparent() {
    let s = ConsSet::<i32>::empty();
    let s = s.extend(3);
    let child = s.fork();
    assert!(child.contains(&3));
    assert!(!child.contains(&4));
    let s = child.release();
    assert!(s.contains(&3));
    assert!(!s.contains(&4));
}

#[test]
fn vec_fork_transparent() {
    let s = AllocVec::<i32>::empty();
    let s = s.extend(3);
    let child = s.fork();
    assert!(child.contains(&3));
    assert!(!child.contains(&4));
    let s = child.release();
    assert!(s.contains(&3));
    assert!(!s.contains(&4));
}

// Shallow scenario: single extends with releases in between, then a nest of
// three scopes whose middle one carries the item that the innermost
// duplicates.  Releasing the duplicate scope changes nothing; releasing the
// next scope removes exactly its own item.
fn shallow_scenario<S: StackedSet<Item = i32>>() {
    let s = S::empty();
    let s = s.extend(1);
    assert!(s.contains(&1));
    assert!(!s.contains(&2));
    let s = s.release();
    let s = s.extend(2);
    assert!(!s.contains(&1));
    assert!(s.contains(&2));
    let s = s.release();
    let s = s.extend(1);
    let s = s.extend(2);
    let s = s.extend(1);
    assert!(s.contains(&1));
    assert!(s.contains(&2));
    let s = s.release();
    assert!(s.contains(&1));
    assert!(s.contains(&2));
    let s = s.release();
    assert!(s.contains(&1));
    assert!(!s.contains(&2));
}

#[test]
fn cons_shallow_scenario() {
    shallow_scenario::<ConsSet<i32>>();
}

#[test]
fn vec_shallow_scenario() {
    shallow_scenario::<AllocVec<i32>>();
}

#[test]
fn tree_shallow_scenario() {
    shallow_scenario::<AllocTree<i32>>();
}

#[test]
fn hash_shallow_scenario() {
    shallow_scenario::<StdHash<i32>>();
}

#[test]
fn cons_iter_most_recent_first_no_duplicates() {
    let s = ConsSet::<i32>::empty();
    let s = s.extend(1);
    let s = s.extend(2);
    let s = s.fork();
    let s = s.extend(1);
    let mut collected: Vec<i32> = Vec::new();
    let mut it = s.iter();
    while let Some(x) = it.next() {
        collected.push(*x);
    }
    assert_eq!(collected, vec![2, 1]);
}

#[test]
fn cons_iter_empty() {
    let s = ConsSet::<i32>::empty();
    let mut it = s.iter();
    assert!(it.next().is_none());
    assert!(it.next().is_none());
}

#[test]
fn vec_iter_insertion_order() {
    let s = AllocVec::<i32>::empty();
    let s = s.extend(1);
    let s = s.extend(2);
    let s = s.extend(1);
    let s = s.extend(3);
    assert_eq!(s.iter(), vec![1, 2, 3]);
}

#[test]
fn tree_iter_members() {
    let s = AllocTree::<i32>::empty();
    let s = s.extend(3);
    let s = s.extend(1);
    let s = s.extend(2);
    let mut collected = s.iter();
    collected.sort_unstable();
    assert_eq!(collected, vec![1, 2, 3]);
}

#[test]
fn hash_iter_members() {
    let s = StdHash::<i32>::empty();
    let s = s.extend(3);
    let s = s.extend(1);
    let s = s.extend(3);
    let mut collected = s.iter();
    collected.sort_unstable();
    assert_eq!(collected, vec![1, 3]);
}

#[test]
fn collection_access_through_c_ref_and_c_mut() {
    let s = AllocVec::<i32>::empty();
    let mut s = s.extend(4);
    assert_eq!(s.c_ref().len(), 1);
    s.c_mut().push(9);
    assert_eq!(s.c_ref().len(), 2);
    assert!(s.contains(&9));
    let got = s.c_mut().pop();
    assert_eq!(got, Some(9));
    assert!(!s.contains(&9));
    assert!(s.contains(&4));
}

#[test]
fn vec_release_empties_store() {
    let s = AllocVec::<i32>::empty();
    let s = s.extend(1);
    let s = s.extend(2);
    let s = s.release();
    let s = s.release();
    assert_eq!(s.c_ref().len(), 0);
}

#[test]
fn tree_release_empties_store() {
    let s = AllocTree::<i32>::empty();
    let s = s.extend(1);
    let s = s.extend(2);
    let s = s.release();
    let s = s.release();
    assert_eq!(s.c_ref().len(), 0);
}

#[test]
fn hash_release_empties_store() {
    let s = StdHash::<i32>::empty();
    let s = s.extend(1);
    let s = s.extend(2);
    let s = s.release();
    let s = s.release();
    assert_eq!(s.c_ref().len(), 0);
}

#[test]
fn cons_owned_string_items() {
    let s = ConsSet::<String>::empty();
    let s = s.extend(String::from("alpha"));
    let s = s.extend(String::from("beta"));
    assert!(s.contains(&String::from("alpha")));
    assert!(s.contains(&String::from("beta")));
    assert!(!s.contains(&String::from("gamma")));
    let s = s.release();
    assert!(s.contains(&String::from("alpha")));
    assert!(!s.contains(&String::from("beta")));
}

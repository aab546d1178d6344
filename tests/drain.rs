use drain_bench::drain::btree_pop_first;
use drain_bench::drain::btree_pop_last;
use drain_bench::drain::btree_remove_next;
use drain_bench::drain::btree_take_first;
use drain_bench::drain::btree_take_next;
use drain_bench::drain::btree_take_next_back;
use drain_bench::drain::hash_remove_next;
use drain_bench::drain::hash_retain;
use drain_bench::drain::hash_take_next;
use drain_bench::drain::keep_after_first;
use std::collections::BTreeSet;
use std::collections::HashSet;

fn btree_of(v: &[i32]) -> BTreeSet<i32> {
    v.iter().copied().collect()
}

fn hash_of(v: &[i32]) -> HashSet<i32> {
    v.iter().copied().collect()
}

#[test]
fn btree_least_first_strategies() {
    for f in [btree_remove_next, btree_take_next, btree_take_first, btree_pop_first] {
        let mut s = btree_of(&[30, -4, 12]);
        assert_eq!(f(&mut s), Some(-4));
        assert_eq!(s, btree_of(&[30, 12]));
        assert_eq!(f(&mut s), Some(12));
        assert_eq!(f(&mut s), Some(30));
        assert_eq!(f(&mut s), None);
        assert!(s.is_empty());
    }
}

#[test]
fn btree_greatest_first_strategies() {
    for f in [btree_take_next_back, btree_pop_last] {
        let mut s = btree_of(&[30, -4, 12]);
        assert_eq!(f(&mut s), Some(30));
        assert_eq!(s, btree_of(&[-4, 12]));
        assert_eq!(f(&mut s), Some(12));
        assert_eq!(f(&mut s), Some(-4));
        assert_eq!(f(&mut s), None);
        assert!(s.is_empty());
    }
}

#[test]
fn hash_strategies_remove_one_member_each_time() {
    for f in [hash_remove_next, hash_take_next, hash_retain] {
        let mut s = hash_of(&[5, 6, 7, 8]);
        let mut seen = Vec::new();
        while let Some(x) = f(&mut s) {
            assert!(!s.contains(&x));
            assert_eq!(s.len() + seen.len() + 1, 4);
            seen.push(x);
        }
        seen.sort();
        assert_eq!(seen, vec![5, 6, 7, 8]);
        assert!(s.is_empty());
    }
}

#[test]
fn empty_sets_yield_nothing() {
    let mut b = BTreeSet::new();
    assert_eq!(btree_remove_next(&mut b), None);
    assert_eq!(btree_take_next_back(&mut b), None);
    assert_eq!(btree_pop_last(&mut b), None);
    let mut h = HashSet::new();
    assert_eq!(hash_retain(&mut h), None);
    assert_eq!(hash_take_next(&mut h), None);
    assert!(h.is_empty());
}

#[test]
fn retain_predicate_drops_only_the_first() {
    let mut caught = None;
    assert!(!keep_after_first(&mut caught, 4));
    assert_eq!(caught, Some(4));
    assert!(keep_after_first(&mut caught, 9));
    assert_eq!(caught, Some(4));
}

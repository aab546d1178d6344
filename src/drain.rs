use std::collections::BTreeSet;
use std::collections::HashSet;
use vstd::prelude::*;

verus! {

/// `x` is the smallest element of `set`.
pub open spec fn is_least(set: Set<i32>, x: i32) -> bool {
    set.contains(x) && forall|y: i32| set.contains(y) ==> x <= y
}

/// `x` is the largest element of `set`.
pub open spec fn is_greatest(set: Set<i32>, x: i32) -> bool {
    set.contains(x) && forall|y: i32| set.contains(y) ==> y <= x
}

/// What every extraction step guarantees: an empty set yields nothing and
/// stays as it is; otherwise exactly one member is removed and handed back.
pub open spec fn drained_one(before: Set<i32>, after: Set<i32>, r: Option<i32>) -> bool {
    match r {
        None => before == Set::<i32>::empty() && after == before,
        Some(x) => before.contains(x) && after == before.remove(x),
    }
}

/// Relies on `btree_set::Iter::next`: a `BTreeSet` iterates in ascending
/// order, so the first item is the least element, and there is none when the
/// set is empty.
#[verifier::external_body]
fn first_by_iter(s: &BTreeSet<i32>) -> (r: Option<i32>)
    ensures
        r is None <==> s@ == Set::<i32>::empty(),
        r matches Some(x) ==> is_least(s@, x),
{
    s.iter().next().copied()
}

/// Relies on `btree_set::Iter::next_back`: iterating from the back of a
/// `BTreeSet` starts at its greatest element, and yields none when the set
/// is empty.
#[verifier::external_body]
fn last_by_iter(s: &BTreeSet<i32>) -> (r: Option<i32>)
    ensures
        r is None <==> s@ == Set::<i32>::empty(),
        r matches Some(x) ==> is_greatest(s@, x),
{
    s.iter().next_back().copied()
}

/// Relies on `BTreeSet::first`: the minimum element, if any.
#[verifier::external_body]
fn btree_first(s: &BTreeSet<i32>) -> (r: Option<i32>)
    ensures
        r is None <==> s@ == Set::<i32>::empty(),
        r matches Some(x) ==> is_least(s@, x),
{
    s.first().copied()
}

/// Relies on `BTreeSet::take`: removes and returns the element equal to the
/// key, if the set holds one; otherwise leaves the set as it was.
#[verifier::external_body]
fn btree_take(s: &mut BTreeSet<i32>, k: i32) -> (r: Option<i32>)
    ensures
        old(s)@.contains(k) ==> r == Some(k) && final(s)@ == old(s)@.remove(k),
        !old(s)@.contains(k) ==> r is None && final(s)@ == old(s)@,
{
    s.take(&k)
}

/// Relies on `BTreeSet::pop_first`: removes and returns the minimum element,
/// or returns `None` on an empty set.
#[verifier::external_body]
fn btree_pop_min(s: &mut BTreeSet<i32>) -> (r: Option<i32>)
    ensures
        drained_one(old(s)@, final(s)@, r),
        r matches Some(x) ==> is_least(old(s)@, x),
{
    s.pop_first()
}

/// Relies on `BTreeSet::pop_last`: removes and returns the maximum element,
/// or returns `None` on an empty set.
#[verifier::external_body]
fn btree_pop_max(s: &mut BTreeSet<i32>) -> (r: Option<i32>)
    ensures
        drained_one(old(s)@, final(s)@, r),
        r matches Some(x) ==> is_greatest(old(s)@, x),
{
    s.pop_last()
}

/// Relies on `hash_set::Iter::next`: the first item visited is some member
/// of the set, and there is none when the set is empty.
#[verifier::external_body]
fn any_by_iter(s: &HashSet<i32>) -> (r: Option<i32>)
    ensures
        r is None <==> s@ == Set::<i32>::empty(),
        r matches Some(x) ==> s@.contains(x),
{
    s.iter().next().copied()
}

/// Relies on `HashSet::take`: removes and returns the element equal to the
/// key, if the set holds one; otherwise leaves the set as it was.
#[verifier::external_body]
fn hash_take(s: &mut HashSet<i32>, k: i32) -> (r: Option<i32>)
    ensures
        old(s)@.contains(k) ==> r == Some(k) && final(s)@ == old(s)@.remove(k),
        !old(s)@.contains(k) ==> r is None && final(s)@ == old(s)@,
{
    s.take(&k)
}

/// The predicate handed to `retain` by [`hash_retain`]: the first element
/// visited is caught in `caught` and dropped, every later one is kept.
pub fn keep_after_first(caught: &mut Option<i32>, elt: i32) -> (keep: bool)
    ensures
        *old(caught) is None ==> !keep && *final(caught) == Some(elt),
        *old(caught) is Some ==> keep && *final(caught) == *old(caught),
{
    match caught {
        None => {
            *caught = Some(elt);
            false
        },
        Some(_) => true,
    }
}

/// Relies on `HashSet::retain`: the predicate is called once on every
/// element, and exactly the elements it answers `false` for are removed.
/// With [`keep_after_first`] as the predicate, one element is removed and
/// returned, or none when the set is empty.
#[verifier::external_body]
fn retain_all_but_one(s: &mut HashSet<i32>) -> (r: Option<i32>)
    ensures
        drained_one(old(s)@, final(s)@, r),
{
    let mut caught: Option<i32> = None;
    s.retain(|elt| keep_after_first(&mut caught, *elt));
    caught
}

/// Finds the least element by iterating, then removes it by key.
pub fn btree_remove_next(s: &mut BTreeSet<i32>) -> (r: Option<i32>)
    ensures
        drained_one(old(s)@, final(s)@, r),
        r matches Some(x) ==> is_least(old(s)@, x),
{
    let elt = match first_by_iter(s) {
        Some(x) => x,
        None => return None,
    };
    s.remove(&elt);
    Some(elt)
}

/// Finds the least element by iterating, then takes it out.
pub fn btree_take_next(s: &mut BTreeSet<i32>) -> (r: Option<i32>)
    ensures
        drained_one(old(s)@, final(s)@, r),
        r matches Some(x) ==> is_least(old(s)@, x),
{
    let elt = match first_by_iter(s) {
        Some(x) => x,
        None => return None,
    };
    btree_take(s, elt)
}

/// Finds the greatest element by iterating from the back, then takes it out.
pub fn btree_take_next_back(s: &mut BTreeSet<i32>) -> (r: Option<i32>)
    ensures
        drained_one(old(s)@, final(s)@, r),
        r matches Some(x) ==> is_greatest(old(s)@, x),
{
    let elt = match last_by_iter(s) {
        Some(x) => x,
        None => return None,
    };
    btree_take(s, elt)
}

/// Asks the set for its first element, then takes it out.
pub fn btree_take_first(s: &mut BTreeSet<i32>) -> (r: Option<i32>)
    ensures
        drained_one(old(s)@, final(s)@, r),
        r matches Some(x) ==> is_least(old(s)@, x),
{
    match btree_first(s) {
        Some(e) => btree_take(s, e),
        None => None,
    }
}

/// Removes the least element in one call.
pub fn btree_pop_first(s: &mut BTreeSet<i32>) -> (r: Option<i32>)
    ensures
        drained_one(old(s)@, final(s)@, r),
        r matches Some(x) ==> is_least(old(s)@, x),
{
    btree_pop_min(s)
}

/// Removes the greatest element in one call.
pub fn btree_pop_last(s: &mut BTreeSet<i32>) -> (r: Option<i32>)
    ensures
        drained_one(old(s)@, final(s)@, r),
        r matches Some(x) ==> is_greatest(old(s)@, x),
{
    btree_pop_max(s)
}

/// Takes out whichever element iteration visits first.
pub fn hash_take_next(s: &mut HashSet<i32>) -> (r: Option<i32>)
    ensures
        drained_one(old(s)@, final(s)@, r),
{
    let elt = match any_by_iter(s) {
        Some(x) => x,
        None => return None,
    };
    hash_take(s, elt)
}

/// Removes whichever element iteration visits first, by key.
pub fn hash_remove_next(s: &mut HashSet<i32>) -> (r: Option<i32>)
    ensures
        drained_one(old(s)@, final(s)@, r),
{
    let elt = match any_by_iter(s) {
        Some(x) => x,
        None => return None,
    };
    s.remove(&elt);
    Some(elt)
}

/// Removes one element through a filtering pass over the whole set.
pub fn hash_retain(s: &mut HashSet<i32>) -> (r: Option<i32>)
    ensures
        drained_one(old(s)@, final(s)@, r),
{
    retain_all_but_one(s)
}

} // verus!

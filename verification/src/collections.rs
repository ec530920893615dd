//! The collections of other crates that the conversions keep their state in:
//! hash sets and hash maps with the Fx hasher, and small vectors.

use rustc_hash::{FxHashMap, FxHashSet};
use smallvec::SmallVec;
use vstd::prelude::*;

verus! {

/// The hasher of `rustc_hash`. Nothing is said of what is inside.
#[verifier::external_type_specification]
#[verifier::external_body]
pub struct ExFxHasher(rustc_hash::FxHasher);

/// The builder of hashers that `FxHashSet` and `FxHashMap` name. Nothing is
/// said of what is inside.
#[verifier::external_type_specification]
#[verifier::external_body]
#[verifier::reject_recursive_types(H)]
pub struct ExBuildHasherDefault<H>(core::hash::BuildHasherDefault<H>);

/// A vector of `smallvec` that holds counters. Nothing is said of what is
/// inside.
#[verifier::external_body]
pub struct Counters {
    inner: SmallVec<[usize; 1]>,
}

/// The positions that the set holds.
pub uninterp spec fn positions(set: FxHashSet<usize>) -> Set<usize>;

/// Calls `FxHashSet::default`: a set that holds nothing.
#[verifier::external_body]
pub(crate) fn positions_new() -> (r: FxHashSet<usize>)
    ensures
        positions(r) == Set::<usize>::empty(),
{
    FxHashSet::default()
}

/// Calls `HashSet::insert`: afterwards the set holds `node` besides what it
/// held before.
#[verifier::external_body]
pub(crate) fn positions_insert(set: &mut FxHashSet<usize>, node: usize)
    ensures
        positions(*final(set)) == positions(*old(set)).insert(node),
{
    set.insert(node);
}

/// Calls `HashSet::contains`: whether the set holds `node`.
#[verifier::external_body]
pub(crate) fn positions_contains(set: &FxHashSet<usize>, node: usize) -> (r: bool)
    ensures
        r == positions(*set).contains(node),
{
    set.contains(&node)
}

/// The keys that the map holds, each with its value.
pub uninterp spec fn offsets(map: FxHashMap<u32, u32>) -> Map<u32, u32>;

/// Calls `FxHashMap::default`: a map that holds nothing.
#[verifier::external_body]
pub(crate) fn offsets_new() -> (r: FxHashMap<u32, u32>)
    ensures
        offsets(r).dom() == Set::<u32>::empty(),
{
    FxHashMap::default()
}

/// Calls `HashMap::insert`: afterwards the map holds `value` for `key`, and
/// for every other key what it held before.
#[verifier::external_body]
pub(crate) fn offsets_insert(map: &mut FxHashMap<u32, u32>, key: u32, value: u32)
    ensures
        offsets(*final(map)) == offsets(*old(map)).insert(key, value),
{
    map.insert(key, value);
}

/// Calls `HashMap::get`: the value that the map holds for `key`, if it
/// holds one.
#[verifier::external_body]
pub(crate) fn offsets_get(map: &FxHashMap<u32, u32>, key: u32) -> (r: Option<u32>)
    ensures
        r == if offsets(*map).contains_key(key) {
            Some(offsets(*map)[key])
        } else {
            None::<u32>
        },
{
    map.get(&key).copied()
}

/// The numbers that the vector holds, first to last.
pub uninterp spec fn counters(v: Counters) -> Seq<usize>;

/// Calls `SmallVec::new`: a vector that holds nothing.
#[verifier::external_body]
pub(crate) fn counters_new() -> (r: Counters)
    ensures
        counters(r) == Seq::<usize>::empty(),
{
    Counters { inner: SmallVec::new() }
}

/// Calls `SmallVec::push`: afterwards `value` stands behind what the
/// vector held before.
#[verifier::external_body]
pub(crate) fn counters_push(v: &mut Counters, value: usize)
    ensures
        counters(*final(v)) == counters(*old(v)).push(value),
{
    v.inner.push(value);
}

/// Calls `SmallVec::pop`: takes the last number off and returns it; an
/// empty vector stays as it is and nothing is returned.
#[verifier::external_body]
pub(crate) fn counters_pop(v: &mut Counters) -> (r: Option<usize>)
    ensures
        counters(*old(v)).len() > 0 ==> r == Some(counters(*old(v)).last()) && counters(
            *final(v),
        ) == counters(*old(v)).drop_last(),
        counters(*old(v)).len() == 0 ==> r.is_none() && counters(*final(v)) == counters(*old(v)),
{
    v.inner.pop()
}

/// Calls `SmallVec::len`: how many numbers the vector holds.
#[verifier::external_body]
pub(crate) fn counters_len(v: &Counters) -> (r: usize)
    ensures
        r == counters(*v).len(),
{
    v.inner.len()
}

} // verus!

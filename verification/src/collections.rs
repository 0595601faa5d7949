//! Soroban's host-backed `Vec<u32>`, `Vec<u64>` and `Map<u32, u32>`, each seen
//! through a name for what it holds.
use soroban_sdk::Env;
use vstd::prelude::*;

verus! {

/// Soroban's host-backed vector.
#[verifier::external_type_specification]
#[verifier::external_body]
#[verifier::reject_recursive_types(T)]
pub struct ExSorobanVec<T>(soroban_sdk::Vec<T>);

/// Soroban's host-backed map, ordered by key.
#[verifier::external_type_specification]
#[verifier::external_body]
#[verifier::reject_recursive_types(K)]
#[verifier::reject_recursive_types(V)]
pub struct ExSorobanMap<K, V>(soroban_sdk::Map<K, V>);

/// The items of a Soroban vector of `u32`, in order.
pub uninterp spec fn u32_items(v: soroban_sdk::Vec<u32>) -> Seq<u32>;

/// The items of a Soroban vector of `u64`, in order.
pub uninterp spec fn u64_items(v: soroban_sdk::Vec<u64>) -> Seq<u64>;

/// The entries of a Soroban map from `u32` to `u32`.
pub uninterp spec fn u32_map_entries(m: soroban_sdk::Map<u32, u32>) -> Map<u32, u32>;

/// Whether every item of a Soroban vector of `u32` is a `u32` value on the
/// host; a vector made from an arbitrary host value need not be.
pub uninterp spec fn u32_vec_typed(v: soroban_sdk::Vec<u32>) -> bool;

/// Whether every key and every value of a Soroban map from `u32` to `u32`
/// is a `u32` value on the host.
pub uninterp spec fn u32_map_typed(m: soroban_sdk::Map<u32, u32>) -> bool;

/// `Vec::<u32>::new`: an empty vector.
#[verifier::external_body]
pub(crate) fn u32_vec_new(env: &Env) -> (res: soroban_sdk::Vec<u32>)
    ensures
        u32_items(res) == Seq::<u32>::empty(),
        u32_vec_typed(res),
{
    soroban_sdk::Vec::new(env)
}

/// `Vec::<u32>::len`: the number of items.
#[verifier::external_body]
pub(crate) fn u32_vec_len(v: &soroban_sdk::Vec<u32>) -> (res: u32)
    ensures
        res == u32_items(*v).len(),
{
    v.len()
}

/// `Vec::<u32>::get`: the item at `i`, or `None` when `i` is out of bounds.
/// It panics when the item is not a `u32`, which `requires` leaves out.
#[verifier::external_body]
pub(crate) fn u32_vec_get(v: &soroban_sdk::Vec<u32>, i: u32) -> (res: Option<u32>)
    requires
        u32_vec_typed(*v),
    ensures
        i < u32_items(*v).len() ==> res == Some(u32_items(*v)[i as int]),
        i >= u32_items(*v).len() ==> res is None,
{
    v.get(i)
}

/// `Vec::<u32>::push_back`: appends `x`. Not stated: the host refuses a
/// vector longer than `u32::MAX` items, which `requires` leaves out.
#[verifier::external_body]
pub(crate) fn u32_vec_push(v: &mut soroban_sdk::Vec<u32>, x: u32)
    requires
        u32_items(*old(v)).len() < u32::MAX,
    ensures
        u32_items(*final(v)) == u32_items(*old(v)).push(x),
        u32_vec_typed(*final(v)) == u32_vec_typed(*old(v)),
{
    v.push_back(x)
}

/// `Vec::<u32>::clone`: a handle to the same items.
#[verifier::external_body]
pub(crate) fn u32_vec_clone(v: &soroban_sdk::Vec<u32>) -> (res: soroban_sdk::Vec<u32>)
    ensures
        u32_items(res) == u32_items(*v),
        u32_vec_typed(res) == u32_vec_typed(*v),
{
    v.clone()
}

/// `Vec::<u64>::new`: an empty vector.
#[verifier::external_body]
pub(crate) fn u64_vec_new(env: &Env) -> (res: soroban_sdk::Vec<u64>)
    ensures
        u64_items(res) == Seq::<u64>::empty(),
{
    soroban_sdk::Vec::new(env)
}

/// `Vec::<u64>::push_back`: appends `x`. Not stated: the host refuses a
/// vector longer than `u32::MAX` items, which `requires` leaves out.
#[verifier::external_body]
pub(crate) fn u64_vec_push(v: &mut soroban_sdk::Vec<u64>, x: u64)
    requires
        u64_items(*old(v)).len() < u32::MAX,
    ensures
        u64_items(*final(v)) == u64_items(*old(v)).push(x),
{
    v.push_back(x)
}

/// `Map::<u32, u32>::new`: an empty map.
#[verifier::external_body]
pub(crate) fn u32_map_new(env: &Env) -> (res: soroban_sdk::Map<u32, u32>)
    ensures
        u32_map_entries(res).dom() == Set::<u32>::empty(),
        u32_map_typed(res),
{
    soroban_sdk::Map::new(env)
}

/// `Map::<u32, u32>::get`: the value under `k`, or `None` when `k` is absent.
/// It panics when the value is not a `u32`, which `requires` leaves out.
#[verifier::external_body]
pub(crate) fn u32_map_get(m: &soroban_sdk::Map<u32, u32>, k: u32) -> (res: Option<u32>)
    requires
        u32_map_typed(*m),
    ensures
        u32_map_entries(*m).contains_key(k) ==> res == Some(u32_map_entries(*m)[k]),
        !u32_map_entries(*m).contains_key(k) ==> res is None,
{
    m.get(k)
}

/// `Map::<u32, u32>::set`: puts `v` under `k`, replacing what was there.
#[verifier::external_body]
pub(crate) fn u32_map_set(m: &mut soroban_sdk::Map<u32, u32>, k: u32, v: u32)
    ensures
        u32_map_entries(*final(m)) == u32_map_entries(*old(m)).insert(k, v),
        u32_map_typed(*old(m)) ==> u32_map_typed(*final(m)),
{
    m.set(k, v)
}

/// `Map::<u32, u32>::keys`: the keys, in increasing order; they are `u32`
/// values when the map's keys are.
#[verifier::external_body]
pub(crate) fn u32_map_keys(m: &soroban_sdk::Map<u32, u32>) -> (res: soroban_sdk::Vec<u32>)
    ensures
        u32_map_typed(*m) ==> u32_vec_typed(res),
        u32_map_typed(*m) ==> forall|i: int, j: int|
            0 <= i < j < u32_items(res).len() ==> u32_items(res)[i] < u32_items(res)[j],
        u32_map_typed(*m) ==> forall|k: u32|
            u32_map_entries(*m).contains_key(k) <==> u32_items(res).contains(k),
{
    m.keys()
}

/// `Map::<u32, u32>::clone`: a handle to the same entries.
#[verifier::external_body]
pub(crate) fn u32_map_clone(m: &soroban_sdk::Map<u32, u32>) -> (res: soroban_sdk::Map<u32, u32>)
    ensures
        u32_map_entries(res) == u32_map_entries(*m),
        u32_map_typed(res) == u32_map_typed(*m),
{
    m.clone()
}

} // verus!

//! Typed reads and writes of single storage entries: integers, flags,
//! markers and addresses kept under a key.
use crate::codec::{
    bool_bytes, bool_field, dec_bool, dec_u32, dec_u64, decode_bool, decode_u32, decode_u64,
    u32_bytes, u32_field, u64_bytes, u64_field,
};
use crate::ledger::{
    instance_entries, instance_get, instance_set, persistent_entries, persistent_get,
    persistent_set,
};
use crate::keys::{plain_key, SlotKey};
use crate::types::Address;
use soroban_sdk::Env;
use vstd::prelude::*;

verus! {


/// The `u32` kept under `k`, if the entry is there and holds one.
pub open spec fn stored_u32(e: Map<Seq<u8>, Seq<u8>>, k: Seq<u8>) -> Option<u32> {
    if e.contains_key(k) {
        dec_u32(e[k])
    } else {
        None
    }
}

/// The `u64` kept under `k`, if the entry is there and holds one.
pub open spec fn stored_u64(e: Map<Seq<u8>, Seq<u8>>, k: Seq<u8>) -> Option<u64> {
    if e.contains_key(k) {
        dec_u64(e[k])
    } else {
        None
    }
}

/// The flag kept under `k`, if the entry is there and holds one.
pub open spec fn stored_bool(e: Map<Seq<u8>, Seq<u8>>, k: Seq<u8>) -> Option<bool> {
    if e.contains_key(k) {
        dec_bool(e[k])
    } else {
        None
    }
}

/// The address kept under `k`, if the entry is there.
pub open spec fn stored_address(e: Map<Seq<u8>, Seq<u8>>, k: Seq<u8>) -> Option<Seq<u8>> {
    if e.contains_key(k) {
        Some(e[k])
    } else {
        None
    }
}

pub open spec fn u32_or_zero(o: Option<u32>) -> u32 {
    match o {
        Some(v) => v,
        None => 0,
    }
}

pub open spec fn u64_or_zero(o: Option<u64>) -> u64 {
    match o {
        Some(v) => v,
        None => 0,
    }
}

pub open spec fn bool_or_false(o: Option<bool>) -> bool {
    match o {
        Some(v) => v,
        None => false,
    }
}

/// The bytes of a marker entry, which holds nothing.
pub open spec fn marker() -> Seq<u8> {
    Seq::empty()
}

pub fn persistent_u32(env: &Env, key: &[u8]) -> (res: Option<u32>)
    requires
        plain_key(key@),
    ensures
        res == stored_u32(persistent_entries(*env), key@),
{
    match persistent_get(env, key) {
        Some(b) => decode_u32(b.as_slice()),
        None => None,
    }
}

pub fn persistent_u64(env: &Env, key: &[u8]) -> (res: Option<u64>)
    requires
        plain_key(key@),
    ensures
        res == stored_u64(persistent_entries(*env), key@),
{
    match persistent_get(env, key) {
        Some(b) => decode_u64(b.as_slice()),
        None => None,
    }
}

pub fn persistent_bool(env: &Env, key: &[u8]) -> (res: Option<bool>)
    requires
        plain_key(key@),
    ensures
        res == stored_bool(persistent_entries(*env), key@),
{
    match persistent_get(env, key) {
        Some(b) => decode_bool(b.as_slice()),
        None => None,
    }
}

pub fn persistent_has(env: &Env, key: &[u8]) -> (res: bool)
    requires
        plain_key(key@),
    ensures
        res == persistent_entries(*env).contains_key(key@),
{
    persistent_get(env, key).is_some()
}

pub fn instance_address(env: &Env, key: &[u8]) -> (res: Option<Address>)
    requires
        plain_key(key@),
    ensures
        match res {
            Some(a) => stored_address(instance_entries(*env), key@) == Some(a@),
            None => stored_address(instance_entries(*env), key@) is None,
        },
{
    match instance_get(env, key) {
        Some(b) => Some(Address::new(b)),
        None => None,
    }
}

pub fn persistent_address(env: &Env, key: &[u8]) -> (res: Option<Address>)
    requires
        plain_key(key@),
    ensures
        match res {
            Some(a) => stored_address(persistent_entries(*env), key@) == Some(a@),
            None => stored_address(persistent_entries(*env), key@) is None,
        },
{
    match persistent_get(env, key) {
        Some(b) => Some(Address::new(b)),
        None => None,
    }
}

pub fn set_persistent_u32(env: &mut Env, key: &[u8], v: u32)
    requires
        plain_key(key@),
    ensures
        persistent_entries(*final(env)) == persistent_entries(*old(env)).insert(key@, u32_bytes(v)),
        instance_entries(*final(env)) == instance_entries(*old(env)),
        stored_u32(persistent_entries(*final(env)), key@) == Some(v),
{
    proof {
        crate::codec::lemma_u32_roundtrip(v);
    }
    let b = u32_field(v);
    persistent_set(env, key, b.as_slice());
}

pub fn set_persistent_u64(env: &mut Env, key: &[u8], v: u64)
    requires
        plain_key(key@),
    ensures
        persistent_entries(*final(env)) == persistent_entries(*old(env)).insert(key@, u64_bytes(v)),
        instance_entries(*final(env)) == instance_entries(*old(env)),
        stored_u64(persistent_entries(*final(env)), key@) == Some(v),
{
    proof {
        crate::codec::lemma_u64_roundtrip(v);
    }
    let b = u64_field(v);
    persistent_set(env, key, b.as_slice());
}

pub fn set_persistent_bool(env: &mut Env, key: &[u8], v: bool)
    requires
        plain_key(key@),
    ensures
        persistent_entries(*final(env)) == persistent_entries(*old(env)).insert(key@, bool_bytes(v)),
        instance_entries(*final(env)) == instance_entries(*old(env)),
        stored_bool(persistent_entries(*final(env)), key@) == Some(v),
{
    proof {
        crate::codec::lemma_bool_roundtrip(v);
    }
    let b = bool_field(v);
    persistent_set(env, key, b.as_slice());
}

pub fn set_persistent_marker(env: &mut Env, key: &[u8])
    requires
        plain_key(key@),
    ensures
        persistent_entries(*final(env)) == persistent_entries(*old(env)).insert(key@, marker()),
        instance_entries(*final(env)) == instance_entries(*old(env)),
{
    let b: Vec<u8> = Vec::new();
    assert(b@ =~= marker());
    persistent_set(env, key, b.as_slice());
}

pub fn set_instance_address(env: &mut Env, key: &[u8], a: &Address)
    requires
        plain_key(key@),
    ensures
        instance_entries(*final(env)) == instance_entries(*old(env)).insert(key@, a@),
        persistent_entries(*final(env)) == persistent_entries(*old(env)),
{
    instance_set(env, key, a.strkey.as_slice());
}

pub fn set_persistent_address(env: &mut Env, key: &[u8], a: &Address)
    requires
        plain_key(key@),
    ensures
        persistent_entries(*final(env)) == persistent_entries(*old(env)).insert(key@, a@),
        instance_entries(*final(env)) == instance_entries(*old(env)),
{
    persistent_set(env, key, a.strkey.as_slice());
}

/// Writes a `u32` under a scalar key of instance storage.
pub fn set_instance_slot_u32(env: &mut Env, key: &SlotKey, v: u32)
    requires
        key.valid(),
    ensures
        instance_entries(*final(env)) == instance_entries(*old(env)).insert(key@, u32_bytes(v)),
        persistent_entries(*final(env)) == persistent_entries(*old(env)),
        stored_u32(instance_entries(*final(env)), key@) == Some(v),
{
    proof {
        crate::codec::lemma_u32_roundtrip(v);
    }
    crate::ledger::instance_slot_set_u32(env, key, v);
}

/// Writes a `u64` under a scalar key of instance storage.
pub fn set_instance_slot_u64(env: &mut Env, key: &SlotKey, v: u64)
    requires
        key.valid(),
    ensures
        instance_entries(*final(env)) == instance_entries(*old(env)).insert(key@, u64_bytes(v)),
        persistent_entries(*final(env)) == persistent_entries(*old(env)),
        stored_u64(instance_entries(*final(env)), key@) == Some(v),
{
    proof {
        crate::codec::lemma_u64_roundtrip(v);
    }
    crate::ledger::instance_slot_set_u64(env, key, v);
}

/// Writes a `u32` under a scalar key of persistent storage.
pub fn set_persistent_slot_u32(env: &mut Env, key: &SlotKey, v: u32)
    requires
        key.valid(),
    ensures
        persistent_entries(*final(env)) == persistent_entries(*old(env)).insert(key@, u32_bytes(v)),
        instance_entries(*final(env)) == instance_entries(*old(env)),
        stored_u32(persistent_entries(*final(env)), key@) == Some(v),
{
    proof {
        crate::codec::lemma_u32_roundtrip(v);
    }
    crate::ledger::persistent_slot_set_u32(env, key, v);
}

/// Writes a `u64` under a scalar key of persistent storage.
pub fn set_persistent_slot_u64(env: &mut Env, key: &SlotKey, v: u64)
    requires
        key.valid(),
    ensures
        persistent_entries(*final(env)) == persistent_entries(*old(env)).insert(key@, u64_bytes(v)),
        instance_entries(*final(env)) == instance_entries(*old(env)),
        stored_u64(persistent_entries(*final(env)), key@) == Some(v),
{
    proof {
        crate::codec::lemma_u64_roundtrip(v);
    }
    crate::ledger::persistent_slot_set_u64(env, key, v);
}

/// Writes a `bool` under a scalar key of persistent storage.
pub fn set_persistent_slot_bool(env: &mut Env, key: &SlotKey, v: bool)
    requires
        key.valid(),
    ensures
        persistent_entries(*final(env)) == persistent_entries(*old(env)).insert(key@, bool_bytes(v)),
        instance_entries(*final(env)) == instance_entries(*old(env)),
        stored_bool(persistent_entries(*final(env)), key@) == Some(v),
{
    proof {
        crate::codec::lemma_bool_roundtrip(v);
    }
    crate::ledger::persistent_slot_set_bool(env, key, v);
}

} // verus!

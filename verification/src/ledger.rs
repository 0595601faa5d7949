//! The contract storage of a Soroban environment, seen as two maps from byte
//! strings to byte strings: the instance storage and the persistent storage.
use crate::codec::{bool_bytes, dec_bool, dec_u32, dec_u64, u32_bytes, u64_bytes};
use crate::keys::{plain_key, SlotKey};
use soroban_sdk::Address as HostAddress;
use soroban_sdk::{Bytes, Env, IntoVal, Symbol, TryFromVal, Val};
use vstd::prelude::*;

verus! {

/// The Soroban environment handle through which a contract reaches its ledger
/// storage.
#[verifier::external_type_specification]
#[verifier::external_body]
pub struct ExEnv(Env);

/// An account or contract address as the host holds it.
#[verifier::external_type_specification]
#[verifier::external_body]
pub struct ExHostAddress(HostAddress);

/// A value as the host holds it.
#[verifier::external_type_specification]
#[verifier::external_body]
pub struct ExVal(Val);

/// The entries of the running contract's instance storage that this library
/// reads and writes, each written as a pair of byte strings:
/// - an entry whose key and value are both `Bytes` and whose key begins with
///   the byte 0 is written as itself;
/// - an entry whose key is a symbol, or a tuple of a symbol and `u64` and
///   `u32` numbers, is written under `slot_key` of the symbol's text and the
///   big-endian bytes of the numbers; its value as the big-endian bytes of a
///   `u32` or a `u64`, one byte 0 or 1 for a `bool`, no byte for `()`, and
///   two zero bytes for any other value.
/// No other entry is in the map.
///
/// Every clone of an `Env` reaches the same storage, while this name is a
/// function of the one `Env` value it is given. It describes the storage
/// faithfully because no function of this library holds two handles to the
/// environment at once: each takes a single `&Env` or `&mut Env`, and every
/// write goes through the `&mut Env` it was given.
pub uninterp spec fn instance_entries(env: Env) -> Map<Seq<u8>, Seq<u8>>;

/// The entries of the running contract's persistent storage that this
/// library reads and writes, written as `instance_entries` writes those of
/// the instance storage, and shared among clones of an `Env` as those are.
pub uninterp spec fn persistent_entries(env: Env) -> Map<Seq<u8>, Seq<u8>>;

/// Reads `key` from instance storage with `Instance::get`, converting the
/// stored value with `Bytes::try_from_val`; the key is a byte string that
/// begins with the byte 0, as the library's byte-string keys do. The result is the byte string
/// stored under the key, or `None` when nothing is stored there or what is
/// stored is not a byte string. Not stated: the call panics when made outside
/// a contract's context or when the host's budget runs out.
#[verifier::external_body]
pub(crate) fn instance_get(env: &Env, key: &[u8]) -> (res: Option<Vec<u8>>)
    requires
        plain_key(key@),
    ensures
        match res {
            Some(v) => instance_entries(*env).contains_key(key@) && v@ == instance_entries(
                *env,
            )[key@],
            None => !instance_entries(*env).contains_key(key@),
        },
{
    let k = Bytes::from_slice(env, key);
    match env.storage().instance().get::<Bytes, Val>(&k) {
        Some(v) => match Bytes::try_from_val(env, &v) {
            Ok(b) => {
                let mut out = vec![0u8; b.len() as usize];
                b.copy_into_slice(&mut out);
                Some(out)
            },
            Err(_) => None,
        },
        None => None,
    }
}

/// Writes `value` under `key` in instance storage with `Instance::set`; the
/// persistent storage is untouched. Not stated: the call panics when made
/// outside a contract's context or when the host's budget runs out.
#[verifier::external_body]
pub(crate) fn instance_set(env: &mut Env, key: &[u8], value: &[u8])
    requires
        plain_key(key@),
    ensures
        instance_entries(*final(env)) == instance_entries(*old(env)).insert(key@, value@),
        persistent_entries(*final(env)) == persistent_entries(*old(env)),
{
    let k = Bytes::from_slice(env, key);
    let v = Bytes::from_slice(env, value);
    env.storage().instance().set(&k, &v);
}

/// Deletes `key` from instance storage with `Instance::remove`, which is a
/// no-op for an absent key; the persistent storage is untouched. Not stated:
/// the call panics when made outside a contract's context or when the host's
/// budget runs out.
#[verifier::external_body]
pub(crate) fn instance_remove(env: &mut Env, key: &[u8])
    requires
        plain_key(key@),
    ensures
        instance_entries(*final(env)) == instance_entries(*old(env)).remove(key@),
        persistent_entries(*final(env)) == persistent_entries(*old(env)),
{
    let k = Bytes::from_slice(env, key);
    env.storage().instance().remove(&k);
}

/// Reads `key` from persistent storage with `Persistent::get`, converting the
/// stored value with `Bytes::try_from_val`, as `instance_get` does for the
/// instance storage. Not stated: the call panics when made outside a
/// contract's context, when the entry has expired, or when the host's budget
/// runs out.
#[verifier::external_body]
pub(crate) fn persistent_get(env: &Env, key: &[u8]) -> (res: Option<Vec<u8>>)
    requires
        plain_key(key@),
    ensures
        match res {
            Some(v) => persistent_entries(*env).contains_key(key@) && v@ == persistent_entries(
                *env,
            )[key@],
            None => !persistent_entries(*env).contains_key(key@),
        },
{
    let k = Bytes::from_slice(env, key);
    match env.storage().persistent().get::<Bytes, Val>(&k) {
        Some(v) => match Bytes::try_from_val(env, &v) {
            Ok(b) => {
                let mut out = vec![0u8; b.len() as usize];
                b.copy_into_slice(&mut out);
                Some(out)
            },
            Err(_) => None,
        },
        None => None,
    }
}

/// Writes `value` under `key` in persistent storage with `Persistent::set`;
/// the instance storage is untouched. Not stated: the call panics when made
/// outside a contract's context or when the host's budget runs out.
#[verifier::external_body]
pub(crate) fn persistent_set(env: &mut Env, key: &[u8], value: &[u8])
    requires
        plain_key(key@),
    ensures
        persistent_entries(*final(env)) == persistent_entries(*old(env)).insert(key@, value@),
        instance_entries(*final(env)) == instance_entries(*old(env)),
{
    let k = Bytes::from_slice(env, key);
    let v = Bytes::from_slice(env, value);
    env.storage().persistent().set(&k, &v);
}

/// Deletes `key` from persistent storage with `Persistent::remove`, a no-op
/// for an absent key; the instance storage is untouched. Not stated: the call
/// panics when made outside a contract's context or when the host's budget
/// runs out.
#[verifier::external_body]
pub(crate) fn persistent_remove(env: &mut Env, key: &[u8])
    requires
        plain_key(key@),
    ensures
        persistent_entries(*final(env)) == persistent_entries(*old(env)).remove(key@),
        instance_entries(*final(env)) == instance_entries(*old(env)),
{
    let k = Bytes::from_slice(env, key);
    env.storage().persistent().remove(&k);
}

/// Asks the host, with `Address::require_auth`, that `who` has authorized
/// the running contract call. Nothing is promised when it returns. It
/// aborts the contract call when `who` has not authorized it; no `requires`
/// can state host authorization, and the rollbacks rely on this abort as
/// their access control.
#[verifier::external_body]
pub(crate) fn require_auth(who: &HostAddress) {
    who.require_auth();
}

/// The host value of a scalar entry's key: its symbol, or the tuple of its
/// symbol and numbers. It is the conversion that the scalar-entry wrappers
/// below share; nothing is promised of it on its own. `Symbol::new` panics
/// on a text that is not a valid symbol, which `requires` leaves out.
#[verifier::external_body]
fn host_key(env: &Env, key: &SlotKey) -> Val
    requires
        key.valid(),
{
    match *key {
        SlotKey::Sym(t) => Symbol::new(env, t).to_val(),
        SlotKey::SymU64(t, a) => (Symbol::new(env, t), a).into_val(env),
        SlotKey::SymU64U32(t, a, b) => (Symbol::new(env, t), a, b).into_val(env),
        SlotKey::SymU64U64(t, a, b) => (Symbol::new(env, t), a, b).into_val(env),
    }
}

/// Reads a scalar entry of instance storage with `Instance::get`, as a `u32`
/// (`u32::try_from_val`): `None` when the entry is missing or holds another
/// kind of value.
#[verifier::external_body]
pub(crate) fn instance_slot_u32(env: &Env, key: &SlotKey) -> (res: Option<u32>)
    requires
        key.valid(),
    ensures
        res == (if instance_entries(*env).contains_key(key@) {
            dec_u32(instance_entries(*env)[key@])
        } else {
            None
        }),
{
    let v: Option<Val> = env.storage().instance().get(&host_key(env, key));
    v.and_then(|v| u32::try_from_val(env, &v).ok())
}

/// Reads a scalar entry of instance storage as a `u64`, as
/// `instance_slot_u32` reads a `u32`.
#[verifier::external_body]
pub(crate) fn instance_slot_u64(env: &Env, key: &SlotKey) -> (res: Option<u64>)
    requires
        key.valid(),
    ensures
        res == (if instance_entries(*env).contains_key(key@) {
            dec_u64(instance_entries(*env)[key@])
        } else {
            None
        }),
{
    let v: Option<Val> = env.storage().instance().get(&host_key(env, key));
    v.and_then(|v| u64::try_from_val(env, &v).ok())
}

/// Whether instance storage holds a scalar entry, with `Instance::has`.
#[verifier::external_body]
pub(crate) fn instance_slot_has(env: &Env, key: &SlotKey) -> (res: bool)
    requires
        key.valid(),
    ensures
        res == instance_entries(*env).contains_key(key@),
{
    env.storage().instance().has(&host_key(env, key))
}

/// Writes a `u32` under a scalar key of instance storage with
/// `Instance::set`.
#[verifier::external_body]
pub(crate) fn instance_slot_set_u32(env: &mut Env, key: &SlotKey, v: u32)
    requires
        key.valid(),
    ensures
        instance_entries(*final(env)) == instance_entries(*old(env)).insert(key@, u32_bytes(v)),
        persistent_entries(*final(env)) == persistent_entries(*old(env)),
{
    let k = host_key(env, key);
    env.storage().instance().set(&k, &v);
}

/// Writes a `u64` under a scalar key of instance storage with
/// `Instance::set`.
#[verifier::external_body]
pub(crate) fn instance_slot_set_u64(env: &mut Env, key: &SlotKey, v: u64)
    requires
        key.valid(),
    ensures
        instance_entries(*final(env)) == instance_entries(*old(env)).insert(key@, u64_bytes(v)),
        persistent_entries(*final(env)) == persistent_entries(*old(env)),
{
    let k = host_key(env, key);
    env.storage().instance().set(&k, &v);
}

/// Writes `()` under a scalar key of instance storage with `Instance::set`.
#[verifier::external_body]
pub(crate) fn instance_slot_set_unit(env: &mut Env, key: &SlotKey)
    requires
        key.valid(),
    ensures
        instance_entries(*final(env)) == instance_entries(*old(env)).insert(key@, Seq::empty()),
        persistent_entries(*final(env)) == persistent_entries(*old(env)),
{
    let k = host_key(env, key);
    env.storage().instance().set(&k, &());
}

/// Deletes a scalar entry of instance storage with `Instance::remove`, a
/// no-op for an absent key.
#[verifier::external_body]
pub(crate) fn instance_slot_remove(env: &mut Env, key: &SlotKey)
    requires
        key.valid(),
    ensures
        instance_entries(*final(env)) == instance_entries(*old(env)).remove(key@),
        persistent_entries(*final(env)) == persistent_entries(*old(env)),
{
    let k = host_key(env, key);
    env.storage().instance().remove(&k);
}

/// Reads a scalar entry of persistent storage with `Persistent::get`, as a
/// `u32`: `None` when the entry is missing or holds another kind of value.
#[verifier::external_body]
pub(crate) fn persistent_slot_u32(env: &Env, key: &SlotKey) -> (res: Option<u32>)
    requires
        key.valid(),
    ensures
        res == (if persistent_entries(*env).contains_key(key@) {
            dec_u32(persistent_entries(*env)[key@])
        } else {
            None
        }),
{
    let v: Option<Val> = env.storage().persistent().get(&host_key(env, key));
    v.and_then(|v| u32::try_from_val(env, &v).ok())
}

/// Reads a scalar entry of persistent storage as a `u64`.
#[verifier::external_body]
pub(crate) fn persistent_slot_u64(env: &Env, key: &SlotKey) -> (res: Option<u64>)
    requires
        key.valid(),
    ensures
        res == (if persistent_entries(*env).contains_key(key@) {
            dec_u64(persistent_entries(*env)[key@])
        } else {
            None
        }),
{
    let v: Option<Val> = env.storage().persistent().get(&host_key(env, key));
    v.and_then(|v| u64::try_from_val(env, &v).ok())
}

/// Reads a scalar entry of persistent storage as a `bool`.
#[verifier::external_body]
pub(crate) fn persistent_slot_bool(env: &Env, key: &SlotKey) -> (res: Option<bool>)
    requires
        key.valid(),
    ensures
        res == (if persistent_entries(*env).contains_key(key@) {
            dec_bool(persistent_entries(*env)[key@])
        } else {
            None
        }),
{
    let v: Option<Val> = env.storage().persistent().get(&host_key(env, key));
    v.and_then(|v| bool::try_from_val(env, &v).ok())
}

/// Whether persistent storage holds a scalar entry, with `Persistent::has`.
#[verifier::external_body]
pub(crate) fn persistent_slot_has(env: &Env, key: &SlotKey) -> (res: bool)
    requires
        key.valid(),
    ensures
        res == persistent_entries(*env).contains_key(key@),
{
    env.storage().persistent().has(&host_key(env, key))
}

/// Writes a `u32` under a scalar key of persistent storage with
/// `Persistent::set`.
#[verifier::external_body]
pub(crate) fn persistent_slot_set_u32(env: &mut Env, key: &SlotKey, v: u32)
    requires
        key.valid(),
    ensures
        persistent_entries(*final(env)) == persistent_entries(*old(env)).insert(key@, u32_bytes(v)),
        instance_entries(*final(env)) == instance_entries(*old(env)),
{
    let k = host_key(env, key);
    env.storage().persistent().set(&k, &v);
}

/// Writes a `u64` under a scalar key of persistent storage.
#[verifier::external_body]
pub(crate) fn persistent_slot_set_u64(env: &mut Env, key: &SlotKey, v: u64)
    requires
        key.valid(),
    ensures
        persistent_entries(*final(env)) == persistent_entries(*old(env)).insert(key@, u64_bytes(v)),
        instance_entries(*final(env)) == instance_entries(*old(env)),
{
    let k = host_key(env, key);
    env.storage().persistent().set(&k, &v);
}

/// Writes a `bool` under a scalar key of persistent storage.
#[verifier::external_body]
pub(crate) fn persistent_slot_set_bool(env: &mut Env, key: &SlotKey, v: bool)
    requires
        key.valid(),
    ensures
        persistent_entries(*final(env)) == persistent_entries(*old(env)).insert(key@, bool_bytes(v)),
        instance_entries(*final(env)) == instance_entries(*old(env)),
{
    let k = host_key(env, key);
    env.storage().persistent().set(&k, &v);
}

/// Writes `()` under a scalar key of persistent storage.
#[verifier::external_body]
pub(crate) fn persistent_slot_set_unit(env: &mut Env, key: &SlotKey)
    requires
        key.valid(),
    ensures
        persistent_entries(*final(env)) == persistent_entries(*old(env)).insert(key@, Seq::empty()),
        instance_entries(*final(env)) == instance_entries(*old(env)),
{
    let k = host_key(env, key);
    env.storage().persistent().set(&k, &());
}

/// Deletes a scalar entry of persistent storage with `Persistent::remove`.
#[verifier::external_body]
pub(crate) fn persistent_slot_remove(env: &mut Env, key: &SlotKey)
    requires
        key.valid(),
    ensures
        persistent_entries(*final(env)) == persistent_entries(*old(env)).remove(key@),
        instance_entries(*final(env)) == instance_entries(*old(env)),
{
    let k = host_key(env, key);
    env.storage().persistent().remove(&k);
}

} // verus!

//! Storage layer for the NFT reward contract: one entry per NFT, per-owner
//! and per-hunt lists of NFT ids, the id counter, the supply cap, and the
//! admin, minter, operator and reward-manager settings.
use crate::codec::{bool_bytes, dec_u64, u32_bytes, u64_bytes};
use crate::collections::{u64_items, u64_vec_new, u64_vec_push};
use crate::keys::{admin_key, admin_key_bytes, contract_version_key, contract_version_key_slot, counter_key, counter_key_slot, hunt_nft_count_key, hunt_nft_count_key_slot, hunt_nft_entry_key, hunt_nft_entry_key_slot, hunt_nft_exists_key, hunt_nft_exists_key_slot, initialized_key, initialized_key_slot, max_supply_key, max_supply_key_slot, minter_key, minter_key_bytes, nft_key, nft_key_bytes, operator_key, operator_key_bytes, owner_nft_count_key, owner_nft_count_key_bytes, owner_nft_entry_key, owner_nft_entry_key_bytes, owner_nft_exists_key, owner_nft_exists_key_bytes, reward_manager_key, reward_manager_key_bytes};
use crate::ledger::{persistent_slot_set_u64, instance_entries, persistent_entries, persistent_get, persistent_remove, persistent_set};
use crate::records::{dec_nft, decode_nft, encode_nft, nft_bytes, opt_u64_bytes};
use crate::slots::present_values;
use crate::store::{bool_or_false, instance_address, marker, persistent_bool, persistent_has, persistent_u32, persistent_u64, set_instance_address, set_persistent_bool, set_persistent_marker, set_persistent_u32, set_persistent_u64, stored_address, stored_bool, stored_u32, stored_u64, u32_or_zero, u64_or_zero};
use crate::types::{Address, NftData, NftModel};
use soroban_sdk::Env;
use crate::ledger::{instance_slot_u32, persistent_slot_bool, persistent_slot_has, persistent_slot_remove, persistent_slot_set_unit, persistent_slot_u32, persistent_slot_u64};
use crate::store::{set_instance_slot_u32, set_persistent_slot_bool, set_persistent_slot_u32, set_persistent_slot_u64};
use vstd::prelude::*;

verus! {

/// The NFT kept under `nft_id` in the persistent entries `e`, if any.
pub open spec fn stored_nft(e: Map<Seq<u8>, Seq<u8>>, nft_id: u64) -> Option<NftModel> {
    if e.contains_key(nft_key(nft_id)) {
        dec_nft(e[nft_key(nft_id)])
    } else {
        None
    }
}

/// The last NFT id handed out, 0 before the first.
pub open spec fn nft_counter(e: Map<Seq<u8>, Seq<u8>>) -> u64 {
    u64_or_zero(stored_u64(e, counter_key()))
}

/// The length of `owner`'s NFT list, 0 when none is kept.
pub open spec fn owner_nft_count(e: Map<Seq<u8>, Seq<u8>>, owner: Seq<u8>) -> u32 {
    u32_or_zero(stored_u32(e, owner_nft_count_key(owner)))
}

/// The length of `hunt_id`'s NFT list, 0 when none is kept.
pub open spec fn hunt_nft_count(e: Map<Seq<u8>, Seq<u8>>, hunt_id: u64) -> u32 {
    u32_or_zero(stored_u32(e, hunt_nft_count_key(hunt_id)))
}

/// The keys of the slots of `hunt_id`'s NFT list.
pub open spec fn hunt_nft_entries(hunt_id: u64) -> spec_fn(u32) -> Seq<u8> {
    |i: u32| hunt_nft_entry_key(hunt_id, i)
}

/// The keys of the slots of `owner`'s NFT list.
pub open spec fn owner_nft_entries(owner: Seq<u8>) -> spec_fn(u32) -> Seq<u8> {
    |i: u32| owner_nft_entry_key(owner, i)
}

/// Reading a slot's bytes as a `u64`.
pub open spec fn as_u64() -> spec_fn(Seq<u8>) -> Option<u64> {
    |b: Seq<u8>| dec_u64(b)
}

/// The NFT ids kept in slots `lo` to `hi - 1` of `hunt_id`'s NFT list.
pub open spec fn hunt_nfts_between(e: Map<Seq<u8>, Seq<u8>>, hunt_id: u64, lo: nat, hi: nat) -> Seq<u64> {
    present_values(e, hunt_nft_entries(hunt_id), as_u64(), lo, hi)
}

/// The NFT ids listed for `hunt_id`.
pub open spec fn hunt_nfts(e: Map<Seq<u8>, Seq<u8>>, hunt_id: u64) -> Seq<u64> {
    hunt_nfts_between(e, hunt_id, 0, hunt_nft_count(e, hunt_id) as nat)
}

/// The NFT ids listed for `owner`.
pub open spec fn owner_nfts(e: Map<Seq<u8>, Seq<u8>>, owner: Seq<u8>) -> Seq<u64> {
    present_values(e, owner_nft_entries(owner), as_u64(), 0, owner_nft_count(e, owner) as nat)
}

/// The window of `hunt_id`'s NFT list that `get_hunt_nfts` returns: from
/// slot `offset`, at most `limit` slots, not past the list's end.
pub open spec fn hunt_nft_page(e: Map<Seq<u8>, Seq<u8>>, hunt_id: u64, offset: u32, limit: u32) -> Seq<u64> {
    let count = hunt_nft_count(e, hunt_id);
    if offset >= count {
        Seq::empty()
    } else {
        let end = if offset + limit > u32::MAX {
            u32::MAX as int
        } else {
            offset + limit
        };
        let end = if end < count {
            end
        } else {
            count as int
        };
        hunt_nfts_between(e, hunt_id, offset as nat, end as nat)
    }
}

/// The ids from 1 to `n` under which an NFT entry is kept, in order.
pub open spec fn minted_ids_upto(e: Map<Seq<u8>, Seq<u8>>, n: nat) -> Seq<u64>
    decreases n,
{
    if n == 0 {
        Seq::empty()
    } else {
        let prev = minted_ids_upto(e, (n - 1) as nat);
        if e.contains_key(nft_key(n as u64)) {
            prev.push(n as u64)
        } else {
            prev
        }
    }
}

/// Looking at more ids never lists fewer of them.
proof fn lemma_minted_ids_grow(e: Map<Seq<u8>, Seq<u8>>, m: nat, n: nat)
    requires
        m <= n,
    ensures
        minted_ids_upto(e, m).len() <= minted_ids_upto(e, n).len(),
    decreases n - m,
{
    if m < n {
        lemma_minted_ids_grow(e, m, (n - 1) as nat);
    }
}

/// The persistent entries after `nft_id` is added to `owner`'s NFT list:
/// nothing changes when its marker is already there; otherwise it goes into
/// the slot at the list's end, the length grows by one, and the marker is
/// set.
pub open spec fn owner_nft_listed(e: Map<Seq<u8>, Seq<u8>>, owner: Seq<u8>, nft_id: u64) -> Map<Seq<u8>, Seq<u8>> {
    if e.contains_key(owner_nft_exists_key(owner, nft_id)) {
        e
    } else {
        let c = owner_nft_count(e, owner);
        e.insert(owner_nft_entry_key(owner, c), u64_bytes(nft_id)).insert(
            owner_nft_count_key(owner),
            u32_bytes((c + 1) as u32),
        ).insert(owner_nft_exists_key(owner, nft_id), marker())
    }
}

/// The persistent entries after `nft_id` is added to `hunt_id`'s NFT list,
/// in the same way.
pub open spec fn hunt_nft_listed(e: Map<Seq<u8>, Seq<u8>>, hunt_id: u64, nft_id: u64) -> Map<Seq<u8>, Seq<u8>> {
    if e.contains_key(hunt_nft_exists_key(hunt_id, nft_id)) {
        e
    } else {
        let c = hunt_nft_count(e, hunt_id);
        e.insert(hunt_nft_entry_key(hunt_id, c), u64_bytes(nft_id)).insert(
            hunt_nft_count_key(hunt_id),
            u32_bytes((c + 1) as u32),
        ).insert(hunt_nft_exists_key(hunt_id, nft_id), marker())
    }
}

/// The id kept in slot `i` of `owner`'s NFT list, if any.
pub open spec fn owner_nft_slot(e: Map<Seq<u8>, Seq<u8>>, owner: Seq<u8>, i: nat) -> Option<u64> {
    stored_u64(e, owner_nft_entry_key(owner, i as u32))
}

/// The id kept in slot `i` of `hunt_id`'s NFT list, if any.
pub open spec fn hunt_nft_slot(e: Map<Seq<u8>, Seq<u8>>, hunt_id: u64, i: nat) -> Option<u64> {
    stored_u64(e, hunt_nft_entry_key(hunt_id, i as u32))
}

/// The first slot below `n` of `hunt_id`'s NFT list that holds `nft_id`.
pub open spec fn first_hunt_nft_slot(e: Map<Seq<u8>, Seq<u8>>, hunt_id: u64, nft_id: u64, n: nat) -> Option<nat>
    decreases n,
{
    if n == 0 {
        None
    } else {
        match first_hunt_nft_slot(e, hunt_id, nft_id, (n - 1) as nat) {
            Some(p) => Some(p),
            None => if hunt_nft_slot(e, hunt_id, (n - 1) as nat) == Some(nft_id) {
                Some((n - 1) as nat)
            } else {
                None
            },
        }
    }
}

/// Once a slot holding `nft_id` is found, looking further finds the same slot.
proof fn lemma_first_hunt_nft_slot_stable(e: Map<Seq<u8>, Seq<u8>>, hunt_id: u64, nft_id: u64, m: nat, n: nat)
    requires
        m <= n,
        first_hunt_nft_slot(e, hunt_id, nft_id, m) is Some,
    ensures
        first_hunt_nft_slot(e, hunt_id, nft_id, n) == first_hunt_nft_slot(e, hunt_id, nft_id, m),
    decreases n - m,
{
    if m < n {
        lemma_first_hunt_nft_slot_stable(e, hunt_id, nft_id, m, (n - 1) as nat);
    }
}

/// The persistent entries after `nft_id` is taken off `hunt_id`'s NFT list.
/// Nothing changes unless its marker is there and a slot below the length
/// holds it. Then the first such slot takes the id of the last slot (which
/// is emptied), the length shrinks by one, and the marker is removed.
pub open spec fn hunt_nft_unlisted(e: Map<Seq<u8>, Seq<u8>>, hunt_id: u64, nft_id: u64) -> Map<Seq<u8>, Seq<u8>> {
    let c = hunt_nft_count(e, hunt_id);
    if !e.contains_key(hunt_nft_exists_key(hunt_id, nft_id)) {
        e
    } else {
        match first_hunt_nft_slot(e, hunt_id, nft_id, c as nat) {
            None => e,
            Some(i) => {
                let last = (c - 1) as nat;
                let e1 = if i != last {
                    let moved = match hunt_nft_slot(e, hunt_id, last) {
                        Some(v) => e.insert(hunt_nft_entry_key(hunt_id, i as u32), u64_bytes(v)),
                        None => e,
                    };
                    moved.remove(hunt_nft_entry_key(hunt_id, last as u32))
                } else {
                    e.remove(hunt_nft_entry_key(hunt_id, i as u32))
                };
                e1.insert(hunt_nft_count_key(hunt_id), u32_bytes((c - 1) as u32)).remove(
                    hunt_nft_exists_key(hunt_id, nft_id),
                )
            },
        }
    }
}

/// Storage layer for NFTs.
pub struct Storage;

impl Storage {
    pub fn remove_nft(env: &mut Env, nft_id: u64)
        ensures
            persistent_entries(*final(env)) == persistent_entries(*old(env)).remove(nft_key(nft_id)),
            instance_entries(*final(env)) == instance_entries(*old(env)),
    {
        let key = nft_key_bytes(nft_id);
        persistent_remove(env, key.as_slice());
    }

    pub fn save_admin(env: &mut Env, admin: &Address)
        ensures
            instance_entries(*final(env)) == instance_entries(*old(env)).insert(admin_key(), admin@),
            persistent_entries(*final(env)) == persistent_entries(*old(env)),
    {
        let key = admin_key_bytes();
        set_instance_address(env, key.as_slice(), admin);
    }

    pub fn get_admin(env: &Env) -> (res: Option<Address>)
        ensures
            match res {
                Some(a) => stored_address(instance_entries(*env), admin_key()) == Some(a@),
                None => stored_address(instance_entries(*env), admin_key()) is None,
            },
    {
        let key = admin_key_bytes();
        instance_address(env, key.as_slice())
    }

    pub fn set_reward_manager(env: &mut Env, address: &Address)
        ensures
            instance_entries(*final(env)) == instance_entries(*old(env)).insert(
                reward_manager_key(),
                address@,
            ),
            persistent_entries(*final(env)) == persistent_entries(*old(env)),
    {
        let key = reward_manager_key_bytes();
        set_instance_address(env, key.as_slice(), address);
    }

    pub fn save_reward_manager(env: &mut Env, address: &Address)
        ensures
            instance_entries(*final(env)) == instance_entries(*old(env)).insert(
                reward_manager_key(),
                address@,
            ),
            persistent_entries(*final(env)) == persistent_entries(*old(env)),
    {
        Self::set_reward_manager(env, address);
    }

    pub fn get_reward_manager(env: &Env) -> (res: Option<Address>)
        ensures
            match res {
                Some(a) => stored_address(instance_entries(*env), reward_manager_key()) == Some(a@),
                None => stored_address(instance_entries(*env), reward_manager_key()) is None,
            },
    {
        let key = reward_manager_key_bytes();
        instance_address(env, key.as_slice())
    }

    // --- Minter whitelist (reserved for admin-gated minting) ---

    pub fn add_minter(env: &mut Env, minter: &Address)
        ensures
            persistent_entries(*final(env)) == persistent_entries(*old(env)).insert(
                minter_key(minter@),
                bool_bytes(true),
            ),
            instance_entries(*final(env)) == instance_entries(*old(env)),
            stored_bool(persistent_entries(*final(env)), minter_key(minter@)) == Some(true),
    {
        let key = minter_key_bytes(minter);
        set_persistent_bool(env, key.as_slice(), true);
    }

    pub fn remove_minter(env: &mut Env, minter: &Address)
        ensures
            persistent_entries(*final(env)) == persistent_entries(*old(env)).remove(
                minter_key(minter@),
            ),
            instance_entries(*final(env)) == instance_entries(*old(env)),
    {
        let key = minter_key_bytes(minter);
        persistent_remove(env, key.as_slice());
    }

    pub fn is_minter(env: &Env, minter: &Address) -> (res: bool)
        ensures
            res == bool_or_false(stored_bool(persistent_entries(*env), minter_key(minter@))),
    {
        let key = minter_key_bytes(minter);
        match persistent_bool(env, key.as_slice()) {
            Some(b) => b,
            None => false,
        }
    }

    pub fn save_nft(env: &mut Env, nft: &NftData)
        ensures
            persistent_entries(*final(env)) == persistent_entries(*old(env)).insert(
                nft_key(nft.nft_id),
                nft_bytes(nft@),
            ),
            instance_entries(*final(env)) == instance_entries(*old(env)),
            stored_nft(persistent_entries(*final(env)), nft.nft_id) == Some(nft@),
    {
        let key = nft_key_bytes(nft.nft_id);
        let bytes = encode_nft(nft);
        persistent_set(env, key.as_slice(), bytes.as_slice());
    }

    pub fn get_nft(env: &Env, nft_id: u64) -> (res: Option<NftData>)
        ensures
            match res {
                Some(n) => stored_nft(persistent_entries(*env), nft_id) == Some(n@),
                None => stored_nft(persistent_entries(*env), nft_id) is None,
            },
    {
        let key = nft_key_bytes(nft_id);
        match persistent_get(env, key.as_slice()) {
            Some(b) => decode_nft(b.as_slice()),
            None => None,
        }
    }

    /// Increments and returns the next NFT id (starting from 1).
    pub fn next_nft_id(env: &mut Env) -> (res: u64)
        requires
            nft_counter(persistent_entries(*old(env))) < u64::MAX,
        ensures
            res == nft_counter(persistent_entries(*old(env))) + 1,
            persistent_entries(*final(env)) == persistent_entries(*old(env)).insert(
                counter_key(),
                u64_bytes(res),
            ),
            instance_entries(*final(env)) == instance_entries(*old(env)),
            nft_counter(persistent_entries(*final(env))) == res,
    {
        let key = counter_key_slot();
        let current = match persistent_slot_u64(env, &key) {
            Some(v) => v,
            None => 0,
        };
        let next = current + 1;
        set_persistent_slot_u64(env, &key, next);
        proof {
            crate::codec::lemma_u64_roundtrip(next);
        }
        next
    }

    pub fn get_nft_counter(env: &Env) -> (res: u64)
        ensures
            res == nft_counter(persistent_entries(*env)),
    {
        let key = counter_key_slot();
        match persistent_slot_u64(env, &key) {
            Some(v) => v,
            None => 0,
        }
    }

    /// Records the supply cap (`None` for no cap) and marks the contract as
    /// set up.
    pub fn set_max_supply(env: &mut Env, max_supply: Option<u64>)
        ensures
            persistent_entries(*final(env)) == persistent_entries(*old(env)).insert(
                max_supply_key(),
                opt_u64_bytes(max_supply),
            ).insert(initialized_key(), bool_bytes(true)),
            instance_entries(*final(env)) == instance_entries(*old(env)),
            stored_u64(persistent_entries(*final(env)), max_supply_key()) == max_supply,
            stored_bool(persistent_entries(*final(env)), initialized_key()) == Some(true),
    {
        proof {
            crate::keys::lemma_supply_keys_distinct();
            if let Some(x) = max_supply {
                crate::codec::lemma_u64_roundtrip(x);
            }
        }
        let key = max_supply_key_slot();
        match max_supply {
            Some(x) => persistent_slot_set_u64(env, &key, x),
            None => persistent_slot_set_unit(env, &key),
        }
        let init_key = initialized_key_slot();
        set_persistent_slot_bool(env, &init_key, true);
    }

    /// The supply cap, `None` when there is none or none was recorded.
    pub fn get_max_supply(env: &Env) -> (res: Option<u64>)
        ensures
            res == stored_u64(persistent_entries(*env), max_supply_key()),
    {
        let key = max_supply_key_slot();
        persistent_slot_u64(env, &key)
    }

    pub fn is_initialized(env: &Env) -> (res: bool)
        ensures
            res == bool_or_false(stored_bool(persistent_entries(*env), initialized_key())),
    {
        let key = initialized_key_slot();
        match persistent_slot_bool(env, &key) {
            Some(b) => b,
            None => false,
        }
    }

    pub fn add_nft_to_owner(env: &mut Env, owner: &Address, nft_id: u64)
        requires
            !persistent_entries(*old(env)).contains_key(owner_nft_exists_key(owner@, nft_id))
                ==> owner_nft_count(persistent_entries(*old(env)), owner@) < u32::MAX,
        ensures
            persistent_entries(*final(env)) == owner_nft_listed(
                persistent_entries(*old(env)),
                owner@,
                nft_id,
            ),
            instance_entries(*final(env)) == instance_entries(*old(env)),
    {
        let count_key = owner_nft_count_key_bytes(owner);
        let count = match persistent_u32(env, count_key.as_slice()) {
            Some(c) => c,
            None => 0,
        };
        let exist_key = owner_nft_exists_key_bytes(owner, nft_id);
        if persistent_has(env, exist_key.as_slice()) {
            return;
        }
        let entry_key = owner_nft_entry_key_bytes(owner, count);
        set_persistent_u64(env, entry_key.as_slice(), nft_id);
        set_persistent_u32(env, count_key.as_slice(), count + 1);
        set_persistent_marker(env, exist_key.as_slice());
    }

    pub fn add_nft_to_hunt(env: &mut Env, hunt_id: u64, nft_id: u64)
        requires
            !persistent_entries(*old(env)).contains_key(hunt_nft_exists_key(hunt_id, nft_id))
                ==> hunt_nft_count(persistent_entries(*old(env)), hunt_id) < u32::MAX,
        ensures
            persistent_entries(*final(env)) == hunt_nft_listed(
                persistent_entries(*old(env)),
                hunt_id,
                nft_id,
            ),
            instance_entries(*final(env)) == instance_entries(*old(env)),
    {
        let count_key = hunt_nft_count_key_slot(hunt_id);
        let count = match persistent_slot_u32(env, &count_key) {
            Some(c) => c,
            None => 0,
        };
        let exist_key = hunt_nft_exists_key_slot(hunt_id, nft_id);
        if persistent_slot_has(env, &exist_key) {
            return;
        }
        let entry_key = hunt_nft_entry_key_slot(hunt_id, count);
        set_persistent_slot_u64(env, &entry_key, nft_id);
        set_persistent_slot_u32(env, &count_key, count + 1);
        persistent_slot_set_unit(env, &exist_key);
    }

    pub fn get_hunt_nft_count(env: &Env, hunt_id: u64) -> (res: u32)
        ensures
            res == hunt_nft_count(persistent_entries(*env), hunt_id),
    {
        let count_key = hunt_nft_count_key_slot(hunt_id);
        match persistent_slot_u32(env, &count_key) {
            Some(c) => c,
            None => 0,
        }
    }

    /// The NFT ids of a hunt's list from slot `offset`, at most `limit` of
    /// them; empty when `offset` is at or past the list's end.
    pub fn get_hunt_nfts(env: &Env, hunt_id: u64, offset: u32, limit: u32) -> (res: soroban_sdk::Vec<u64>)
        ensures
            u64_items(res) == hunt_nft_page(persistent_entries(*env), hunt_id, offset, limit),
    {
        let count_key = hunt_nft_count_key_slot(hunt_id);
        let count = match persistent_slot_u32(env, &count_key) {
            Some(c) => c,
            None => 0,
        };
        if offset >= count {
            return u64_vec_new(env);
        }
        let end = offset.saturating_add(limit);
        let end = if end < count {
            end
        } else {
            count
        };
        let ghost e = persistent_entries(*env);
        let mut ids = u64_vec_new(env);
        let mut i = offset;
        while i < end
            invariant
                e == persistent_entries(*env),
                offset <= i <= end,
                u64_items(ids) == hunt_nfts_between(e, hunt_id, offset as nat, i as nat),
                u64_items(ids).len() <= i - offset,
            decreases end - i,
        {
            let entry_key = hunt_nft_entry_key_slot(hunt_id, i);
            if let Some(id) = persistent_slot_u64(env, &entry_key) {
                u64_vec_push(&mut ids, id);
            }
            i = i + 1;
        }
        ids
    }

    /// Takes an NFT off a hunt's list: the last entry moves into its slot.
    pub fn remove_nft_from_hunt(env: &mut Env, hunt_id: u64, nft_id: u64)
        ensures
            persistent_entries(*final(env)) == hunt_nft_unlisted(
                persistent_entries(*old(env)),
                hunt_id,
                nft_id,
            ),
            instance_entries(*final(env)) == instance_entries(*old(env)),
    {
        let ghost e0 = persistent_entries(*env);
        let count_key = hunt_nft_count_key_slot(hunt_id);
        let count = match persistent_slot_u32(env, &count_key) {
            Some(c) => c,
            None => 0,
        };
        let exist_key = hunt_nft_exists_key_slot(hunt_id, nft_id);
        if !persistent_slot_has(env, &exist_key) {
            return;
        }
        let mut i: u32 = 0;
        while i < count
            invariant
                i <= count,
                count == hunt_nft_count(e0, hunt_id),
                e0 == persistent_entries(*old(env)),
                e0.contains_key(hunt_nft_exists_key(hunt_id, nft_id)),
                first_hunt_nft_slot(e0, hunt_id, nft_id, i as nat) is None,
                count_key@ == hunt_nft_count_key(hunt_id),
                exist_key@ == hunt_nft_exists_key(hunt_id, nft_id),
                count_key.valid(),
                exist_key.valid(),
                persistent_entries(*env) == e0,
                instance_entries(*env) == instance_entries(*old(env)),
            decreases count - i,
        {
            let entry_key = hunt_nft_entry_key_slot(hunt_id, i);
            if let Some(stored_id) = persistent_slot_u64(env, &entry_key) {
                if stored_id == nft_id {
                    proof {
                        assert(first_hunt_nft_slot(e0, hunt_id, nft_id, (i + 1) as nat) == Some(i as nat));
                        lemma_first_hunt_nft_slot_stable(e0, hunt_id, nft_id, (i + 1) as nat, count as nat);
                    }
                    let last_idx = count - 1;
                    if i != last_idx {
                        let last_key = hunt_nft_entry_key_slot(hunt_id, last_idx);
                        if let Some(last_id) = persistent_slot_u64(env, &last_key) {
                            set_persistent_slot_u64(env, &entry_key, last_id);
                        }
                        persistent_slot_remove(env, &last_key);
                    } else {
                        persistent_slot_remove(env, &entry_key);
                    }
                    set_persistent_slot_u32(env, &count_key, count - 1);
                    persistent_slot_remove(env, &exist_key);
                    return;
                }
            }
            i = i + 1;
        }
    }

    /// Returns all minted NFT IDs by iterating from 1 to the current counter.
    pub fn get_all_nft_ids(env: &Env) -> (res: soroban_sdk::Vec<u64>)
        requires
            minted_ids_upto(persistent_entries(*env), nft_counter(persistent_entries(*env)) as nat).len()
                <= u32::MAX,
        ensures
            u64_items(res) == minted_ids_upto(
                persistent_entries(*env),
                nft_counter(persistent_entries(*env)) as nat,
            ),
    {
        let counter = Self::get_nft_counter(env);
        let ghost e = persistent_entries(*env);
        let mut ids = u64_vec_new(env);
        let mut id: u64 = 0;
        while id < counter
            invariant
                e == persistent_entries(*env),
                counter == nft_counter(e),
                minted_ids_upto(e, counter as nat).len() <= u32::MAX,
                id <= counter,
                u64_items(ids) == minted_ids_upto(e, id as nat),
                u64_items(ids).len() <= id,
            decreases counter - id,
        {
            id = id + 1;
            let key = nft_key_bytes(id);
            proof {
                lemma_minted_ids_grow(e, id as nat, counter as nat);
            }
            if persistent_has(env, key.as_slice()) {
                u64_vec_push(&mut ids, id);
            }
        }
        ids
    }

    pub fn get_owner_nfts(env: &Env, owner: &Address) -> (res: soroban_sdk::Vec<u64>)
        ensures
            u64_items(res) == owner_nfts(persistent_entries(*env), owner@),
    {
        let count_key = owner_nft_count_key_bytes(owner);
        let count = match persistent_u32(env, count_key.as_slice()) {
            Some(c) => c,
            None => 0,
        };
        let ghost e = persistent_entries(*env);
        let mut ids = u64_vec_new(env);
        for i in 0..count
            invariant
                e == persistent_entries(*env),
                count == owner_nft_count(e, owner@),
                u64_items(ids) == present_values(e, owner_nft_entries(owner@), as_u64(), 0, i as nat),
                u64_items(ids).len() <= i,
        {
            let entry_key = owner_nft_entry_key_bytes(owner, i);
            if let Some(id) = persistent_u64(env, entry_key.as_slice()) {
                u64_vec_push(&mut ids, id);
            }
        }
        ids
    }

    // --- Operator management ---

    /// Grants operator approval: `operator` can manage all NFTs owned by `owner`.
    pub fn set_operator(env: &mut Env, owner: &Address, operator: &Address)
        ensures
            persistent_entries(*final(env)) == persistent_entries(*old(env)).insert(
                operator_key(owner@, operator@),
                bool_bytes(true),
            ),
            instance_entries(*final(env)) == instance_entries(*old(env)),
            stored_bool(persistent_entries(*final(env)), operator_key(owner@, operator@)) == Some(true),
    {
        let key = operator_key_bytes(owner, operator);
        set_persistent_bool(env, key.as_slice(), true);
    }

    /// Revokes operator approval.
    pub fn remove_operator(env: &mut Env, owner: &Address, operator: &Address)
        ensures
            persistent_entries(*final(env)) == persistent_entries(*old(env)).remove(
                operator_key(owner@, operator@),
            ),
            instance_entries(*final(env)) == instance_entries(*old(env)),
    {
        let key = operator_key_bytes(owner, operator);
        persistent_remove(env, key.as_slice());
    }

    /// Returns true if `operator` is approved to manage all NFTs of `owner`.
    pub fn is_operator(env: &Env, owner: &Address, operator: &Address) -> (res: bool)
        ensures
            res == bool_or_false(
                stored_bool(persistent_entries(*env), operator_key(owner@, operator@)),
            ),
    {
        let key = operator_key_bytes(owner, operator);
        match persistent_bool(env, key.as_slice()) {
            Some(b) => b,
            None => false,
        }
    }

    // --- Contract version ---

    pub fn set_contract_version(env: &mut Env, version: u32)
        ensures
            instance_entries(*final(env)) == instance_entries(*old(env)).insert(
                contract_version_key(),
                u32_bytes(version),
            ),
            persistent_entries(*final(env)) == persistent_entries(*old(env)),
            stored_u32(instance_entries(*final(env)), contract_version_key()) == Some(version),
    {
        let key = contract_version_key_slot();
        set_instance_slot_u32(env, &key, version);
    }

    pub fn get_contract_version(env: &Env) -> (res: Option<u32>)
        ensures
            res == stored_u32(instance_entries(*env), contract_version_key()),
    {
        let key = contract_version_key_slot();
        instance_slot_u32(env, &key)
    }
}

/// Saving an NFT writes that NFT alone: every NFT kept under another id
/// reads back as it was.
pub proof fn law_save_nft_keeps_other_nfts(e: Map<Seq<u8>, Seq<u8>>, n: NftModel, id: u64)
    requires
        id != n.nft_id,
    ensures
        stored_nft(e.insert(nft_key(n.nft_id), nft_bytes(n)), id) == stored_nft(e, id),
{
    crate::keys::lemma_nft_key_injective(id, n.nft_id);
}

/// Adding or removing a minter changes whether that address alone is a
/// minter.
pub proof fn law_minter_changes_keep_other_minters(e: Map<Seq<u8>, Seq<u8>>, minter: Seq<u8>, other: Seq<u8>)
    requires
        minter != other,
        minter.len() <= u64::MAX,
        other.len() <= u64::MAX,
    ensures
        stored_bool(e.insert(minter_key(minter), bool_bytes(true)), minter_key(other)) == stored_bool(
            e,
            minter_key(other),
        ),
        stored_bool(e.remove(minter_key(minter)), minter_key(other)) == stored_bool(e, minter_key(other)),
{
    crate::keys::lemma_minter_key_injective(minter, other);
}

/// Granting or revoking an approval changes that (owner, operator) pair
/// alone: the approval of any other owner, or of any other operator of the
/// same owner, stays as it was.
pub proof fn law_operator_changes_keep_other_pairs(
    e: Map<Seq<u8>, Seq<u8>>,
    owner: Seq<u8>,
    operator: Seq<u8>,
    other_owner: Seq<u8>,
    other_operator: Seq<u8>,
)
    requires
        owner != other_owner || operator != other_operator,
        owner.len() <= u64::MAX,
        operator.len() <= u64::MAX,
        other_owner.len() <= u64::MAX,
        other_operator.len() <= u64::MAX,
    ensures
        stored_bool(
            e.insert(operator_key(owner, operator), bool_bytes(true)),
            operator_key(other_owner, other_operator),
        ) == stored_bool(e, operator_key(other_owner, other_operator)),
        stored_bool(e.remove(operator_key(owner, operator)), operator_key(other_owner, other_operator))
            == stored_bool(e, operator_key(other_owner, other_operator)),
{
    crate::keys::lemma_operator_key_injective(owner, operator, other_owner, other_operator);
}

} // verus!

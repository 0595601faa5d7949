//! Storage access layer for hunts, clues, and player progress of the hunt
//! contract: one entry per hunt, clue and player, per-hunt lists of clue ids
//! and players, and counters that hand out identifiers.
use crate::keys::{clue_count_key, clue_count_key_slot, clue_counter_key, clue_counter_key_slot, clue_entry_key, clue_entry_key_slot, clue_exists_key, clue_exists_key_slot, clue_key, clue_key_bytes, counter_key, counter_key_slot, hunt_key, hunt_key_bytes, player_count_key, player_count_key_slot, player_entry_key, player_entry_key_bytes, player_exists_key, player_exists_key_bytes, progress_key, progress_key_bytes, reward_manager_key, reward_manager_key_bytes};
use crate::progress::{stored_part, with_key, PlayerProgress, PlayerProgressModel, StoredProgressModel};
use crate::slots::present_values;
use crate::sorted::{ascending, lemma_ascending, lemma_insert_at, lemma_insert_sorted, strictly_increasing};
use crate::ledger::{instance_entries, instance_get, instance_remove, instance_set, persistent_entries, persistent_get, persistent_set};
use crate::records::{progress_bytes, dec_progress, decode_progress, encode_progress, clue_bytes, dec_clue, decode_clue, encode_clue, dec_hunt, decode_hunt, encode_hunt, hunt_bytes};
use crate::store::{instance_address, marker, persistent_address, persistent_has, set_persistent_address, set_persistent_marker, set_instance_address, stored_address, stored_u32, stored_u64, u32_or_zero, u64_or_zero};
use crate::codec::{dec_u32, u32_bytes, u64_bytes};
use crate::collections::{u32_items, u32_vec_get, u32_vec_len, u32_vec_new, u32_vec_push, u32_vec_typed};
use crate::types::{Address, Clue, ClueModel, Hunt, HuntError, HuntModel};
use soroban_sdk::Env;
use crate::ledger::{instance_slot_has, instance_slot_remove, instance_slot_set_unit, instance_slot_u32, instance_slot_u64};
use crate::store::{set_instance_slot_u32, set_instance_slot_u64};
use crate::ledger::persistent_slot_u32;
use crate::store::set_persistent_slot_u32;
use vstd::prelude::*;

verus! {

/// The hunt kept under `hunt_id` in the instance entries `e`, if there is
/// one.
pub open spec fn stored_hunt(e: Map<Seq<u8>, Seq<u8>>, hunt_id: u64) -> Option<HuntModel> {
    if e.contains_key(hunt_key(hunt_id)) {
        dec_hunt(e[hunt_key(hunt_id)])
    } else {
        None
    }
}

/// The last hunt id handed out, 0 before the first.
pub open spec fn hunt_counter(e: Map<Seq<u8>, Seq<u8>>) -> u64 {
    u64_or_zero(stored_u64(e, counter_key()))
}

/// The last clue id handed out for `hunt_id`, 0 before the first.
pub open spec fn clue_counter(e: Map<Seq<u8>, Seq<u8>>, hunt_id: u64) -> u32 {
    u32_or_zero(stored_u32(e, clue_counter_key(hunt_id)))
}

/// The clue kept under (`hunt_id`, `clue_id`), if there is one.
pub open spec fn stored_clue(e: Map<Seq<u8>, Seq<u8>>, hunt_id: u64, clue_id: u32) -> Option<ClueModel> {
    if e.contains_key(clue_key(hunt_id, clue_id)) {
        dec_clue(e[clue_key(hunt_id, clue_id)])
    } else {
        None
    }
}

/// The length of `hunt_id`'s clue list, 0 when none is kept.
pub open spec fn clue_count(e: Map<Seq<u8>, Seq<u8>>, hunt_id: u64) -> u32 {
    u32_or_zero(stored_u32(e, clue_count_key(hunt_id)))
}

/// The id kept in slot `i` of `hunt_id`'s clue list, if any.
pub open spec fn clue_slot(e: Map<Seq<u8>, Seq<u8>>, hunt_id: u64, i: nat) -> Option<u32> {
    stored_u32(e, clue_entry_key(hunt_id, i as u32))
}

/// The keys of the slots of `hunt_id`'s clue list.
pub open spec fn clue_entries(hunt_id: u64) -> spec_fn(u32) -> Seq<u8> {
    |i: u32| clue_entry_key(hunt_id, i)
}

/// Reading a slot's bytes as a `u32`.
pub open spec fn as_u32() -> spec_fn(Seq<u8>) -> Option<u32> {
    |b: Seq<u8>| dec_u32(b)
}

/// The clue ids listed for `hunt_id`: the slots below the list's length that
/// hold an id, in slot order.
pub open spec fn clue_ids(e: Map<Seq<u8>, Seq<u8>>, hunt_id: u64) -> Seq<u32> {
    present_values(e, clue_entries(hunt_id), as_u32(), 0, clue_count(e, hunt_id) as nat)
}

/// The clues kept for the ids `ids` of `hunt_id`, skipping ids with no clue.
pub open spec fn clues_of(e: Map<Seq<u8>, Seq<u8>>, hunt_id: u64, ids: Seq<u32>) -> Seq<ClueModel>
    decreases ids.len(),
{
    if ids.len() == 0 {
        Seq::empty()
    } else {
        let prev = clues_of(e, hunt_id, ids.drop_last());
        match stored_clue(e, hunt_id, ids.last()) {
            Some(c) => prev.push(c),
            None => prev,
        }
    }
}

/// Clues are kept under their own id.
pub open spec fn clues_keyed_by_id(e: Map<Seq<u8>, Seq<u8>>, hunt_id: u64) -> bool {
    forall|id: u32| #[trigger] stored_clue(e, hunt_id, id) matches Some(c) ==> c.clue_id == id
}

/// For clues kept under their own id and ids in increasing order, the
/// clues found come in increasing id order, and a clue is found exactly
/// when one of the ids keeps it.
pub proof fn lemma_clues_of_keyed(e: Map<Seq<u8>, Seq<u8>>, hunt_id: u64, ids: Seq<u32>)
    ensures
        forall|c: ClueModel|
            clues_of(e, hunt_id, ids).contains(c) <==> exists|k: int|
                0 <= k < ids.len() && stored_clue(e, hunt_id, #[trigger] ids[k]) == Some(c),
        clues_keyed_by_id(e, hunt_id) ==> forall|i: int|
            0 <= i < clues_of(e, hunt_id, ids).len() ==> ids.contains(
                #[trigger] clues_of(e, hunt_id, ids)[i].clue_id,
            ),
        clues_keyed_by_id(e, hunt_id) && strictly_increasing(ids) ==> forall|i: int, j: int|
            0 <= i < j < clues_of(e, hunt_id, ids).len() ==> clues_of(e, hunt_id, ids)[i].clue_id
                < clues_of(e, hunt_id, ids)[j].clue_id,
    decreases ids.len(),
{
    if ids.len() > 0 {
        let t = ids.drop_last();
        lemma_clues_of_keyed(e, hunt_id, t);
        let prev = clues_of(e, hunt_id, t);
        let cur = clues_of(e, hunt_id, ids);
        assert forall|c: ClueModel|
            cur.contains(c) <==> exists|k: int|
                0 <= k < ids.len() && stored_clue(e, hunt_id, #[trigger] ids[k]) == Some(c) by {
            if cur.contains(c) {
                let i = choose|i: int| 0 <= i < cur.len() && cur[i] == c;
                if i < prev.len() {
                    assert(prev[i] == c);
                    assert(prev.contains(c));
                    let k = choose|k: int| 0 <= k < t.len() && stored_clue(e, hunt_id, #[trigger] t[k]) == Some(c);
                    assert(ids[k] == t[k]);
                } else {
                    assert(stored_clue(e, hunt_id, ids[ids.len() - 1]) == Some(c));
                }
            }
            if exists|k: int| 0 <= k < ids.len() && stored_clue(e, hunt_id, #[trigger] ids[k]) == Some(c) {
                let k = choose|k: int| 0 <= k < ids.len() && stored_clue(e, hunt_id, #[trigger] ids[k]) == Some(c);
                if k < t.len() {
                    assert(t[k] == ids[k]);
                    assert(prev.contains(c));
                    let i = choose|i: int| 0 <= i < prev.len() && prev[i] == c;
                    assert(cur[i] == c);
                } else {
                    assert(cur[cur.len() - 1] == c);
                }
            }
        }
        if clues_keyed_by_id(e, hunt_id) {
            assert forall|i: int| 0 <= i < cur.len() implies ids.contains(#[trigger] cur[i].clue_id) by {
                if i < prev.len() {
                    assert(cur[i] == prev[i]);
                    assert(t.contains(prev[i].clue_id));
                    let k = choose|k: int| 0 <= k < t.len() && t[k] == prev[i].clue_id;
                    assert(ids[k] == t[k]);
                } else {
                    assert(ids[ids.len() - 1] == cur[i].clue_id);
                }
            }
            if strictly_increasing(ids) {
                assert(strictly_increasing(t));
                assert forall|i: int, j: int|
                    0 <= i < j < cur.len() implies cur[i].clue_id < cur[j].clue_id by {
                    if j >= prev.len() {
                        assert(cur[i] == prev[i]);
                        assert(t.contains(prev[i].clue_id));
                        let k = choose|k: int| 0 <= k < t.len() && t[k] == prev[i].clue_id;
                        assert(ids[k] == t[k]);
                        assert(cur[j].clue_id == ids[ids.len() - 1]);
                    } else {
                        assert(cur[i] == prev[i]);
                        assert(cur[j] == prev[j]);
                    }
                }
            }
        }
    }
}

/// The instance entries after `clue_id` is added to `hunt_id`'s clue list:
/// nothing changes when its marker is already there; otherwise it goes into
/// the slot at the list's end, the length grows by one, and the marker is set.
pub open spec fn clue_listed(e: Map<Seq<u8>, Seq<u8>>, hunt_id: u64, clue_id: u32) -> Map<Seq<u8>, Seq<u8>> {
    if e.contains_key(clue_exists_key(hunt_id, clue_id)) {
        e
    } else {
        let c = clue_count(e, hunt_id);
        e.insert(clue_entry_key(hunt_id, c), u32_bytes(clue_id)).insert(
            clue_count_key(hunt_id),
            u32_bytes((c + 1) as u32),
        ).insert(clue_exists_key(hunt_id, clue_id), marker())
    }
}

/// The first slot below `n` of `hunt_id`'s clue list that holds `clue_id`.
pub open spec fn first_clue_slot(e: Map<Seq<u8>, Seq<u8>>, hunt_id: u64, clue_id: u32, n: nat) -> Option<nat>
    decreases n,
{
    if n == 0 {
        None
    } else {
        match first_clue_slot(e, hunt_id, clue_id, (n - 1) as nat) {
            Some(p) => Some(p),
            None => if clue_slot(e, hunt_id, (n - 1) as nat) == Some(clue_id) {
                Some((n - 1) as nat)
            } else {
                None
            },
        }
    }
}

/// The entries with slot `j` of `hunt_id`'s clue list given the id of slot
/// `j + 1`, or emptied when that slot holds none.
pub open spec fn clue_slot_moved_down(e: Map<Seq<u8>, Seq<u8>>, hunt_id: u64, j: nat) -> Map<Seq<u8>, Seq<u8>> {
    match clue_slot(e, hunt_id, j + 1) {
        Some(v) => e.insert(clue_entry_key(hunt_id, j as u32), u32_bytes(v)),
        None => e.remove(clue_entry_key(hunt_id, j as u32)),
    }
}

/// The entries after slots `p` to `n - 2` of `hunt_id`'s clue list, in
/// that order, each took the id of the slot after it.
pub open spec fn clue_slots_shifted(e: Map<Seq<u8>, Seq<u8>>, hunt_id: u64, p: nat, n: nat) -> Map<Seq<u8>, Seq<u8>>
    decreases n,
{
    if n <= p + 1 {
        e
    } else {
        clue_slot_moved_down(clue_slots_shifted(e, hunt_id, p, (n - 1) as nat), hunt_id, (n - 2) as nat)
    }
}

/// Shifting the slots of `hunt_id`'s clue list leaves every entry that is
/// not one of its slots as it was.
pub proof fn lemma_shift_keeps_other_entries(e: Map<Seq<u8>, Seq<u8>>, hunt_id: u64, p: nat, n: nat, k: Seq<u8>)
    requires
        forall|i: u32| k != #[trigger] clue_entry_key(hunt_id, i),
    ensures
        clue_slots_shifted(e, hunt_id, p, n).contains_key(k) == e.contains_key(k),
        e.contains_key(k) ==> clue_slots_shifted(e, hunt_id, p, n)[k] == e[k],
    decreases n,
{
    if n > p + 1 {
        lemma_shift_keeps_other_entries(e, hunt_id, p, (n - 1) as nat, k);
        assert(k != clue_entry_key(hunt_id, (n - 2) as nat as u32));
    }
}

/// The instance entries after `clue_id` is taken off `hunt_id`'s clue list:
/// when a slot below the length holds it, the slots after the first such one
/// move down one place keeping their order, the last slot is emptied, the
/// length shrinks by one and the marker is removed; otherwise nothing
/// changes.
pub open spec fn clue_unlisted(e: Map<Seq<u8>, Seq<u8>>, hunt_id: u64, clue_id: u32) -> Map<Seq<u8>, Seq<u8>> {
    let c = clue_count(e, hunt_id);
    match first_clue_slot(e, hunt_id, clue_id, c as nat) {
        None => e,
        Some(p) => clue_slots_shifted(e, hunt_id, p, c as nat).remove(
            clue_entry_key(hunt_id, (c - 1) as u32),
        ).insert(clue_count_key(hunt_id), u32_bytes((c - 1) as u32)).remove(
            clue_exists_key(hunt_id, clue_id),
        ),
    }
}

/// The stored progress of `player` in `hunt_id`, kept in the persistent
/// entries `e`, if there is one.
pub open spec fn stored_progress(e: Map<Seq<u8>, Seq<u8>>, hunt_id: u64, player: Seq<u8>) -> Option<StoredProgressModel> {
    if e.contains_key(progress_key(hunt_id, player)) {
        dec_progress(e[progress_key(hunt_id, player)])
    } else {
        None
    }
}

/// The length of `hunt_id`'s player list, 0 when none is kept.
pub open spec fn player_count(e: Map<Seq<u8>, Seq<u8>>, hunt_id: u64) -> u32 {
    u32_or_zero(stored_u32(e, player_count_key(hunt_id)))
}

/// The players listed for `hunt_id`: the slots below the list's length that
/// hold an address, in slot order.
pub open spec fn player_addresses(e: Map<Seq<u8>, Seq<u8>>, hunt_id: u64) -> Seq<Seq<u8>> {
    present_values(e, player_entries(hunt_id), as_address(), 0, player_count(e, hunt_id) as nat)
}

/// The keys of the slots of `hunt_id`'s player list.
pub open spec fn player_entries(hunt_id: u64) -> spec_fn(u32) -> Seq<u8> {
    |i: u32| player_entry_key(hunt_id, i)
}

/// A slot of a player list holds the address's bytes as they are.
pub open spec fn as_address() -> spec_fn(Seq<u8>) -> Option<Seq<u8>> {
    |b: Seq<u8>| Some(b)
}

/// The address kept in slot `i` of `hunt_id`'s player list, if any.
pub open spec fn player_slot(e: Map<Seq<u8>, Seq<u8>>, hunt_id: u64, i: nat) -> Option<Seq<u8>> {
    stored_address(e, player_entry_key(hunt_id, i as u32))
}

/// The persistent entries after `player` is added to `hunt_id`'s player
/// list: nothing changes when its marker is already there; otherwise it goes
/// into the slot at the list's end, the length grows by one, and the marker
/// is set.
pub open spec fn player_listed(e: Map<Seq<u8>, Seq<u8>>, hunt_id: u64, player: Seq<u8>) -> Map<Seq<u8>, Seq<u8>> {
    if e.contains_key(player_exists_key(hunt_id, player)) {
        e
    } else {
        let c = player_count(e, hunt_id);
        e.insert(player_entry_key(hunt_id, c), player).insert(
            player_count_key(hunt_id),
            u32_bytes((c + 1) as u32),
        ).insert(player_exists_key(hunt_id, player), marker())
    }
}

/// The progress of each of `players` in `hunt_id`, skipping players with
/// none kept.
pub open spec fn progresses_of(e: Map<Seq<u8>, Seq<u8>>, hunt_id: u64, players: Seq<Seq<u8>>) -> Seq<PlayerProgressModel>
    decreases players.len(),
{
    if players.len() == 0 {
        Seq::empty()
    } else {
        let prev = progresses_of(e, hunt_id, players.drop_last());
        match stored_progress(e, hunt_id, players.last()) {
            Some(s) => prev.push(with_key(s, players.last(), hunt_id)),
            None => prev,
        }
    }
}

/// The instance entries after `n` calls of `next_hunt_id`: each call stores
/// the counter plus one.
pub open spec fn hunt_ids_handed_out(e: Map<Seq<u8>, Seq<u8>>, n: nat) -> Map<Seq<u8>, Seq<u8>>
    decreases n,
{
    if n == 0 {
        e
    } else {
        let p = hunt_ids_handed_out(e, (n - 1) as nat);
        p.insert(counter_key(), u64_bytes((hunt_counter(p) + 1) as u64))
    }
}

/// The hunt counter counts the calls of `next_hunt_id`: after `n` of them
/// it has grown by `n` (from 0 in fresh storage).
pub proof fn law_hunt_counter_counts_calls(e: Map<Seq<u8>, Seq<u8>>, n: nat)
    requires
        hunt_counter(e) + n <= u64::MAX,
    ensures
        hunt_counter(hunt_ids_handed_out(e, n)) == hunt_counter(e) + n,
    decreases n,
{
    if n > 0 {
        law_hunt_counter_counts_calls(e, (n - 1) as nat);
        let p = hunt_ids_handed_out(e, (n - 1) as nat);
        crate::codec::lemma_u64_roundtrip((hunt_counter(p) + 1) as u64);
    }
}

/// Storage access layer for hunts, clues, and player progress.
/// Provides type-safe, efficient storage operations with consistent key management.
pub struct Storage;

impl Storage {
    /// Saves a Hunt struct with a unique key based on hunt_id.
    pub fn save_hunt(env: &mut Env, hunt: &Hunt)
        ensures
            instance_entries(*final(env)) == instance_entries(*old(env)).insert(
                hunt_key(hunt.hunt_id),
                hunt_bytes(hunt@),
            ),
            persistent_entries(*final(env)) == persistent_entries(*old(env)),
            stored_hunt(instance_entries(*final(env)), hunt.hunt_id) == Some(hunt@),
    {
        let key = hunt_key_bytes(hunt.hunt_id);
        let bytes = encode_hunt(hunt);
        instance_set(env, key.as_slice(), bytes.as_slice());
    }

    /// Retrieves a hunt by ID: `Some(Hunt)` if the hunt exists, `None`
    /// otherwise.
    pub fn get_hunt(env: &Env, hunt_id: u64) -> (res: Option<Hunt>)
        ensures
            match res {
                Some(h) => stored_hunt(instance_entries(*env), hunt_id) == Some(h@),
                None => stored_hunt(instance_entries(*env), hunt_id) is None,
            },
    {
        let key = hunt_key_bytes(hunt_id);
        match instance_get(env, key.as_slice()) {
            Some(b) => decode_hunt(b.as_slice()),
            None => None,
        }
    }

    /// Retrieves a hunt by ID or returns an error if not found.
    pub fn get_hunt_or_error(env: &Env, hunt_id: u64) -> (res: Result<Hunt, HuntError>)
        ensures
            match res {
                Ok(h) => stored_hunt(instance_entries(*env), hunt_id) == Some(h@),
                Err(e) => stored_hunt(instance_entries(*env), hunt_id) is None
                    && e == HuntError::HuntNotFound { hunt_id },
            },
    {
        match Self::get_hunt(env, hunt_id) {
            Some(h) => Ok(h),
            None => Err(HuntError::HuntNotFound { hunt_id }),
        }
    }

    /// Increments and returns the next hunt ID.
    /// This ensures unique, sequential hunt IDs (starting from 1).
    pub fn next_hunt_id(env: &mut Env) -> (res: u64)
        requires
            hunt_counter(instance_entries(*old(env))) < u64::MAX,
        ensures
            res == hunt_counter(instance_entries(*old(env))) + 1,
            instance_entries(*final(env)) == instance_entries(*old(env)).insert(
                counter_key(),
                u64_bytes(res),
            ),
            persistent_entries(*final(env)) == persistent_entries(*old(env)),
            hunt_counter(instance_entries(*final(env))) == res,
            instance_entries(*final(env)) == hunt_ids_handed_out(instance_entries(*old(env)), 1),
    {
        proof {
            assert(hunt_ids_handed_out(instance_entries(*old(env)), 0) == instance_entries(*old(env)));
        }
        let key = counter_key_slot();
        let current = match instance_slot_u64(env, &key) {
            Some(v) => v,
            None => 0,
        };
        let next = current + 1;
        set_instance_slot_u64(env, &key, next);
        proof {
            crate::codec::lemma_u64_roundtrip(next);
        }
        next
    }

    /// Gets the current hunt counter value without incrementing (0 if no
    /// hunts have been created).
    pub fn get_hunt_counter(env: &Env) -> (res: u64)
        ensures
            res == hunt_counter(instance_entries(*env)),
    {
        let key = counter_key_slot();
        match instance_slot_u64(env, &key) {
            Some(v) => v,
            None => 0,
        }
    }

    /// Increments and returns the next clue ID for a hunt.
    /// Clue IDs are sequential within each hunt, starting from 1.
    pub fn next_clue_id(env: &mut Env, hunt_id: u64) -> (res: u32)
        requires
            clue_counter(instance_entries(*old(env)), hunt_id) < u32::MAX,
        ensures
            res == clue_counter(instance_entries(*old(env)), hunt_id) + 1,
            instance_entries(*final(env)) == instance_entries(*old(env)).insert(
                clue_counter_key(hunt_id),
                u32_bytes(res),
            ),
            persistent_entries(*final(env)) == persistent_entries(*old(env)),
            clue_counter(instance_entries(*final(env)), hunt_id) == res,
    {
        let key = clue_counter_key_slot(hunt_id);
        let current = match instance_slot_u32(env, &key) {
            Some(v) => v,
            None => 0,
        };
        let next = current + 1;
        set_instance_slot_u32(env, &key, next);
        proof {
            crate::codec::lemma_u32_roundtrip(next);
        }
        next
    }

    /// Gets the current clue counter for a hunt without incrementing: the
    /// number of clues added so far for the hunt (0 if none).
    pub fn get_clue_counter(env: &Env, hunt_id: u64) -> (res: u32)
        ensures
            res == clue_counter(instance_entries(*env), hunt_id),
    {
        let key = clue_counter_key_slot(hunt_id);
        match instance_slot_u32(env, &key) {
            Some(v) => v,
            None => 0,
        }
    }

    pub fn set_reward_manager(env: &mut Env, address: &Address)
        ensures
            instance_entries(*final(env)) == instance_entries(*old(env)).insert(
                reward_manager_key(),
                address@,
            ),
            persistent_entries(*final(env)) == persistent_entries(*old(env)),
    {
        let key = reward_manager_key_bytes();
        set_instance_address(env, key.as_slice(), address);
    }

    pub fn get_reward_manager(env: &Env) -> (res: Option<Address>)
        ensures
            match res {
                Some(a) => stored_address(instance_entries(*env), reward_manager_key()) == Some(a@),
                None => stored_address(instance_entries(*env), reward_manager_key()) is None,
            },
    {
        let key = reward_manager_key_bytes();
        instance_address(env, key.as_slice())
    }

    /// Stores a clue using composite keys (hunt_id + clue_id).
    /// Also maintains a list of clue IDs for the hunt.
    pub fn save_clue(env: &mut Env, hunt_id: u64, clue: &Clue)
        requires
            !instance_entries(*old(env)).contains_key(clue_exists_key(hunt_id, clue.clue_id))
                ==> clue_count(instance_entries(*old(env)), hunt_id) < u32::MAX,
        ensures
            instance_entries(*final(env)) == clue_listed(
                instance_entries(*old(env)).insert(clue_key(hunt_id, clue.clue_id), clue_bytes(clue@)),
                hunt_id,
                clue.clue_id,
            ),
            persistent_entries(*final(env)) == persistent_entries(*old(env)),
            stored_clue(instance_entries(*final(env)), hunt_id, clue.clue_id) == Some(clue@),
    {
        let key = clue_key_bytes(hunt_id, clue.clue_id);
        let bytes = encode_clue(clue);
        proof {
            crate::keys::lemma_clue_key_distinct(hunt_id, clue.clue_id);
        }
        instance_set(env, key.as_slice(), bytes.as_slice());
        Self::add_clue_to_list(env, hunt_id, clue.clue_id);
    }

    /// Removes a clue and its per-hunt index entry.
    pub fn remove_clue(env: &mut Env, hunt_id: u64, clue_id: u32)
        ensures
            instance_entries(*final(env)) == clue_unlisted(
                instance_entries(*old(env)).remove(clue_key(hunt_id, clue_id)),
                hunt_id,
                clue_id,
            ),
            persistent_entries(*final(env)) == persistent_entries(*old(env)),
            stored_clue(instance_entries(*final(env)), hunt_id, clue_id) is None,
    {
        let key = clue_key_bytes(hunt_id, clue_id);
        proof {
            crate::keys::lemma_clue_key_distinct(hunt_id, clue_id);
            let e1 = instance_entries(*old(env)).remove(clue_key(hunt_id, clue_id));
            let c = clue_count(e1, hunt_id);
            if let Some(p) = first_clue_slot(e1, hunt_id, clue_id, c as nat) {
                lemma_shift_keeps_other_entries(e1, hunt_id, p, c as nat, clue_key(hunt_id, clue_id));
            }
        }
        instance_remove(env, key.as_slice());
        Self::remove_clue_from_list(env, hunt_id, clue_id);
    }

    /// Retrieves an individual clue by hunt_id and clue_id: `Some(Clue)` if
    /// the clue exists, `None` otherwise.
    pub fn get_clue(env: &Env, hunt_id: u64, clue_id: u32) -> (res: Option<Clue>)
        ensures
            match res {
                Some(c) => stored_clue(instance_entries(*env), hunt_id, clue_id) == Some(c@),
                None => stored_clue(instance_entries(*env), hunt_id, clue_id) is None,
            },
    {
        let key = clue_key_bytes(hunt_id, clue_id);
        match instance_get(env, key.as_slice()) {
            Some(b) => decode_clue(b.as_slice()),
            None => None,
        }
    }

    /// Retrieves a clue or returns an error if not found.
    pub fn get_clue_or_error(env: &Env, hunt_id: u64, clue_id: u32) -> (res: Result<Clue, HuntError>)
        ensures
            match res {
                Ok(c) => stored_clue(instance_entries(*env), hunt_id, clue_id) == Some(c@),
                Err(e) => stored_clue(instance_entries(*env), hunt_id, clue_id) is None
                    && e == HuntError::ClueNotFound { hunt_id },
            },
    {
        match Self::get_clue(env, hunt_id, clue_id) {
            Some(c) => Ok(c),
            None => Err(HuntError::ClueNotFound { hunt_id }),
        }
    }

    /// Returns all clues for a specific hunt, in clue_id order: the clues
    /// kept for the distinct ids of its clue list, taken in increasing id
    /// order.
    pub fn list_clues_for_hunt(env: &Env, hunt_id: u64) -> (res: Vec<Clue>)
        ensures
            res@.len() == clues_of(
                instance_entries(*env),
                hunt_id,
                ascending(clue_ids(instance_entries(*env), hunt_id)),
            ).len(),
            forall|i: int| 0 <= i < res@.len() ==> #[trigger] res@[i]@ == clues_of(
                instance_entries(*env),
                hunt_id,
                ascending(clue_ids(instance_entries(*env), hunt_id)),
            )[i],
            clues_keyed_by_id(instance_entries(*env), hunt_id) ==> forall|i: int, j: int|
                0 <= i < j < res@.len() ==> res@[i].clue_id < res@[j].clue_id,
            clues_keyed_by_id(instance_entries(*env), hunt_id) ==> forall|c: ClueModel|
                (exists|i: int| 0 <= i < res@.len() && #[trigger] res@[i]@ == c) <==> (clue_ids(
                    instance_entries(*env),
                    hunt_id,
                ).contains(c.clue_id) && stored_clue(instance_entries(*env), hunt_id, c.clue_id)
                    == Some(c)),
    {
        let ids = Self::get_clue_ids_for_hunt(env, hunt_id);
        let ghost e = instance_entries(*env);
        let ghost all = u32_items(ids);
        let n = u32_vec_len(&ids);
        let mut order: Vec<u32> = Vec::new();
        for i in 0..n
            invariant
                n == all.len(),
                all == u32_items(ids),
                u32_vec_typed(ids),
                order@ == ascending(all.take(i as int)),
                strictly_increasing(order@),
        {
            let x = match u32_vec_get(&ids, i) {
                Some(x) => x,
                None => 0,
            };
            let mut p: usize = 0;
            while p < order.len() && order[p] < x
                invariant
                    p <= order@.len(),
                    forall|k: int| 0 <= k < p ==> order@[k] < x,
                decreases order@.len() - p,
            {
                p = p + 1;
            }
            proof {
                assert(all.take(i + 1).drop_last() =~= all.take(i as int));
                assert(all.take(i + 1).last() == x);
                lemma_insert_at(order@, x, p as int);
                lemma_insert_sorted(order@, x);
            }
            if !(p < order.len() && order[p] == x) {
                order.insert(p, x);
            }
        }
        proof {
            assert(all.take(n as int) =~= all);
        }
        let ghost sorted_ids = order@;
        let mut clues: Vec<Clue> = Vec::new();
        let m = order.len();
        for i in 0..m
            invariant
                m == sorted_ids.len(),
                sorted_ids == order@,
                sorted_ids == ascending(all),
                strictly_increasing(sorted_ids),
                all == clue_ids(e, hunt_id),
                e == instance_entries(*env),
                clues@.len() == clues_of(e, hunt_id, sorted_ids.take(i as int)).len(),
                forall|j: int| 0 <= j < clues@.len() ==> #[trigger] clues@[j]@ == clues_of(
                    e,
                    hunt_id,
                    sorted_ids.take(i as int),
                )[j],
        {
            assert(sorted_ids.take(i + 1).drop_last() =~= sorted_ids.take(i as int));
            let clue_id = order[i];
            if let Some(clue) = Self::get_clue(env, hunt_id, clue_id) {
                clues.push(clue);
            }
        }
        proof {
            assert(sorted_ids.take(m as int) =~= sorted_ids);
            lemma_ascending(all);
            lemma_clues_of_keyed(e, hunt_id, sorted_ids);
            assert forall|c: ClueModel|
                (exists|i: int| 0 <= i < clues@.len() && #[trigger] clues@[i]@ == c) <==> (
                clues_of(e, hunt_id, sorted_ids).contains(c)) by {
                let cs = clues_of(e, hunt_id, sorted_ids);
                if exists|i: int| 0 <= i < clues@.len() && #[trigger] clues@[i]@ == c {
                    let i = choose|i: int| 0 <= i < clues@.len() && #[trigger] clues@[i]@ == c;
                    assert(cs[i] == c);
                }
                if cs.contains(c) {
                    let i = choose|i: int| 0 <= i < cs.len() && cs[i] == c;
                    assert(clues@[i]@ == c);
                }
            }
            if clues_keyed_by_id(e, hunt_id) {
                assert forall|c: ClueModel|
                    clues_of(e, hunt_id, sorted_ids).contains(c) <==> (all.contains(c.clue_id)
                        && stored_clue(e, hunt_id, c.clue_id) == Some(c)) by {
                    if clues_of(e, hunt_id, sorted_ids).contains(c) {
                        let k = choose|k: int|
                            0 <= k < sorted_ids.len() && stored_clue(e, hunt_id, #[trigger] sorted_ids[k]) == Some(c);
                        assert(sorted_ids.contains(sorted_ids[k]));
                    }
                    if all.contains(c.clue_id) && stored_clue(e, hunt_id, c.clue_id) == Some(c) {
                        assert(sorted_ids.contains(c.clue_id));
                        let k = choose|k: int| 0 <= k < sorted_ids.len() && sorted_ids[k] == c.clue_id;
                        assert(stored_clue(e, hunt_id, sorted_ids[k]) == Some(c));
                    }
                }
                let cs = clues_of(e, hunt_id, sorted_ids);
                assert forall|i: int, j: int|
                    0 <= i < j < clues@.len() implies clues@[i].clue_id < clues@[j].clue_id by {
                    assert(clues@[i]@ == cs[i]);
                    assert(clues@[j]@ == cs[j]);
                }
                assert forall|c: ClueModel|
                    (exists|i: int| 0 <= i < clues@.len() && #[trigger] clues@[i]@ == c) <==> (clue_ids(
                        instance_entries(*env),
                        hunt_id,
                    ).contains(c.clue_id) && stored_clue(instance_entries(*env), hunt_id, c.clue_id)
                        == Some(c)) by {
                    if exists|i: int| 0 <= i < clues@.len() && #[trigger] clues@[i]@ == c {
                        let i = choose|i: int| 0 <= i < clues@.len() && #[trigger] clues@[i]@ == c;
                        assert(cs[i] == c);
                        assert(cs.contains(c));
                        let k = choose|k: int|
                            0 <= k < sorted_ids.len() && stored_clue(e, hunt_id, #[trigger] sorted_ids[k]) == Some(c);
                        assert(c.clue_id == sorted_ids[k]);
                        assert(sorted_ids.contains(sorted_ids[k]));
                        assert(all.contains(c.clue_id));
                    }
                    if all.contains(c.clue_id) && stored_clue(e, hunt_id, c.clue_id) == Some(c) {
                        assert(sorted_ids.contains(c.clue_id));
                        let k = choose|k: int| 0 <= k < sorted_ids.len() && sorted_ids[k] == c.clue_id;
                        assert(stored_clue(e, hunt_id, sorted_ids[k]) == Some(c));
                        assert(cs.contains(c));
                        let i = choose|i: int| 0 <= i < cs.len() && cs[i] == c;
                        assert(clues@[i]@ == c);
                    }
                }
            }
        }
        clues
    }

    /// Adds a clue ID to the per-hunt clue index, unless it is there already.
    /// Each entry is stored at its own key so no single entry grows unboundedly.
    fn add_clue_to_list(env: &mut Env, hunt_id: u64, clue_id: u32)
        requires
            !instance_entries(*old(env)).contains_key(clue_exists_key(hunt_id, clue_id))
                ==> clue_count(instance_entries(*old(env)), hunt_id) < u32::MAX,
        ensures
            instance_entries(*final(env)) == clue_listed(instance_entries(*old(env)), hunt_id, clue_id),
            persistent_entries(*final(env)) == persistent_entries(*old(env)),
    {
        let count_key = clue_count_key_slot(hunt_id);
        let count = match instance_slot_u32(env, &count_key) {
            Some(c) => c,
            None => 0,
        };
        let exist_key = clue_exists_key_slot(hunt_id, clue_id);
        if instance_slot_has(env, &exist_key) {
            return;
        }
        let entry_key = clue_entry_key_slot(hunt_id, count);
        set_instance_slot_u32(env, &entry_key, clue_id);
        set_instance_slot_u32(env, &count_key, count + 1);
        instance_slot_set_unit(env, &exist_key);
    }

    /// Removes a clue ID from the per-hunt clue index, preserving remaining order.
    fn remove_clue_from_list(env: &mut Env, hunt_id: u64, clue_id: u32)
        ensures
            instance_entries(*final(env)) == clue_unlisted(instance_entries(*old(env)), hunt_id, clue_id),
            persistent_entries(*final(env)) == persistent_entries(*old(env)),
    {
        let ghost e0 = instance_entries(*env);
        let count_key = clue_count_key_slot(hunt_id);
        let count = match instance_slot_u32(env, &count_key) {
            Some(c) => c,
            None => 0,
        };
        let mut found = false;
        let ghost mut p: nat = 0;
        let mut i: u32 = 0;
        while i < count
            invariant
                i <= count,
                count == clue_count(e0, hunt_id),
                e0 == instance_entries(*old(env)),
                !found ==> first_clue_slot(e0, hunt_id, clue_id, i as nat) is None
                    && instance_entries(*env) == e0,
                found ==> first_clue_slot(e0, hunt_id, clue_id, i as nat) == Some(p) && p < i
                    && instance_entries(*env) == clue_slots_shifted(e0, hunt_id, p, i as nat),
                persistent_entries(*env) == persistent_entries(*old(env)),
            decreases count - i,
        {
            let entry_key = clue_entry_key_slot(hunt_id, i);
            if found {
                let prev_key = clue_entry_key_slot(hunt_id, i - 1);
                let ghost before = instance_entries(*env);
                match instance_slot_u32(env, &entry_key) {
                    Some(id) => set_instance_slot_u32(env, &prev_key, id),
                    None => instance_slot_remove(env, &prev_key),
                }
                proof {
                    assert((i - 1) as nat + 1 == i as nat);
                    assert(instance_entries(*env) == clue_slot_moved_down(before, hunt_id, (i - 1) as nat));
                }
            } else if instance_slot_u32(env, &entry_key) == Some(clue_id) {
                found = true;
                proof {
                    p = i as nat;
                }
            }
            i = i + 1;
        }
        if found {
            let new_count = count - 1;
            let last_key = clue_entry_key_slot(hunt_id, new_count);
            instance_slot_remove(env, &last_key);
            set_instance_slot_u32(env, &count_key, new_count);
            let exist_key = clue_exists_key_slot(hunt_id, clue_id);
            instance_slot_remove(env, &exist_key);
        }
    }

    /// Retrieves all clue IDs for a hunt by reading individual entries.
    fn get_clue_ids_for_hunt(env: &Env, hunt_id: u64) -> (res: soroban_sdk::Vec<u32>)
        ensures
            u32_items(res) == clue_ids(instance_entries(*env), hunt_id),
            u32_vec_typed(res),
    {
        let count_key = clue_count_key_slot(hunt_id);
        let count = match instance_slot_u32(env, &count_key) {
            Some(c) => c,
            None => 0,
        };
        let ghost e = instance_entries(*env);
        let mut ids = u32_vec_new(env);
        for i in 0..count
            invariant
                e == instance_entries(*env),
                count == clue_count(e, hunt_id),
                u32_items(ids) == present_values(e, clue_entries(hunt_id), as_u32(), 0, i as nat),
                u32_items(ids).len() <= i,
                u32_vec_typed(ids),
        {
            let entry_key = clue_entry_key_slot(hunt_id, i);
            if let Some(id) = instance_slot_u32(env, &entry_key) {
                u32_vec_push(&mut ids, id);
            }
        }
        ids
    }

    /// Stores player state/progress for a hunt (without the player and hunt,
    /// which are the key), and adds the player to the hunt's player list.
    pub fn save_player_progress(env: &mut Env, progress: &PlayerProgress)
        requires
            progress.wf(),
            !persistent_entries(*old(env)).contains_key(
                player_exists_key(progress.hunt_id, progress.player@),
            ) ==> player_count(persistent_entries(*old(env)), progress.hunt_id) < u32::MAX,
        ensures
            persistent_entries(*final(env)) == player_listed(
                persistent_entries(*old(env)).insert(
                    progress_key(progress.hunt_id, progress.player@),
                    progress_bytes(stored_part(progress@)),
                ),
                progress.hunt_id,
                progress.player@,
            ),
            stored_progress(persistent_entries(*final(env)), progress.hunt_id, progress.player@)
                == Some(stored_part(progress@)),
            instance_entries(*final(env)) == instance_entries(*old(env)),
    {
        let key = progress_key_bytes(progress.hunt_id, &progress.player);
        let stored = progress.to_stored();
        let bytes = encode_progress(&stored);
        proof {
            crate::keys::lemma_progress_key_distinct(progress.hunt_id, progress.player@);
        }
        persistent_set(env, key.as_slice(), bytes.as_slice());
        Self::add_player_to_list(env, progress.hunt_id, &progress.player);
    }

    /// Retrieves player progress for a specific hunt and player: `Some` if
    /// progress exists, `None` otherwise.
    pub fn get_player_progress(env: &Env, hunt_id: u64, player: &Address) -> (res: Option<PlayerProgress>)
        ensures
            match res {
                Some(p) => stored_progress(persistent_entries(*env), hunt_id, player@) matches Some(s)
                    && p@ == with_key(s, player@, hunt_id) && p.wf(),
                None => stored_progress(persistent_entries(*env), hunt_id, player@) is None,
            },
    {
        let key = progress_key_bytes(hunt_id, player);
        match persistent_get(env, key.as_slice()) {
            Some(b) => match decode_progress(env, b.as_slice()) {
                Some(stored) => Some(PlayerProgress::from_stored(stored, player.clone(), hunt_id)),
                None => None,
            },
            None => None,
        }
    }

    /// Retrieves player progress or returns an error if the player is not
    /// registered.
    pub fn get_player_progress_or_error(env: &Env, hunt_id: u64, player: &Address) -> (res: Result<PlayerProgress, HuntError>)
        ensures
            match res {
                Ok(p) => stored_progress(persistent_entries(*env), hunt_id, player@) matches Some(s)
                    && p@ == with_key(s, player@, hunt_id) && p.wf(),
                Err(e) => stored_progress(persistent_entries(*env), hunt_id, player@) is None
                    && e == HuntError::PlayerNotRegistered { hunt_id },
            },
    {
        match Self::get_player_progress(env, hunt_id, player) {
            Some(p) => Ok(p),
            None => Err(HuntError::PlayerNotRegistered { hunt_id }),
        }
    }

    /// Returns the progress of every registered player of a hunt, in the
    /// order of its player list.
    pub fn get_hunt_players(env: &Env, hunt_id: u64) -> (res: Vec<PlayerProgress>)
        ensures
            res@.len() == progresses_of(
                persistent_entries(*env),
                hunt_id,
                player_addresses(persistent_entries(*env), hunt_id),
            ).len(),
            forall|i: int| 0 <= i < res@.len() ==> #[trigger] res@[i]@ == progresses_of(
                persistent_entries(*env),
                hunt_id,
                player_addresses(persistent_entries(*env), hunt_id),
            )[i],
    {
        let players = Self::get_player_addresses_for_hunt(env, hunt_id);
        let ghost e = persistent_entries(*env);
        let ghost all = Seq::new(players@.len(), |j: int| players@[j]@);
        let mut list: Vec<PlayerProgress> = Vec::new();
        let n = players.len();
        for i in 0..n
            invariant
                n == players@.len(),
                all == Seq::new(players@.len(), |j: int| players@[j]@),
                e == persistent_entries(*env),
                list@.len() == progresses_of(e, hunt_id, all.take(i as int)).len(),
                forall|j: int| 0 <= j < list@.len() ==> #[trigger] list@[j]@ == progresses_of(
                    e,
                    hunt_id,
                    all.take(i as int),
                )[j],
        {
            assert(all.take(i + 1).drop_last() =~= all.take(i as int));
            assert(all.take(i + 1).last() == players@[i as int]@);
            if let Some(progress) = Self::get_player_progress(env, hunt_id, &players[i]) {
                list.push(progress);
            }
        }
        assert(all.take(n as int) =~= all);
        list
    }

    /// Adds a player address to the per-hunt player index, unless it is
    /// there already. Each entry is stored at its own key so no single entry
    /// grows unboundedly.
    fn add_player_to_list(env: &mut Env, hunt_id: u64, player: &Address)
        requires
            !persistent_entries(*old(env)).contains_key(player_exists_key(hunt_id, player@))
                ==> player_count(persistent_entries(*old(env)), hunt_id) < u32::MAX,
        ensures
            persistent_entries(*final(env)) == player_listed(
                persistent_entries(*old(env)),
                hunt_id,
                player@,
            ),
            instance_entries(*final(env)) == instance_entries(*old(env)),
    {
        let count_key = player_count_key_slot(hunt_id);
        let count = match persistent_slot_u32(env, &count_key) {
            Some(c) => c,
            None => 0,
        };
        let exist_key = player_exists_key_bytes(hunt_id, player);
        if persistent_has(env, exist_key.as_slice()) {
            return;
        }
        let entry_key = player_entry_key_bytes(hunt_id, count);
        set_persistent_address(env, entry_key.as_slice(), player);
        set_persistent_slot_u32(env, &count_key, count + 1);
        set_persistent_marker(env, exist_key.as_slice());
    }

    /// Retrieves all player addresses for a hunt by reading individual entries.
    fn get_player_addresses_for_hunt(env: &Env, hunt_id: u64) -> (res: Vec<Address>)
        ensures
            Seq::new(res@.len(), |j: int| res@[j]@) == player_addresses(persistent_entries(*env), hunt_id),
    {
        let count_key = player_count_key_slot(hunt_id);
        let count = match persistent_slot_u32(env, &count_key) {
            Some(c) => c,
            None => 0,
        };
        let ghost e = persistent_entries(*env);
        let mut addrs: Vec<Address> = Vec::new();
        for i in 0..count
            invariant
                e == persistent_entries(*env),
                count == player_count(e, hunt_id),
                Seq::new(addrs@.len(), |j: int| addrs@[j]@) == present_values(
                    e,
                    player_entries(hunt_id),
                    as_address(),
                    0,
                    i as nat,
                ),
        {
            let entry_key = player_entry_key_bytes(hunt_id, i);
            let ghost prev = Seq::new(addrs@.len(), |j: int| addrs@[j]@);
            if let Some(addr) = persistent_address(env, entry_key.as_slice()) {
                addrs.push(addr);
                assert(Seq::new(addrs@.len(), |j: int| addrs@[j]@) =~= prev.push(addr@));
            }
        }
        addrs
    }
}

} // verus!

//! What the per-owner NFT lists and the per-hunt player lists promise:
//! adding a member that is not listed appends it and keeps the list well
//! formed, and adding one that is listed changes nothing.
use crate::codec::{lemma_u32_roundtrip, lemma_u64_roundtrip};
use crate::hunt_storage::{
    as_address, player_addresses, player_count, player_entries, player_listed, player_slot,
    progresses_of, stored_progress,
};
use crate::progress::{stored_part, with_key, PlayerProgressModel};
use crate::records::dec_progress;
use crate::keys::{
    lemma_owner_nft_keys_of_other_owner, lemma_owner_nft_list_keys, lemma_player_list_keys,
    lemma_player_list_keys_of_other_hunt, lemma_progress_key_of_other_hunt, lemma_progress_key_distinct,
    owner_nft_count_key, owner_nft_entry_key, owner_nft_exists_key, player_count_key, player_entry_key,
    player_exists_key, progress_key, lemma_progress_key_injective,
};
use crate::nft_storage::{as_u64, owner_nft_count, owner_nft_entries, owner_nft_listed, owner_nft_slot, owner_nfts};
use crate::slots::{lemma_present_values_all, lemma_present_values_frame};
use vstd::prelude::*;

verus! {

/// The NFT list of `owner` is well formed: every slot below its length
/// holds an id, no id is in two slots, and the marker of an id is kept
/// exactly when a slot holds it.
pub open spec fn owner_nft_list_wf(e: Map<Seq<u8>, Seq<u8>>, owner: Seq<u8>) -> bool {
    let c = owner_nft_count(e, owner);
    &&& forall|i: nat| i < c ==> (#[trigger] owner_nft_slot(e, owner, i)) is Some
    &&& forall|i: nat, j: nat|
        #![trigger owner_nft_slot(e, owner, i), owner_nft_slot(e, owner, j)]
        i < j < c ==> owner_nft_slot(e, owner, i) != owner_nft_slot(e, owner, j)
    &&& forall|id: u64|
        e.contains_key(#[trigger] owner_nft_exists_key(owner, id)) <==> exists|i: nat|
            i < c && #[trigger] owner_nft_slot(e, owner, i) == Some(id)
}

/// The ids of an owner's list whose slots all hold an id are those of its
/// slots.
proof fn lemma_owner_nfts_are_slots(e: Map<Seq<u8>, Seq<u8>>, owner: Seq<u8>)
    requires
        forall|i: nat| i < owner_nft_count(e, owner) ==> (#[trigger] owner_nft_slot(e, owner, i)) is Some,
    ensures
        owner_nfts(e, owner) == Seq::new(
            owner_nft_count(e, owner) as nat,
            |k: int| owner_nft_slot(e, owner, k as nat)->0,
        ),
{
    let c = owner_nft_count(e, owner) as nat;
    assert forall|i: nat| 0 <= i < c implies e.contains_key(
        #[trigger] owner_nft_entries(owner)(i as u32),
    ) && as_u64()(e[owner_nft_entries(owner)(i as u32)]) is Some by {
        assert(owner_nft_slot(e, owner, i) is Some);
    }
    lemma_present_values_all(e, owner_nft_entries(owner), as_u64(), 0, c);
    assert(owner_nfts(e, owner) =~= Seq::new(c, |k: int| owner_nft_slot(e, owner, k as nat)->0));
}

/// Adding an id that a well-formed owner list does not hold appends it at
/// the end and keeps the list well formed.
pub proof fn law_add_nft_to_owner_appends(e: Map<Seq<u8>, Seq<u8>>, owner: Seq<u8>, nft_id: u64)
    requires
        owner.len() <= u64::MAX,
        owner_nft_list_wf(e, owner),
        !owner_nfts(e, owner).contains(nft_id),
        owner_nft_count(e, owner) < u32::MAX,
    ensures
        owner_nfts(owner_nft_listed(e, owner, nft_id), owner) == owner_nfts(e, owner).push(nft_id),
        owner_nft_list_wf(owner_nft_listed(e, owner, nft_id), owner),
{
    let c = owner_nft_count(e, owner);
    lemma_owner_nfts_are_slots(e, owner);
    lemma_owner_nft_list_keys(owner);
    let ids = owner_nfts(e, owner);
    assert(!e.contains_key(owner_nft_exists_key(owner, nft_id))) by {
        if e.contains_key(owner_nft_exists_key(owner, nft_id)) {
            let i = choose|i: nat| i < c && #[trigger] owner_nft_slot(e, owner, i) == Some(nft_id);
            assert(ids[i as int] == nft_id);
        }
    }
    let e2 = owner_nft_listed(e, owner, nft_id);
    lemma_u32_roundtrip((c + 1) as u32);
    lemma_u64_roundtrip(nft_id);
    assert(owner_nft_count(e2, owner) == c + 1);
    assert forall|i: nat| i < c implies #[trigger] owner_nft_slot(e2, owner, i) == owner_nft_slot(e, owner, i) by {
        assert(owner_nft_entry_key(owner, i as u32) != owner_nft_entry_key(owner, c));
    }
    assert(owner_nft_slot(e2, owner, c as nat) == Some(nft_id));
    assert forall|i: nat| i < c + 1 implies (#[trigger] owner_nft_slot(e2, owner, i)) is Some by {
        if i < c {
            assert(owner_nft_slot(e2, owner, i) == owner_nft_slot(e, owner, i));
        }
    }
    lemma_owner_nfts_are_slots(e2, owner);
    assert forall|k: nat| k < c implies #[trigger] owner_nft_slot(e, owner, k) != Some(nft_id) by {
        assert(ids[k as int] == owner_nft_slot(e, owner, k)->0);
    }
    assert(owner_nfts(e2, owner) =~= ids.push(nft_id)) by {
        assert forall|k: int| 0 <= k < c + 1 implies owner_nfts(e2, owner)[k] == ids.push(nft_id)[k] by {
            if k < c {
                assert(owner_nft_slot(e2, owner, k as nat) == owner_nft_slot(e, owner, k as nat));
            }
        }
    }
    assert forall|i: nat, j: nat|
        #![trigger owner_nft_slot(e2, owner, i), owner_nft_slot(e2, owner, j)]
        i < j < c + 1 implies owner_nft_slot(e2, owner, i) != owner_nft_slot(e2, owner, j) by {
        assert(owner_nft_slot(e2, owner, i) == owner_nft_slot(e, owner, i));
        if j < c {
            assert(owner_nft_slot(e2, owner, j) == owner_nft_slot(e, owner, j));
        } else {
            assert(owner_nft_slot(e, owner, i) != Some(nft_id));
        }
    }
    assert forall|id: u64|
        e2.contains_key(#[trigger] owner_nft_exists_key(owner, id)) <==> exists|i: nat|
            i < c + 1 && #[trigger] owner_nft_slot(e2, owner, i) == Some(id) by {
        if id == nft_id {
            assert(owner_nft_slot(e2, owner, c as nat) == Some(id));
        } else {
            if e.contains_key(owner_nft_exists_key(owner, id)) {
                let i = choose|i: nat| i < c && #[trigger] owner_nft_slot(e, owner, i) == Some(id);
                assert(owner_nft_slot(e2, owner, i) == Some(id));
            }
            if exists|i: nat| i < c + 1 && #[trigger] owner_nft_slot(e2, owner, i) == Some(id) {
                let i = choose|i: nat| i < c + 1 && #[trigger] owner_nft_slot(e2, owner, i) == Some(id);
                assert(i < c);
                assert(owner_nft_slot(e, owner, i) == Some(id));
            }
        }
    }
}

/// Every owner has a list of their own: adding an NFT to one owner's list
/// leaves the list of every other owner exactly as it was.
pub proof fn law_add_nft_to_owner_keeps_other_owners(
    e: Map<Seq<u8>, Seq<u8>>,
    owner: Seq<u8>,
    other: Seq<u8>,
    nft_id: u64,
)
    requires
        owner != other,
        owner.len() <= u64::MAX,
        other.len() <= u64::MAX,
    ensures
        owner_nfts(owner_nft_listed(e, owner, nft_id), other) == owner_nfts(e, other),
{
    lemma_owner_nft_keys_of_other_owner(owner, other);
    if !e.contains_key(owner_nft_exists_key(owner, nft_id)) {
        let c = owner_nft_count(e, owner);
        let e2 = owner_nft_listed(e, owner, nft_id);
        assert(owner_nft_count_key(other) != owner_nft_entry_key(owner, c));
        assert(owner_nft_count(e2, other) == owner_nft_count(e, other));
        let n = owner_nft_count(e, other) as nat;
        assert forall|i: nat|
            0 <= i < n implies e2.contains_key(#[trigger] owner_nft_entries(other)(i as u32))
                == e.contains_key(owner_nft_entries(other)(i as u32)) && (e2.contains_key(
                owner_nft_entries(other)(i as u32),
            ) ==> e2[owner_nft_entries(other)(i as u32)] == e[owner_nft_entries(other)(i as u32)]) by {
            let k = owner_nft_entry_key(other, i as u32);
            assert(owner_nft_entry_key(owner, c) != k);
            assert(owner_nft_exists_key(owner, nft_id) != k);
            assert(owner_nft_count_key(owner) != k);
        }
        lemma_present_values_frame(e2, e, owner_nft_entries(other), as_u64(), 0, n);
    }
}

/// Every hunt has a player list of its own: adding a player to one hunt's
/// list leaves the list of every other hunt exactly as it was.
pub proof fn law_add_player_keeps_other_hunts(
    e: Map<Seq<u8>, Seq<u8>>,
    hunt_id: u64,
    other: u64,
    player: Seq<u8>,
)
    requires
        hunt_id != other,
    ensures
        player_addresses(player_listed(e, hunt_id, player), other) == player_addresses(e, other),
{
    lemma_player_list_keys_of_other_hunt(hunt_id, other);
    if !e.contains_key(player_exists_key(hunt_id, player)) {
        let c = player_count(e, hunt_id);
        let e2 = player_listed(e, hunt_id, player);
        assert(player_count_key(other) != player_entry_key(hunt_id, c));
        assert(player_count(e2, other) == player_count(e, other));
        let n = player_count(e, other) as nat;
        assert forall|i: nat|
            0 <= i < n implies e2.contains_key(#[trigger] player_entries(other)(i as u32))
                == e.contains_key(player_entries(other)(i as u32)) && (e2.contains_key(
                player_entries(other)(i as u32),
            ) ==> e2[player_entries(other)(i as u32)] == e[player_entries(other)(i as u32)]) by {
            let k = player_entry_key(other, i as u32);
            assert(player_entry_key(hunt_id, c) != k);
            assert(player_exists_key(hunt_id, player) != k);
            assert(player_count_key(hunt_id) != k);
        }
        lemma_present_values_frame(e2, e, player_entries(other), as_address(), 0, n);
    }
}

/// Adding an id that a well-formed owner list already holds changes
/// nothing.
pub proof fn law_add_listed_nft_to_owner_is_noop(e: Map<Seq<u8>, Seq<u8>>, owner: Seq<u8>, nft_id: u64)
    requires
        owner_nft_list_wf(e, owner),
        owner_nfts(e, owner).contains(nft_id),
    ensures
        owner_nft_listed(e, owner, nft_id) == e,
{
    lemma_owner_nfts_are_slots(e, owner);
    let ids = owner_nfts(e, owner);
    let k = choose|k: int| 0 <= k < ids.len() && ids[k] == nft_id;
    assert(owner_nft_slot(e, owner, k as nat) == Some(nft_id));
}

/// The player list of `hunt_id` is well formed: every slot below its length
/// holds an address that fits in a record, no address is in two slots, and
/// the marker of an address is kept exactly when a slot holds it.
pub open spec fn player_list_wf(e: Map<Seq<u8>, Seq<u8>>, hunt_id: u64) -> bool {
    let c = player_count(e, hunt_id);
    &&& forall|i: nat|
        i < c ==> (#[trigger] player_slot(e, hunt_id, i)) is Some && player_slot(e, hunt_id, i)->0.len()
            <= u64::MAX
    &&& forall|i: nat, j: nat|
        #![trigger player_slot(e, hunt_id, i), player_slot(e, hunt_id, j)]
        i < j < c ==> player_slot(e, hunt_id, i) != player_slot(e, hunt_id, j)
    &&& forall|q: Seq<u8>|
        q.len() <= u64::MAX ==> (e.contains_key(#[trigger] player_exists_key(hunt_id, q)) <==> exists|
            i: nat,
        | i < c && #[trigger] player_slot(e, hunt_id, i) == Some(q))
}

/// The players of a list whose slots all hold an address are those of its
/// slots.
proof fn lemma_players_are_slots(e: Map<Seq<u8>, Seq<u8>>, hunt_id: u64)
    requires
        forall|i: nat| i < player_count(e, hunt_id) ==> (#[trigger] player_slot(e, hunt_id, i)) is Some,
    ensures
        player_addresses(e, hunt_id) == Seq::new(
            player_count(e, hunt_id) as nat,
            |k: int| player_slot(e, hunt_id, k as nat)->0,
        ),
{
    let c = player_count(e, hunt_id) as nat;
    assert forall|i: nat| 0 <= i < c implies e.contains_key(
        #[trigger] player_entries(hunt_id)(i as u32),
    ) && as_address()(e[player_entries(hunt_id)(i as u32)]) is Some by {
        assert(player_slot(e, hunt_id, i) is Some);
    }
    lemma_present_values_all(e, player_entries(hunt_id), as_address(), 0, c);
    assert(player_addresses(e, hunt_id) =~= Seq::new(c, |k: int| player_slot(e, hunt_id, k as nat)->0));
}

/// Adding a player that a well-formed list does not hold appends it at the
/// end and keeps the list well formed.
pub proof fn law_add_player_appends(e: Map<Seq<u8>, Seq<u8>>, hunt_id: u64, player: Seq<u8>)
    requires
        player.len() <= u64::MAX,
        player_list_wf(e, hunt_id),
        !player_addresses(e, hunt_id).contains(player),
        player_count(e, hunt_id) < u32::MAX,
    ensures
        player_addresses(player_listed(e, hunt_id, player), hunt_id) == player_addresses(
            e,
            hunt_id,
        ).push(player),
        player_list_wf(player_listed(e, hunt_id, player), hunt_id),
{
    let c = player_count(e, hunt_id);
    lemma_players_are_slots(e, hunt_id);
    lemma_player_list_keys(hunt_id);
    let ps = player_addresses(e, hunt_id);
    assert(!e.contains_key(player_exists_key(hunt_id, player))) by {
        if e.contains_key(player_exists_key(hunt_id, player)) {
            let i = choose|i: nat| i < c && #[trigger] player_slot(e, hunt_id, i) == Some(player);
            assert(ps[i as int] == player);
        }
    }
    let e2 = player_listed(e, hunt_id, player);
    lemma_u32_roundtrip((c + 1) as u32);
    assert(player_count(e2, hunt_id) == c + 1);
    assert forall|i: nat| i < c implies #[trigger] player_slot(e2, hunt_id, i) == player_slot(e, hunt_id, i) by {
        assert(player_entry_key(hunt_id, i as u32) != player_entry_key(hunt_id, c));
    }
    assert(player_slot(e2, hunt_id, c as nat) == Some(player));
    assert forall|i: nat| i < c + 1 implies (#[trigger] player_slot(e2, hunt_id, i)) is Some
        && player_slot(e2, hunt_id, i)->0.len() <= u64::MAX by {
        if i < c {
            assert(player_slot(e2, hunt_id, i) == player_slot(e, hunt_id, i));
        }
    }
    lemma_players_are_slots(e2, hunt_id);
    assert forall|k: nat| k < c implies #[trigger] player_slot(e, hunt_id, k) != Some(player) by {
        assert(ps[k as int] == player_slot(e, hunt_id, k)->0);
    }
    assert(player_addresses(e2, hunt_id) =~= ps.push(player)) by {
        assert forall|k: int| 0 <= k < c + 1 implies player_addresses(e2, hunt_id)[k] == ps.push(player)[k] by {
            if k < c {
                assert(player_slot(e2, hunt_id, k as nat) == player_slot(e, hunt_id, k as nat));
            }
        }
    }
    assert forall|i: nat, j: nat|
        #![trigger player_slot(e2, hunt_id, i), player_slot(e2, hunt_id, j)]
        i < j < c + 1 implies player_slot(e2, hunt_id, i) != player_slot(e2, hunt_id, j) by {
        assert(player_slot(e2, hunt_id, i) == player_slot(e, hunt_id, i));
        if j < c {
            assert(player_slot(e2, hunt_id, j) == player_slot(e, hunt_id, j));
        } else {
            assert(player_slot(e, hunt_id, i) != Some(player));
        }
    }
    assert forall|q: Seq<u8>| q.len() <= u64::MAX implies (e2.contains_key(
        #[trigger] player_exists_key(hunt_id, q),
    ) <==> exists|i: nat| i < c + 1 && #[trigger] player_slot(e2, hunt_id, i) == Some(q)) by {
        if q == player {
            assert(player_slot(e2, hunt_id, c as nat) == Some(q));
        } else {
            assert(player_exists_key(hunt_id, q) != player_exists_key(hunt_id, player));
            if e.contains_key(player_exists_key(hunt_id, q)) {
                let i = choose|i: nat| i < c && #[trigger] player_slot(e, hunt_id, i) == Some(q);
                assert(player_slot(e2, hunt_id, i) == Some(q));
            }
            if exists|i: nat| i < c + 1 && #[trigger] player_slot(e2, hunt_id, i) == Some(q) {
                let i = choose|i: nat| i < c + 1 && #[trigger] player_slot(e2, hunt_id, i) == Some(q);
                assert(i < c);
                assert(player_slot(e, hunt_id, i) == Some(q));
            }
        }
    }
}

/// Adding a player that a well-formed list already holds changes nothing.
pub proof fn law_add_listed_player_is_noop(e: Map<Seq<u8>, Seq<u8>>, hunt_id: u64, player: Seq<u8>)
    requires
        player_list_wf(e, hunt_id),
        player_addresses(e, hunt_id).contains(player),
    ensures
        player_listed(e, hunt_id, player) == e,
{
    lemma_players_are_slots(e, hunt_id);
    let ps = player_addresses(e, hunt_id);
    let k = choose|k: int| 0 <= k < ps.len() && ps[k] == player;
    assert(player_slot(e, hunt_id, k as nat) == Some(player));
}

/// Writing an entry that is not one of `hunt_id`'s player list keys keeps
/// the list, and keeps it well formed if it was.
proof fn lemma_player_list_frame(e: Map<Seq<u8>, Seq<u8>>, hunt_id: u64, k: Seq<u8>, b: Seq<u8>)
    requires
        forall|h: u64, q: Seq<u8>| k != #[trigger] player_exists_key(h, q),
        forall|h: u64| k != #[trigger] player_count_key(h),
        forall|h: u64, i: u32| k != #[trigger] player_entry_key(h, i),
    ensures
        player_addresses(e.insert(k, b), hunt_id) == player_addresses(e, hunt_id),
        player_count(e.insert(k, b), hunt_id) == player_count(e, hunt_id),
        player_list_wf(e, hunt_id) ==> player_list_wf(e.insert(k, b), hunt_id),
{
    let e2 = e.insert(k, b);
    assert(k != player_count_key(hunt_id));
    assert forall|i: nat| #[trigger] player_slot(e2, hunt_id, i) == player_slot(e, hunt_id, i) by {
        assert(k != player_entry_key(hunt_id, i as u32));
    }
    assert forall|q: Seq<u8>| #[trigger] e2.contains_key(player_exists_key(hunt_id, q)) == e.contains_key(
        player_exists_key(hunt_id, q),
    ) by {
        assert(k != player_exists_key(hunt_id, q));
    }
    crate::slots::lemma_present_values_frame(
        e,
        e2,
        player_entries(hunt_id),
        as_address(),
        0,
        player_count(e, hunt_id) as nat,
    );
    if player_list_wf(e, hunt_id) {
        let c = player_count(e, hunt_id);
        assert forall|i: nat|
            i < c implies (#[trigger] player_slot(e2, hunt_id, i)) is Some && player_slot(e2, hunt_id, i)->0.len()
                <= u64::MAX by {
            assert(player_slot(e2, hunt_id, i) == player_slot(e, hunt_id, i));
        }
        assert forall|q: Seq<u8>| q.len() <= u64::MAX implies (e2.contains_key(
            #[trigger] player_exists_key(hunt_id, q),
        ) <==> exists|i: nat| i < c && #[trigger] player_slot(e2, hunt_id, i) == Some(q)) by {
            if e.contains_key(player_exists_key(hunt_id, q)) {
                let i = choose|i: nat| i < c && #[trigger] player_slot(e, hunt_id, i) == Some(q);
                assert(player_slot(e2, hunt_id, i) == Some(q));
            }
            if exists|i: nat| i < c && #[trigger] player_slot(e2, hunt_id, i) == Some(q) {
                let i = choose|i: nat| i < c && #[trigger] player_slot(e2, hunt_id, i) == Some(q);
                assert(player_slot(e, hunt_id, i) == Some(q));
            }
        }
        assert forall|i: nat, j: nat|
            #![trigger player_slot(e2, hunt_id, i), player_slot(e2, hunt_id, j)]
            i < j < c implies player_slot(e2, hunt_id, i) != player_slot(e2, hunt_id, j) by {
            assert(player_slot(e, hunt_id, i) != player_slot(e, hunt_id, j));
        }
    }
}

/// Saving a player's progress in a hunt with a well-formed player list,
/// whatever bytes the progress is kept as, lists the player once, at the
/// end when new, and the list stays well formed.
pub proof fn law_saved_progress_lists_player_once(
    e: Map<Seq<u8>, Seq<u8>>,
    hunt_id: u64,
    player: Seq<u8>,
    b: Seq<u8>,
)
    requires
        player.len() <= u64::MAX,
        player_list_wf(e, hunt_id),
        !player_addresses(e, hunt_id).contains(player) ==> player_count(e, hunt_id) < u32::MAX,
    ensures
        ({
            let e2 = player_listed(e.insert(progress_key(hunt_id, player), b), hunt_id, player);
            &&& player_addresses(e2, hunt_id) == (if player_addresses(e, hunt_id).contains(player) {
                player_addresses(e, hunt_id)
            } else {
                player_addresses(e, hunt_id).push(player)
            })
            &&& player_list_wf(e2, hunt_id)
        }),
{
    lemma_progress_key_distinct(hunt_id, player);
    let k = progress_key(hunt_id, player);
    let e1 = e.insert(k, b);
    lemma_player_list_frame(e, hunt_id, k, b);
    if player_addresses(e, hunt_id).contains(player) {
        law_add_listed_player_is_noop(e1, hunt_id, player);
    } else {
        law_add_player_appends(e1, hunt_id, player);
    }
}

/// In fresh storage every list is empty and well formed: the clue and NFT
/// lists of any hunt, the NFT list of any owner and the player list of any
/// hunt.
pub proof fn law_fresh_lists_are_well_formed(hunt_id: u64, owner: Seq<u8>)
    ensures
        crate::clue_list::clue_list_wf(Map::empty(), hunt_id),
        crate::nft_list::hunt_nft_list_wf(Map::empty(), hunt_id),
        owner_nft_list_wf(Map::empty(), owner),
        player_list_wf(Map::empty(), hunt_id),
        crate::hunt_storage::clue_ids(Map::empty(), hunt_id).len() == 0,
        crate::nft_storage::hunt_nfts(Map::empty(), hunt_id).len() == 0,
        owner_nfts(Map::empty(), owner).len() == 0,
        player_addresses(Map::empty(), hunt_id).len() == 0,
{
}

/// The progress list built from `players` names, in each entry, one of
/// `players`.
proof fn lemma_progresses_of_players(e: Map<Seq<u8>, Seq<u8>>, hunt_id: u64, players: Seq<Seq<u8>>)
    ensures
        forall|j: int|
            0 <= j < progresses_of(e, hunt_id, players).len() ==> players.contains(
                #[trigger] progresses_of(e, hunt_id, players)[j].player,
            ),
    decreases players.len(),
{
    if players.len() > 0 {
        let t = players.drop_last();
        lemma_progresses_of_players(e, hunt_id, t);
        let prev = progresses_of(e, hunt_id, t);
        let ps = progresses_of(e, hunt_id, players);
        assert forall|j: int| 0 <= j < ps.len() implies players.contains(#[trigger] ps[j].player) by {
            if j < prev.len() {
                assert(ps[j] == prev[j]);
                assert(t.contains(prev[j].player));
                let k = choose|k: int| 0 <= k < t.len() && t[k] == prev[j].player;
                assert(players[k] == t[k]);
            } else {
                assert(ps[j].player == players.last());
                assert(players[players.len() - 1] == players.last());
            }
        }
    }
}

/// When `players` holds no one twice, a listed player with stored progress
/// has exactly one entry in the progress list, and it is that progress.
proof fn lemma_progresses_of_once(e: Map<Seq<u8>, Seq<u8>>, hunt_id: u64, players: Seq<Seq<u8>>, x: Seq<u8>)
    requires
        forall|i: int, j: int| 0 <= i < j < players.len() ==> players[i] != players[j],
        players.contains(x),
        stored_progress(e, hunt_id, x) is Some,
    ensures
        exists|i: int|
            0 <= i < progresses_of(e, hunt_id, players).len() && #[trigger] progresses_of(
                e,
                hunt_id,
                players,
            )[i] == with_key(stored_progress(e, hunt_id, x)->0, x, hunt_id) && forall|j: int|
                0 <= j < progresses_of(e, hunt_id, players).len() && j != i ==> progresses_of(
                    e,
                    hunt_id,
                    players,
                )[j].player != x,
    decreases players.len(),
{
    let t = players.drop_last();
    let prev = progresses_of(e, hunt_id, t);
    let ps = progresses_of(e, hunt_id, players);
    let w = with_key(stored_progress(e, hunt_id, x)->0, x, hunt_id);
    if players.last() == x {
        lemma_progresses_of_players(e, hunt_id, t);
        assert(!t.contains(x)) by {
            if t.contains(x) {
                let k = choose|k: int| 0 <= k < t.len() && t[k] == x;
                assert(players[k] == players[players.len() - 1]);
            }
        }
        let i = prev.len() as int;
        assert(ps[i] == w);
        assert forall|j: int| 0 <= j < ps.len() && j != i implies ps[j].player != x by {
            assert(ps[j] == prev[j]);
            assert(t.contains(prev[j].player));
        }
    } else {
        assert(t.contains(x)) by {
            let k = choose|k: int| 0 <= k < players.len() && players[k] == x;
            assert(k != players.len() - 1);
            assert(t[k] == x);
        }
        lemma_progresses_of_once(e, hunt_id, t, x);
        let i = choose|i: int|
            0 <= i < prev.len() && #[trigger] prev[i] == w && forall|j: int|
                0 <= j < prev.len() && j != i ==> prev[j].player != x;
        assert(ps[i] == w);
        assert forall|j: int| 0 <= j < ps.len() && j != i implies ps[j].player != x by {
            if j < prev.len() {
                assert(ps[j] == prev[j]);
            } else {
                assert(ps[j].player == players.last());
            }
        }
    }
}

/// Saving a player's progress in a hunt with a well-formed player list,
/// whatever bytes decoding to it are kept: the hunt's progress list then
/// has exactly one entry for the player, and it is the saved progress; the
/// progress of every other player is as it was.
pub proof fn law_saved_progress_is_listed_once(
    e: Map<Seq<u8>, Seq<u8>>,
    p: PlayerProgressModel,
    b: Seq<u8>,
)
    requires
        p.player.len() <= u64::MAX,
        player_list_wf(e, p.hunt_id),
        !player_addresses(e, p.hunt_id).contains(p.player) ==> player_count(e, p.hunt_id) < u32::MAX,
        dec_progress(b) == Some(stored_part(p)),
    ensures
        ({
            let h = p.hunt_id;
            let e2 = player_listed(e.insert(progress_key(h, p.player), b), h, p.player);
            let ps = progresses_of(e2, h, player_addresses(e2, h));
            &&& exists|i: int|
                0 <= i < ps.len() && #[trigger] ps[i] == p && forall|j: int|
                    0 <= j < ps.len() && j != i ==> ps[j].player != p.player
            &&& forall|q: Seq<u8>|
                q != p.player && q.len() <= u64::MAX ==> #[trigger] stored_progress(e2, h, q)
                    == stored_progress(e, h, q)
        }),
{
    let h = p.hunt_id;
    let k = progress_key(h, p.player);
    let e1 = e.insert(k, b);
    let e2 = player_listed(e1, h, p.player);
    law_saved_progress_lists_player_once(e, h, p.player, b);
    lemma_progress_key_distinct(h, p.player);
    assert(stored_progress(e2, h, p.player) == Some(stored_part(p)));
    let players = player_addresses(e2, h);
    lemma_players_are_slots(e2, h);
    assert forall|i: int, j: int| 0 <= i < j < players.len() implies players[i] != players[j] by {
        assert(player_slot(e2, h, i as nat) != player_slot(e2, h, j as nat));
    }
    assert(players.contains(p.player)) by {
        if player_addresses(e, h).contains(p.player) {
            let j = choose|j: int| 0 <= j < player_addresses(e, h).len() && player_addresses(e, h)[j] == p.player;
            assert(players[j] == p.player);
        } else {
            assert(players[players.len() - 1] == p.player);
        }
    }
    lemma_progresses_of_once(e2, h, players, p.player);
    assert(with_key(stored_part(p), p.player, h) == p);
    assert forall|q: Seq<u8>|
        q != p.player && q.len() <= u64::MAX implies #[trigger] stored_progress(e2, h, q)
            == stored_progress(e, h, q) by {
        lemma_progress_key_distinct(h, q);
        lemma_progress_key_injective(h, q, p.player);
    }
}

/// Saving a player's progress in one hunt touches nothing of another hunt:
/// the progress of every player there, and its player list, stay as they
/// were.
pub proof fn law_saved_progress_keeps_other_hunts(
    e: Map<Seq<u8>, Seq<u8>>,
    p: PlayerProgressModel,
    b: Seq<u8>,
    other: u64,
    q: Seq<u8>,
)
    requires
        p.player.len() <= u64::MAX,
        q.len() <= u64::MAX,
        other != p.hunt_id,
    ensures
        ({
            let h = p.hunt_id;
            let e2 = player_listed(e.insert(progress_key(h, p.player), b), h, p.player);
            &&& stored_progress(e2, other, q) == stored_progress(e, other, q)
            &&& player_addresses(e2, other) == player_addresses(e, other)
        }),
{
    let h = p.hunt_id;
    let k = progress_key(h, p.player);
    let e1 = e.insert(k, b);
    lemma_progress_key_of_other_hunt(h, p.player, other, q);
    lemma_progress_key_distinct(other, q);
    lemma_progress_key_distinct(h, p.player);
    lemma_player_list_frame(e, other, k, b);
    law_add_player_keeps_other_hunts(e1, h, other, p.player);
}

} // verus!

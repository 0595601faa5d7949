//! What the NFT contract's per-hunt NFT list promises: adding an id that is
//! not listed appends it, adding one that is listed changes nothing,
//! removing one moves the last id into its place, and a page of the list is
//! a window of it; and what the list of all minted ids holds.
use crate::codec::{lemma_u32_roundtrip, lemma_u64_roundtrip};
use crate::keys::{
    hunt_nft_count_key, hunt_nft_entry_key, hunt_nft_exists_key, lemma_hunt_nft_list_keys,
    lemma_hunt_nft_list_keys_of_other_hunt, nft_key,
};
use crate::nft_storage::{
    as_u64, first_hunt_nft_slot, hunt_nft_count, hunt_nft_entries, hunt_nft_listed, hunt_nft_page,
    hunt_nft_slot, hunt_nft_unlisted, hunt_nfts, hunt_nfts_between, minted_ids_upto,
};
use crate::slots::{lemma_present_values_all, lemma_present_values_frame};
use vstd::prelude::*;

verus! {

/// The NFT list of `hunt_id` is well formed: every slot below its length
/// holds an id, no id is in two slots, and the marker of an id is kept
/// exactly when a slot holds it.
pub open spec fn hunt_nft_list_wf(e: Map<Seq<u8>, Seq<u8>>, hunt_id: u64) -> bool {
    let c = hunt_nft_count(e, hunt_id);
    &&& forall|i: nat| i < c ==> (#[trigger] hunt_nft_slot(e, hunt_id, i)) is Some
    &&& forall|i: nat, j: nat|
        #![trigger hunt_nft_slot(e, hunt_id, i), hunt_nft_slot(e, hunt_id, j)]
        i < j < c ==> hunt_nft_slot(e, hunt_id, i) != hunt_nft_slot(e, hunt_id, j)
    &&& forall|id: u64|
        e.contains_key(#[trigger] hunt_nft_exists_key(hunt_id, id)) <==> exists|i: nat|
            i < c && #[trigger] hunt_nft_slot(e, hunt_id, i) == Some(id)
}

/// The slots `lo` to `hi - 1` of a list whose slots all hold an id are those
/// ids, in order.
proof fn lemma_between_are_slots(e: Map<Seq<u8>, Seq<u8>>, hunt_id: u64, lo: nat, hi: nat)
    requires
        lo <= hi <= hunt_nft_count(e, hunt_id),
        forall|i: nat| i < hunt_nft_count(e, hunt_id) ==> (#[trigger] hunt_nft_slot(e, hunt_id, i)) is Some,
    ensures
        hunt_nfts_between(e, hunt_id, lo, hi) == Seq::new(
            (hi - lo) as nat,
            |k: int| hunt_nft_slot(e, hunt_id, (lo + k) as nat)->0,
        ),
{
    assert forall|i: nat| lo <= i < hi implies e.contains_key(
        #[trigger] hunt_nft_entries(hunt_id)(i as u32),
    ) && as_u64()(e[hunt_nft_entries(hunt_id)(i as u32)]) is Some by {
        assert(hunt_nft_slot(e, hunt_id, i) is Some);
    }
    lemma_present_values_all(e, hunt_nft_entries(hunt_id), as_u64(), lo, hi);
    assert(hunt_nfts_between(e, hunt_id, lo, hi) =~= Seq::new(
        (hi - lo) as nat,
        |k: int| hunt_nft_slot(e, hunt_id, (lo + k) as nat)->0,
    ));
}

/// The ids of a list whose slots all hold an id are those of its slots.
proof fn lemma_nfts_are_slots(e: Map<Seq<u8>, Seq<u8>>, hunt_id: u64)
    requires
        forall|i: nat| i < hunt_nft_count(e, hunt_id) ==> (#[trigger] hunt_nft_slot(e, hunt_id, i)) is Some,
    ensures
        hunt_nfts(e, hunt_id) == Seq::new(
            hunt_nft_count(e, hunt_id) as nat,
            |k: int| hunt_nft_slot(e, hunt_id, k as nat)->0,
        ),
{
    let c = hunt_nft_count(e, hunt_id) as nat;
    lemma_between_are_slots(e, hunt_id, 0, c);
    assert(hunt_nfts(e, hunt_id) =~= Seq::new(c, |k: int| hunt_nft_slot(e, hunt_id, k as nat)->0));
}

/// Adding an id that a well-formed list does not hold appends it at the end
/// and keeps the list well formed.
pub proof fn law_add_nft_to_hunt_appends(e: Map<Seq<u8>, Seq<u8>>, hunt_id: u64, nft_id: u64)
    requires
        hunt_nft_list_wf(e, hunt_id),
        !hunt_nfts(e, hunt_id).contains(nft_id),
        hunt_nft_count(e, hunt_id) < u32::MAX,
    ensures
        hunt_nfts(hunt_nft_listed(e, hunt_id, nft_id), hunt_id) == hunt_nfts(e, hunt_id).push(nft_id),
        hunt_nft_list_wf(hunt_nft_listed(e, hunt_id, nft_id), hunt_id),
{
    let c = hunt_nft_count(e, hunt_id);
    lemma_nfts_are_slots(e, hunt_id);
    lemma_hunt_nft_list_keys(hunt_id);
    let ids = hunt_nfts(e, hunt_id);
    assert(!e.contains_key(hunt_nft_exists_key(hunt_id, nft_id))) by {
        if e.contains_key(hunt_nft_exists_key(hunt_id, nft_id)) {
            let i = choose|i: nat| i < c && #[trigger] hunt_nft_slot(e, hunt_id, i) == Some(nft_id);
            assert(ids[i as int] == nft_id);
        }
    }
    let e2 = hunt_nft_listed(e, hunt_id, nft_id);
    lemma_u32_roundtrip((c + 1) as u32);
    lemma_u64_roundtrip(nft_id);
    assert(hunt_nft_count(e2, hunt_id) == c + 1);
    assert forall|i: nat| i < c implies #[trigger] hunt_nft_slot(e2, hunt_id, i) == hunt_nft_slot(e, hunt_id, i) by {
        assert(hunt_nft_entry_key(hunt_id, i as u32) != hunt_nft_entry_key(hunt_id, c));
    }
    assert(hunt_nft_slot(e2, hunt_id, c as nat) == Some(nft_id));
    assert forall|i: nat| i < c + 1 implies (#[trigger] hunt_nft_slot(e2, hunt_id, i)) is Some by {
        if i < c {
            assert(hunt_nft_slot(e2, hunt_id, i) == hunt_nft_slot(e, hunt_id, i));
        }
    }
    lemma_nfts_are_slots(e2, hunt_id);
    assert forall|k: nat| k < c implies #[trigger] hunt_nft_slot(e, hunt_id, k) != Some(nft_id) by {
        assert(ids[k as int] == hunt_nft_slot(e, hunt_id, k)->0);
    }
    assert(hunt_nfts(e2, hunt_id) =~= ids.push(nft_id)) by {
        assert forall|k: int| 0 <= k < c + 1 implies hunt_nfts(e2, hunt_id)[k] == ids.push(nft_id)[k] by {
            if k < c {
                assert(hunt_nft_slot(e2, hunt_id, k as nat) == hunt_nft_slot(e, hunt_id, k as nat));
            }
        }
    }
    assert forall|i: nat, j: nat|
        #![trigger hunt_nft_slot(e2, hunt_id, i), hunt_nft_slot(e2, hunt_id, j)]
        i < j < c + 1 implies hunt_nft_slot(e2, hunt_id, i) != hunt_nft_slot(e2, hunt_id, j) by {
        assert(hunt_nft_slot(e2, hunt_id, i) == hunt_nft_slot(e, hunt_id, i));
        if j < c {
            assert(hunt_nft_slot(e2, hunt_id, j) == hunt_nft_slot(e, hunt_id, j));
        } else {
            assert(hunt_nft_slot(e, hunt_id, i) != Some(nft_id));
        }
    }
    assert forall|id: u64|
        e2.contains_key(#[trigger] hunt_nft_exists_key(hunt_id, id)) <==> exists|i: nat|
            i < c + 1 && #[trigger] hunt_nft_slot(e2, hunt_id, i) == Some(id) by {
        if id == nft_id {
            assert(hunt_nft_slot(e2, hunt_id, c as nat) == Some(id));
        } else {
            if e.contains_key(hunt_nft_exists_key(hunt_id, id)) {
                let i = choose|i: nat| i < c && #[trigger] hunt_nft_slot(e, hunt_id, i) == Some(id);
                assert(hunt_nft_slot(e2, hunt_id, i) == Some(id));
            }
            if exists|i: nat| i < c + 1 && #[trigger] hunt_nft_slot(e2, hunt_id, i) == Some(id) {
                let i = choose|i: nat| i < c + 1 && #[trigger] hunt_nft_slot(e2, hunt_id, i) == Some(id);
                assert(i < c);
                assert(hunt_nft_slot(e, hunt_id, i) == Some(id));
            }
        }
    }
}

/// Every hunt has an NFT list of its own: adding an NFT to one hunt's list
/// leaves the list of every other hunt exactly as it was.
pub proof fn law_add_nft_to_hunt_keeps_other_hunts(e: Map<Seq<u8>, Seq<u8>>, hunt_id: u64, other: u64, nft_id: u64)
    requires
        hunt_id != other,
    ensures
        hunt_nfts(hunt_nft_listed(e, hunt_id, nft_id), other) == hunt_nfts(e, other),
{
    lemma_hunt_nft_list_keys_of_other_hunt(hunt_id, other);
    if !e.contains_key(hunt_nft_exists_key(hunt_id, nft_id)) {
        let c = hunt_nft_count(e, hunt_id);
        let e2 = hunt_nft_listed(e, hunt_id, nft_id);
        assert(hunt_nft_count_key(other) != hunt_nft_entry_key(hunt_id, c));
        assert(hunt_nft_count(e2, other) == hunt_nft_count(e, other));
        let n = hunt_nft_count(e, other) as nat;
        assert forall|i: nat|
            0 <= i < n implies e2.contains_key(#[trigger] hunt_nft_entries(other)(i as u32))
                == e.contains_key(hunt_nft_entries(other)(i as u32)) && (e2.contains_key(
                hunt_nft_entries(other)(i as u32),
            ) ==> e2[hunt_nft_entries(other)(i as u32)] == e[hunt_nft_entries(other)(i as u32)]) by {
            let k = hunt_nft_entry_key(other, i as u32);
            assert(hunt_nft_entry_key(hunt_id, c) != k);
            assert(hunt_nft_exists_key(hunt_id, nft_id) != k);
            assert(hunt_nft_count_key(hunt_id) != k);
        }
        lemma_present_values_frame(e2, e, hunt_nft_entries(other), as_u64(), 0, n);
    }
}

/// Adding an id that a well-formed list already holds changes nothing.
pub proof fn law_add_listed_nft_to_hunt_is_noop(e: Map<Seq<u8>, Seq<u8>>, hunt_id: u64, nft_id: u64)
    requires
        hunt_nft_list_wf(e, hunt_id),
        hunt_nfts(e, hunt_id).contains(nft_id),
    ensures
        hunt_nft_listed(e, hunt_id, nft_id) == e,
{
    lemma_nfts_are_slots(e, hunt_id);
    let ids = hunt_nfts(e, hunt_id);
    let k = choose|k: int| 0 <= k < ids.len() && ids[k] == nft_id;
    assert(hunt_nft_slot(e, hunt_id, k as nat) == Some(nft_id));
}

/// In a well-formed list, the first slot that holds the id of slot `p` is
/// `p`.
proof fn lemma_first_nft_slot_is(e: Map<Seq<u8>, Seq<u8>>, hunt_id: u64, nft_id: u64, p: nat, n: nat)
    requires
        hunt_nft_list_wf(e, hunt_id),
        p < hunt_nft_count(e, hunt_id),
        n <= hunt_nft_count(e, hunt_id),
        hunt_nft_slot(e, hunt_id, p) == Some(nft_id),
    ensures
        first_hunt_nft_slot(e, hunt_id, nft_id, n) == (if p < n {
            Some(p)
        } else {
            None::<nat>
        }),
    decreases n,
{
    if n > 0 {
        lemma_first_nft_slot_is(e, hunt_id, nft_id, p, (n - 1) as nat);
        let i = (n - 1) as nat;
        if i != p {
            if i < p {
                assert(hunt_nft_slot(e, hunt_id, i) != hunt_nft_slot(e, hunt_id, p));
            } else {
                assert(hunt_nft_slot(e, hunt_id, p) != hunt_nft_slot(e, hunt_id, i));
            }
        }
    }
}

/// The entries after the id in slot `p` of a well-formed list is taken off:
/// the length shrinks by one, slot `p` takes the id of the last slot, and
/// only that id's marker goes.
proof fn lemma_unlisted_nft_slots(e: Map<Seq<u8>, Seq<u8>>, hunt_id: u64, p: nat)
    requires
        hunt_nft_list_wf(e, hunt_id),
        p < hunt_nft_count(e, hunt_id),
    ensures
        ({
            let c = hunt_nft_count(e, hunt_id);
            let id = hunt_nft_slot(e, hunt_id, p)->0;
            let e2 = hunt_nft_unlisted(e, hunt_id, id);
            &&& hunt_nft_count(e2, hunt_id) == c - 1
            &&& forall|j: nat|
                j < c - 1 ==> #[trigger] hunt_nft_slot(e2, hunt_id, j) == (if j == p {
                    hunt_nft_slot(e, hunt_id, (c - 1) as nat)
                } else {
                    hunt_nft_slot(e, hunt_id, j)
                })
            &&& forall|x: u64|
                x != id ==> #[trigger] e2.contains_key(hunt_nft_exists_key(hunt_id, x))
                    == e.contains_key(hunt_nft_exists_key(hunt_id, x))
            &&& !e2.contains_key(hunt_nft_exists_key(hunt_id, id))
        }),
{
    let c = hunt_nft_count(e, hunt_id);
    lemma_hunt_nft_list_keys(hunt_id);
    let id = hunt_nft_slot(e, hunt_id, p)->0;
    assert(e.contains_key(hunt_nft_exists_key(hunt_id, id))) by {
        assert(hunt_nft_slot(e, hunt_id, p) == Some(id));
    }
    lemma_first_nft_slot_is(e, hunt_id, id, p, c as nat);
    let last = (c - 1) as nat;
    let e2 = hunt_nft_unlisted(e, hunt_id, id);
    lemma_u32_roundtrip((c - 1) as u32);
    assert(hunt_nft_slot(e, hunt_id, last) is Some);
    lemma_u64_roundtrip(hunt_nft_slot(e, hunt_id, last)->0);
    assert(hunt_nft_count(e2, hunt_id) == c - 1);
    assert forall|j: nat| j < c - 1 implies #[trigger] hunt_nft_slot(e2, hunt_id, j) == (if j == p {
        hunt_nft_slot(e, hunt_id, last)
    } else {
        hunt_nft_slot(e, hunt_id, j)
    }) by {
        assert(hunt_nft_entry_key(hunt_id, j as u32) != hunt_nft_entry_key(hunt_id, last as u32));
        if j != p {
            assert(hunt_nft_entry_key(hunt_id, j as u32) != hunt_nft_entry_key(hunt_id, p as u32));
        }
    }
}

/// Removing an id that a well-formed list holds puts the last id in its
/// slot and shortens the list by one, and keeps the list well formed.
pub proof fn law_remove_nft_from_hunt_moves_last(e: Map<Seq<u8>, Seq<u8>>, hunt_id: u64, p: int)
    requires
        hunt_nft_list_wf(e, hunt_id),
        0 <= p < hunt_nfts(e, hunt_id).len(),
    ensures
        hunt_nfts(hunt_nft_unlisted(e, hunt_id, hunt_nfts(e, hunt_id)[p]), hunt_id) == hunt_nfts(
            e,
            hunt_id,
        ).update(p, hunt_nfts(e, hunt_id).last()).drop_last(),
        hunt_nft_list_wf(hunt_nft_unlisted(e, hunt_id, hunt_nfts(e, hunt_id)[p]), hunt_id),
{
    let c = hunt_nft_count(e, hunt_id);
    lemma_nfts_are_slots(e, hunt_id);
    let ids = hunt_nfts(e, hunt_id);
    let id = ids[p];
    assert(hunt_nft_slot(e, hunt_id, p as nat) == Some(id));
    lemma_unlisted_nft_slots(e, hunt_id, p as nat);
    let e2 = hunt_nft_unlisted(e, hunt_id, id);
    let last = (c - 1) as nat;
    assert forall|i: nat| i < c - 1 implies (#[trigger] hunt_nft_slot(e2, hunt_id, i)) is Some by {
        assert(hunt_nft_slot(e2, hunt_id, i) == (if i == p {
            hunt_nft_slot(e, hunt_id, last)
        } else {
            hunt_nft_slot(e, hunt_id, i)
        }));
    }
    lemma_nfts_are_slots(e2, hunt_id);
    assert(hunt_nfts(e2, hunt_id) =~= ids.update(p, ids.last()).drop_last()) by {
        assert forall|k: int| 0 <= k < c - 1 implies hunt_nfts(e2, hunt_id)[k] == ids.update(
            p,
            ids.last(),
        ).drop_last()[k] by {
            assert(hunt_nft_slot(e2, hunt_id, k as nat) == (if k == p {
                hunt_nft_slot(e, hunt_id, last)
            } else {
                hunt_nft_slot(e, hunt_id, k as nat)
            }));
        }
    }
    lemma_unlisted_nft_wf(e, hunt_id, p as nat);
}

/// The list left after the id in slot `p` of a well-formed list is taken
/// off is well formed.
proof fn lemma_unlisted_nft_wf(e: Map<Seq<u8>, Seq<u8>>, hunt_id: u64, p: nat)
    requires
        hunt_nft_list_wf(e, hunt_id),
        p < hunt_nft_count(e, hunt_id),
    ensures
        hunt_nft_list_wf(hunt_nft_unlisted(e, hunt_id, hunt_nft_slot(e, hunt_id, p)->0), hunt_id),
{
    let c = hunt_nft_count(e, hunt_id);
    let id = hunt_nft_slot(e, hunt_id, p)->0;
    let last = (c - 1) as nat;
    lemma_unlisted_nft_slots(e, hunt_id, p);
    let e2 = hunt_nft_unlisted(e, hunt_id, id);
    assert forall|i: nat| i < c - 1 implies (#[trigger] hunt_nft_slot(e2, hunt_id, i)) is Some by {
        assert(hunt_nft_slot(e2, hunt_id, i) == (if i == p {
            hunt_nft_slot(e, hunt_id, last)
        } else {
            hunt_nft_slot(e, hunt_id, i)
        }));
    }
    assert forall|i: nat, j: nat|
        #![trigger hunt_nft_slot(e2, hunt_id, i), hunt_nft_slot(e2, hunt_id, j)]
        i < j < c - 1 implies hunt_nft_slot(e2, hunt_id, i) != hunt_nft_slot(e2, hunt_id, j) by {
        let oi = if i == p { last } else { i };
        let oj = if j == p { last } else { j };
        assert(hunt_nft_slot(e2, hunt_id, i) == hunt_nft_slot(e, hunt_id, oi));
        assert(hunt_nft_slot(e2, hunt_id, j) == hunt_nft_slot(e, hunt_id, oj));
        if oi < oj {
            assert(hunt_nft_slot(e, hunt_id, oi) != hunt_nft_slot(e, hunt_id, oj));
        } else {
            assert(hunt_nft_slot(e, hunt_id, oj) != hunt_nft_slot(e, hunt_id, oi));
        }
    }
    assert forall|x: u64|
        e2.contains_key(#[trigger] hunt_nft_exists_key(hunt_id, x)) <==> exists|i: nat|
            i < c - 1 && #[trigger] hunt_nft_slot(e2, hunt_id, i) == Some(x) by {
        if x == id {
            if exists|i: nat| i < c - 1 && #[trigger] hunt_nft_slot(e2, hunt_id, i) == Some(x) {
                let i = choose|i: nat| i < c - 1 && #[trigger] hunt_nft_slot(e2, hunt_id, i) == Some(x);
                let oi = if i == p { last } else { i };
                assert(hunt_nft_slot(e2, hunt_id, i) == hunt_nft_slot(e, hunt_id, oi));
                if oi < p {
                    assert(hunt_nft_slot(e, hunt_id, oi) != hunt_nft_slot(e, hunt_id, p));
                } else {
                    assert(hunt_nft_slot(e, hunt_id, p) != hunt_nft_slot(e, hunt_id, oi));
                }
            }
        } else {
            assert(e2.contains_key(hunt_nft_exists_key(hunt_id, x)) == e.contains_key(
                hunt_nft_exists_key(hunt_id, x),
            ));
            if e.contains_key(hunt_nft_exists_key(hunt_id, x)) {
                let i = choose|i: nat| i < c && #[trigger] hunt_nft_slot(e, hunt_id, i) == Some(x);
                assert(i != p);
                let ni = if i == last { p } else { i };
                assert(hunt_nft_slot(e2, hunt_id, ni) == Some(x));
            }
            if exists|i: nat| i < c - 1 && #[trigger] hunt_nft_slot(e2, hunt_id, i) == Some(x) {
                let i = choose|i: nat| i < c - 1 && #[trigger] hunt_nft_slot(e2, hunt_id, i) == Some(x);
                let oi = if i == p { last } else { i };
                assert(hunt_nft_slot(e2, hunt_id, i) == hunt_nft_slot(e, hunt_id, oi));
            }
        }
    }
}

/// Removing an id that a well-formed list does not hold changes nothing.
pub proof fn law_remove_unlisted_nft_is_noop(e: Map<Seq<u8>, Seq<u8>>, hunt_id: u64, nft_id: u64)
    requires
        hunt_nft_list_wf(e, hunt_id),
        !hunt_nfts(e, hunt_id).contains(nft_id),
    ensures
        hunt_nft_unlisted(e, hunt_id, nft_id) == e,
{
    lemma_nfts_are_slots(e, hunt_id);
    let c = hunt_nft_count(e, hunt_id);
    let ids = hunt_nfts(e, hunt_id);
    if e.contains_key(hunt_nft_exists_key(hunt_id, nft_id)) {
        let i = choose|i: nat| i < c && #[trigger] hunt_nft_slot(e, hunt_id, i) == Some(nft_id);
        assert(ids[i as int] == nft_id);
    }
}

/// A page of a well-formed list is the window of the list from `offset`,
/// at most `limit` long and not past its end; empty from the end on.
pub proof fn law_hunt_nft_page_is_window(
    e: Map<Seq<u8>, Seq<u8>>,
    hunt_id: u64,
    offset: u32,
    limit: u32,
)
    requires
        hunt_nft_list_wf(e, hunt_id),
    ensures
        hunt_nft_page(e, hunt_id, offset, limit) == (if offset >= hunt_nfts(e, hunt_id).len() {
            Seq::<u64>::empty()
        } else {
            hunt_nfts(e, hunt_id).subrange(
                offset as int,
                if offset + limit < hunt_nfts(e, hunt_id).len() {
                    offset + limit
                } else {
                    hunt_nfts(e, hunt_id).len() as int
                },
            )
        }),
{
    let c = hunt_nft_count(e, hunt_id);
    lemma_nfts_are_slots(e, hunt_id);
    let ids = hunt_nfts(e, hunt_id);
    if offset < c {
        let end: int = if offset + limit < c {
            offset + limit
        } else {
            c as int
        };
        lemma_between_are_slots(e, hunt_id, offset as nat, end as nat);
        assert(hunt_nft_page(e, hunt_id, offset, limit) =~= ids.subrange(offset as int, end));
    }
}

/// The ids listed as minted up to `n` are, in increasing order, exactly the
/// ids from 1 to `n` under which an NFT is kept.
pub proof fn law_minted_ids_are_the_kept_ones(e: Map<Seq<u8>, Seq<u8>>, n: nat)
    requires
        n <= u64::MAX,
    ensures
        forall|id: u64|
            minted_ids_upto(e, n).contains(id) <==> 1 <= id <= n && e.contains_key(
                #[trigger] nft_key(id),
            ),
        forall|i: int, j: int|
            0 <= i < j < minted_ids_upto(e, n).len() ==> minted_ids_upto(e, n)[i] < minted_ids_upto(
                e,
                n,
            )[j],
        forall|i: int| 0 <= i < minted_ids_upto(e, n).len() ==> 1 <= #[trigger] minted_ids_upto(e, n)[i] <= n,
    decreases n,
{
    if n > 0 {
        let m = (n - 1) as nat;
        law_minted_ids_are_the_kept_ones(e, m);
        let prev = minted_ids_upto(e, m);
        let cur = minted_ids_upto(e, n);
        assert forall|id: u64|
            cur.contains(id) <==> 1 <= id <= n && e.contains_key(#[trigger] nft_key(id)) by {
            if cur.contains(id) {
                let k = choose|k: int| 0 <= k < cur.len() && cur[k] == id;
                if k < prev.len() {
                    assert(prev[k] == id);
                    assert(prev.contains(id));
                }
            }
            if 1 <= id <= n && e.contains_key(nft_key(id)) {
                if id < n {
                    assert(prev.contains(id));
                    let k = choose|k: int| 0 <= k < prev.len() && prev[k] == id;
                    assert(cur[k] == id);
                } else {
                    assert(cur[cur.len() - 1] == id);
                }
            }
        }
    }
}

} // verus!

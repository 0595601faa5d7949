//! What the hunt contract's per-hunt clue list promises: adding an id that
//! is not listed appends it, adding one that is listed changes nothing, and
//! removing one keeps the order of the others.
use crate::codec::{lemma_u32_roundtrip, u32_bytes};
use crate::hunt_storage::{
    as_u32, clue_count, clue_entries, clue_ids, clue_listed, clue_slot, clue_slot_moved_down,
    clue_slots_shifted, clue_unlisted, first_clue_slot, stored_clue,
};
use crate::records::clue_bytes;
use crate::types::ClueModel;
use crate::keys::{
    clue_count_key, clue_entry_key, clue_exists_key, clue_key, lemma_clue_key_distinct,
    lemma_clue_key_injective,
    lemma_clue_list_keys, lemma_clue_list_keys_of_other_hunt,
};
use crate::slots::lemma_present_values_all;
use crate::store::marker;
use vstd::prelude::*;

verus! {

/// The clue list of `hunt_id` is well formed: every slot below its length
/// holds an id, no id is in two slots, and the marker of an id is kept
/// exactly when a slot holds it.
pub open spec fn clue_list_wf(e: Map<Seq<u8>, Seq<u8>>, hunt_id: u64) -> bool {
    let c = clue_count(e, hunt_id);
    &&& forall|i: nat| i < c ==> (#[trigger] clue_slot(e, hunt_id, i)) is Some
    &&& forall|i: nat, j: nat|
        #![trigger clue_slot(e, hunt_id, i), clue_slot(e, hunt_id, j)]
        i < j < c ==> clue_slot(e, hunt_id, i) != clue_slot(e, hunt_id, j)
    &&& forall|id: u32|
        e.contains_key(#[trigger] clue_exists_key(hunt_id, id)) <==> exists|i: nat|
            i < c && #[trigger] clue_slot(e, hunt_id, i) == Some(id)
}

/// The ids of a well-formed clue list are those of its slots, in order.
pub proof fn lemma_clue_ids_are_slots(e: Map<Seq<u8>, Seq<u8>>, hunt_id: u64)
    requires
        forall|i: nat| i < clue_count(e, hunt_id) ==> (#[trigger] clue_slot(e, hunt_id, i)) is Some,
    ensures
        clue_ids(e, hunt_id) == Seq::new(
            clue_count(e, hunt_id) as nat,
            |k: int| clue_slot(e, hunt_id, k as nat)->0,
        ),
{
    let c = clue_count(e, hunt_id) as nat;
    assert forall|i: nat| 0 <= i < c implies e.contains_key(
        #[trigger] clue_entries(hunt_id)(i as u32),
    ) && as_u32()(e[clue_entries(hunt_id)(i as u32)]) is Some by {
        assert(clue_slot(e, hunt_id, i) is Some);
    }
    lemma_present_values_all(e, clue_entries(hunt_id), as_u32(), 0, c);
    assert(clue_ids(e, hunt_id) =~= Seq::new(c, |k: int| clue_slot(e, hunt_id, k as nat)->0));
}

/// Adding an id that a well-formed list does not hold appends it at the end
/// and keeps the list well formed.
pub proof fn law_add_clue_appends(e: Map<Seq<u8>, Seq<u8>>, hunt_id: u64, clue_id: u32)
    requires
        clue_list_wf(e, hunt_id),
        !clue_ids(e, hunt_id).contains(clue_id),
        clue_count(e, hunt_id) < u32::MAX,
    ensures
        clue_ids(clue_listed(e, hunt_id, clue_id), hunt_id) == clue_ids(e, hunt_id).push(clue_id),
        clue_list_wf(clue_listed(e, hunt_id, clue_id), hunt_id),
{
    let c = clue_count(e, hunt_id);
    lemma_clue_ids_are_slots(e, hunt_id);
    lemma_clue_list_keys(hunt_id);
    let ids = clue_ids(e, hunt_id);
    assert(!e.contains_key(clue_exists_key(hunt_id, clue_id))) by {
        if e.contains_key(clue_exists_key(hunt_id, clue_id)) {
            let i = choose|i: nat| i < c && #[trigger] clue_slot(e, hunt_id, i) == Some(clue_id);
            assert(ids[i as int] == clue_id);
        }
    }
    let e2 = clue_listed(e, hunt_id, clue_id);
    lemma_u32_roundtrip((c + 1) as u32);
    lemma_u32_roundtrip(clue_id);
    assert(clue_count(e2, hunt_id) == c + 1);
    assert forall|i: nat| i < c implies #[trigger] clue_slot(e2, hunt_id, i) == clue_slot(e, hunt_id, i) by {
        assert(clue_entry_key(hunt_id, i as u32) != clue_entry_key(hunt_id, c));
    }
    assert(clue_slot(e2, hunt_id, c as nat) == Some(clue_id));
    assert forall|i: nat| i < c + 1 implies (#[trigger] clue_slot(e2, hunt_id, i)) is Some by {
        if i < c {
            assert(clue_slot(e2, hunt_id, i) == clue_slot(e, hunt_id, i));
        }
    }
    lemma_clue_ids_are_slots(e2, hunt_id);
    assert forall|k: nat| k < c implies #[trigger] clue_slot(e, hunt_id, k) != Some(clue_id) by {
        assert(ids[k as int] == clue_slot(e, hunt_id, k)->0);
    }
    assert(clue_ids(e2, hunt_id) =~= ids.push(clue_id)) by {
        assert forall|k: int| 0 <= k < c + 1 implies clue_ids(e2, hunt_id)[k] == ids.push(clue_id)[k] by {
            if k < c {
                assert(clue_slot(e2, hunt_id, k as nat) == clue_slot(e, hunt_id, k as nat));
            }
        }
    }
    assert forall|i: nat, j: nat|
        #![trigger clue_slot(e2, hunt_id, i), clue_slot(e2, hunt_id, j)]
        i < j < c + 1 implies clue_slot(e2, hunt_id, i) != clue_slot(e2, hunt_id, j) by {
        assert(clue_slot(e2, hunt_id, i) == clue_slot(e, hunt_id, i));
        if j < c {
            assert(clue_slot(e2, hunt_id, j) == clue_slot(e, hunt_id, j));
        } else {
            assert(clue_slot(e, hunt_id, i) != Some(clue_id));
        }
    }
    assert forall|id: u32|
        e2.contains_key(#[trigger] clue_exists_key(hunt_id, id)) <==> exists|i: nat|
            i < c + 1 && #[trigger] clue_slot(e2, hunt_id, i) == Some(id) by {
        if id == clue_id {
            assert(clue_slot(e2, hunt_id, c as nat) == Some(id));
        } else {
            if e.contains_key(clue_exists_key(hunt_id, id)) {
                let i = choose|i: nat| i < c && #[trigger] clue_slot(e, hunt_id, i) == Some(id);
                assert(clue_slot(e2, hunt_id, i) == Some(id));
            }
            if exists|i: nat| i < c + 1 && #[trigger] clue_slot(e2, hunt_id, i) == Some(id) {
                let i = choose|i: nat| i < c + 1 && #[trigger] clue_slot(e2, hunt_id, i) == Some(id);
                assert(i < c);
                assert(clue_slot(e, hunt_id, i) == Some(id));
            }
        }
    }
}

/// Adding an id that a well-formed list already holds changes nothing.
pub proof fn law_add_listed_clue_is_noop(e: Map<Seq<u8>, Seq<u8>>, hunt_id: u64, clue_id: u32)
    requires
        clue_list_wf(e, hunt_id),
        clue_ids(e, hunt_id).contains(clue_id),
    ensures
        clue_listed(e, hunt_id, clue_id) == e,
{
    lemma_clue_ids_are_slots(e, hunt_id);
    let ids = clue_ids(e, hunt_id);
    let k = choose|k: int| 0 <= k < ids.len() && ids[k] == clue_id;
    assert(clue_slot(e, hunt_id, k as nat) == Some(clue_id));
}

proof fn lemma_first_slot_is(e: Map<Seq<u8>, Seq<u8>>, hunt_id: u64, clue_id: u32, p: nat, n: nat)
    requires
        clue_list_wf(e, hunt_id),
        p < clue_count(e, hunt_id),
        n <= clue_count(e, hunt_id),
        clue_slot(e, hunt_id, p) == Some(clue_id),
    ensures
        first_clue_slot(e, hunt_id, clue_id, n) == (if p < n {
            Some(p)
        } else {
            None::<nat>
        }),
    decreases n,
{
    if n > 0 {
        lemma_first_slot_is(e, hunt_id, clue_id, p, (n - 1) as nat);
        let i = (n - 1) as nat;
        if i != p {
            if i < p {
                assert(clue_slot(e, hunt_id, i) != clue_slot(e, hunt_id, p));
            } else {
                assert(clue_slot(e, hunt_id, p) != clue_slot(e, hunt_id, i));
            }
        }
    }
}

proof fn lemma_first_slot_none(e: Map<Seq<u8>, Seq<u8>>, hunt_id: u64, clue_id: u32, n: nat)
    requires
        n <= clue_count(e, hunt_id),
        forall|i: nat| i < n ==> #[trigger] clue_slot(e, hunt_id, i) != Some(clue_id),
    ensures
        first_clue_slot(e, hunt_id, clue_id, n) is None,
    decreases n,
{
    if n > 0 {
        lemma_first_slot_none(e, hunt_id, clue_id, (n - 1) as nat);
        assert(clue_slot(e, hunt_id, (n - 1) as nat) != Some(clue_id));
    }
}

/// Shifting slots `p` to `n - 2` down: those slots take the ids of the slots
/// after them; every other entry of the hunt's clue list stays.
proof fn lemma_shifted(e: Map<Seq<u8>, Seq<u8>>, hunt_id: u64, p: nat, n: nat)
    requires
        p < n <= clue_count(e, hunt_id),
        forall|i: nat| i < clue_count(e, hunt_id) ==> (#[trigger] clue_slot(e, hunt_id, i)) is Some,
    ensures
        forall|j: nat|
            j < p ==> #[trigger] clue_slot(clue_slots_shifted(e, hunt_id, p, n), hunt_id, j)
                == clue_slot(e, hunt_id, j),
        forall|j: nat|
            p <= j < n - 1 ==> #[trigger] clue_slot(clue_slots_shifted(e, hunt_id, p, n), hunt_id, j)
                == clue_slot(e, hunt_id, j + 1),
        forall|j: nat|
            n - 1 <= j <= u32::MAX ==> #[trigger] clue_slot(
                clue_slots_shifted(e, hunt_id, p, n),
                hunt_id,
                j,
            ) == clue_slot(e, hunt_id, j),
        clue_count(clue_slots_shifted(e, hunt_id, p, n), hunt_id) == clue_count(e, hunt_id),
        forall|id: u32|
            #[trigger] clue_slots_shifted(e, hunt_id, p, n).contains_key(clue_exists_key(hunt_id, id))
                == e.contains_key(clue_exists_key(hunt_id, id)),
    decreases n,
{
    lemma_clue_list_keys(hunt_id);
    if n > p + 1 {
        lemma_shifted(e, hunt_id, p, (n - 1) as nat);
        let prev = clue_slots_shifted(e, hunt_id, p, (n - 1) as nat);
        let m = (n - 2) as nat;
        let cur = clue_slots_shifted(e, hunt_id, p, n);
        assert(cur == clue_slot_moved_down(prev, hunt_id, m));
        assert(clue_slot(prev, hunt_id, m + 1) == clue_slot(e, hunt_id, m + 1));
        lemma_u32_roundtrip(clue_slot(e, hunt_id, m + 1)->0);
        assert forall|j: nat| j <= u32::MAX && j != m implies #[trigger] clue_slot(cur, hunt_id, j)
            == clue_slot(prev, hunt_id, j) by {
            assert(clue_entry_key(hunt_id, j as u32) != clue_entry_key(hunt_id, m as u32));
        }
        assert(clue_slot(cur, hunt_id, m) == clue_slot(e, hunt_id, m + 1));
    }
}

/// The entries after the id in slot `p` of a well-formed list is taken off:
/// the length shrinks by one, the slots after `p` move down one place, and
/// only that id's marker goes.
proof fn lemma_unlisted_slots(e: Map<Seq<u8>, Seq<u8>>, hunt_id: u64, p: nat)
    requires
        clue_list_wf(e, hunt_id),
        p < clue_count(e, hunt_id),
    ensures
        ({
            let c = clue_count(e, hunt_id);
            let id = clue_slot(e, hunt_id, p)->0;
            let e2 = clue_unlisted(e, hunt_id, id);
            &&& clue_count(e2, hunt_id) == c - 1
            &&& forall|j: nat|
                j < c - 1 ==> #[trigger] clue_slot(e2, hunt_id, j) == (if j < p {
                    clue_slot(e, hunt_id, j)
                } else {
                    clue_slot(e, hunt_id, j + 1)
                })
            &&& forall|x: u32|
                x != id ==> #[trigger] e2.contains_key(clue_exists_key(hunt_id, x))
                    == e.contains_key(clue_exists_key(hunt_id, x))
            &&& !e2.contains_key(clue_exists_key(hunt_id, id))
        }),
{
    let c = clue_count(e, hunt_id);
    lemma_clue_list_keys(hunt_id);
    let id = clue_slot(e, hunt_id, p)->0;
    lemma_first_slot_is(e, hunt_id, id, p, c as nat);
    lemma_shifted(e, hunt_id, p, c as nat);
    let sh = clue_slots_shifted(e, hunt_id, p, c as nat);
    let e2 = clue_unlisted(e, hunt_id, id);
    assert(e2 == sh.remove(clue_entry_key(hunt_id, (c - 1) as u32)).insert(
        clue_count_key(hunt_id),
        u32_bytes((c - 1) as u32),
    ).remove(clue_exists_key(hunt_id, id)));
    lemma_u32_roundtrip((c - 1) as u32);
    assert(clue_count(e2, hunt_id) == c - 1);
    assert forall|j: nat| j < c - 1 implies #[trigger] clue_slot(e2, hunt_id, j) == (if j < p {
        clue_slot(e, hunt_id, j)
    } else {
        clue_slot(e, hunt_id, j + 1)
    }) by {
        assert(clue_entry_key(hunt_id, j as u32) != clue_entry_key(hunt_id, (c - 1) as u32));
        assert(clue_slot(e2, hunt_id, j) == clue_slot(sh, hunt_id, j));
    }
}

/// Removing an id that a well-formed list holds takes it out and keeps the
/// order of the others, and keeps the list well formed.
pub proof fn law_remove_clue_keeps_order(e: Map<Seq<u8>, Seq<u8>>, hunt_id: u64, p: int)
    requires
        clue_list_wf(e, hunt_id),
        0 <= p < clue_ids(e, hunt_id).len(),
    ensures
        clue_ids(clue_unlisted(e, hunt_id, clue_ids(e, hunt_id)[p]), hunt_id) == clue_ids(
            e,
            hunt_id,
        ).remove(p),
        clue_list_wf(clue_unlisted(e, hunt_id, clue_ids(e, hunt_id)[p]), hunt_id),
{
    let c = clue_count(e, hunt_id);
    lemma_clue_ids_are_slots(e, hunt_id);
    let ids = clue_ids(e, hunt_id);
    let id = ids[p];
    assert(clue_slot(e, hunt_id, p as nat) == Some(id));
    lemma_unlisted_slots(e, hunt_id, p as nat);
    let e2 = clue_unlisted(e, hunt_id, id);
    assert forall|i: nat| i < c - 1 implies (#[trigger] clue_slot(e2, hunt_id, i)) is Some by {
        assert(clue_slot(e2, hunt_id, i) == (if i < p {
            clue_slot(e, hunt_id, i)
        } else {
            clue_slot(e, hunt_id, i + 1)
        }));
    }
    lemma_clue_ids_are_slots(e2, hunt_id);
    assert(clue_ids(e2, hunt_id) =~= ids.remove(p)) by {
        assert forall|k: int| 0 <= k < c - 1 implies clue_ids(e2, hunt_id)[k] == ids.remove(p)[k] by {
            assert(clue_slot(e2, hunt_id, k as nat) == (if k < p {
                clue_slot(e, hunt_id, k as nat)
            } else {
                clue_slot(e, hunt_id, (k + 1) as nat)
            }));
        }
    }
    lemma_unlisted_wf(e, hunt_id, p as nat);
}

/// The list left after the id in slot `p` of a well-formed list is taken
/// off is well formed.
proof fn lemma_unlisted_wf(e: Map<Seq<u8>, Seq<u8>>, hunt_id: u64, p: nat)
    requires
        clue_list_wf(e, hunt_id),
        p < clue_count(e, hunt_id),
    ensures
        clue_list_wf(clue_unlisted(e, hunt_id, clue_slot(e, hunt_id, p)->0), hunt_id),
{
    let c = clue_count(e, hunt_id);
    let id = clue_slot(e, hunt_id, p)->0;
    lemma_unlisted_slots(e, hunt_id, p);
    let e2 = clue_unlisted(e, hunt_id, id);
    assert forall|i: nat| i < c - 1 implies (#[trigger] clue_slot(e2, hunt_id, i)) is Some by {
        assert(clue_slot(e2, hunt_id, i) == (if i < p {
            clue_slot(e, hunt_id, i)
        } else {
            clue_slot(e, hunt_id, i + 1)
        }));
    }
    assert forall|i: nat, j: nat|
        #![trigger clue_slot(e2, hunt_id, i), clue_slot(e2, hunt_id, j)]
        i < j < c - 1 implies clue_slot(e2, hunt_id, i) != clue_slot(e2, hunt_id, j) by {
        let oi = if i < p { i } else { i + 1 };
        let oj = if j < p { j } else { j + 1 };
        assert(clue_slot(e2, hunt_id, i) == clue_slot(e, hunt_id, oi));
        assert(clue_slot(e2, hunt_id, j) == clue_slot(e, hunt_id, oj));
        assert(clue_slot(e, hunt_id, oi) != clue_slot(e, hunt_id, oj));
    }
    assert forall|x: u32|
        e2.contains_key(#[trigger] clue_exists_key(hunt_id, x)) <==> exists|i: nat|
            i < c - 1 && #[trigger] clue_slot(e2, hunt_id, i) == Some(x) by {
        if x == id {
            if exists|i: nat| i < c - 1 && #[trigger] clue_slot(e2, hunt_id, i) == Some(x) {
                let i = choose|i: nat| i < c - 1 && #[trigger] clue_slot(e2, hunt_id, i) == Some(x);
                let oi = if i < p { i } else { i + 1 };
                assert(clue_slot(e2, hunt_id, i) == clue_slot(e, hunt_id, oi));
                if oi < p {
                    assert(clue_slot(e, hunt_id, oi) != clue_slot(e, hunt_id, p));
                } else {
                    assert(clue_slot(e, hunt_id, p) != clue_slot(e, hunt_id, oi));
                }
            }
        } else {
            assert(e2.contains_key(clue_exists_key(hunt_id, x)) == e.contains_key(
                clue_exists_key(hunt_id, x),
            ));
            if e.contains_key(clue_exists_key(hunt_id, x)) {
                let i = choose|i: nat| i < c && #[trigger] clue_slot(e, hunt_id, i) == Some(x);
                assert(i != p);
                let ni = if i < p { i } else { (i - 1) as nat };
                assert(clue_slot(e2, hunt_id, ni) == Some(x));
            }
            if exists|i: nat| i < c - 1 && #[trigger] clue_slot(e2, hunt_id, i) == Some(x) {
                let i = choose|i: nat| i < c - 1 && #[trigger] clue_slot(e2, hunt_id, i) == Some(x);
                let oi = if i < p { i } else { i + 1 };
                assert(clue_slot(e2, hunt_id, i) == clue_slot(e, hunt_id, oi));
            }
        }
    }
}

/// Removing an id that a well-formed list does not hold changes nothing.
pub proof fn law_remove_unlisted_clue_is_noop(e: Map<Seq<u8>, Seq<u8>>, hunt_id: u64, clue_id: u32)
    requires
        clue_list_wf(e, hunt_id),
        !clue_ids(e, hunt_id).contains(clue_id),
    ensures
        clue_unlisted(e, hunt_id, clue_id) == e,
{
    lemma_clue_ids_are_slots(e, hunt_id);
    let ids = clue_ids(e, hunt_id);
    assert forall|i: nat| i < clue_count(e, hunt_id) implies #[trigger] clue_slot(e, hunt_id, i)
        != Some(clue_id) by {
        assert(ids[i as int] == clue_slot(e, hunt_id, i)->0);
    }
    lemma_first_slot_none(e, hunt_id, clue_id, clue_count(e, hunt_id) as nat);
}

/// Changing an entry that is not one of `hunt_id`'s clue list keeps the
/// list, and keeps it well formed if it was.
proof fn lemma_clue_list_frame(e: Map<Seq<u8>, Seq<u8>>, hunt_id: u64, k: Seq<u8>, v: Option<Seq<u8>>)
    requires
        forall|h: u64, c: u32| k != #[trigger] clue_exists_key(h, c),
        forall|h: u64| k != #[trigger] clue_count_key(h),
        forall|h: u64, i: u32| k != #[trigger] clue_entry_key(h, i),
    ensures
        ({
            let e2 = match v {
                Some(b) => e.insert(k, b),
                None => e.remove(k),
            };
            &&& clue_ids(e2, hunt_id) == clue_ids(e, hunt_id)
            &&& clue_list_wf(e, hunt_id) ==> clue_list_wf(e2, hunt_id)
            &&& forall|i: nat| #[trigger] clue_slot(e2, hunt_id, i) == clue_slot(e, hunt_id, i)
            &&& clue_count(e2, hunt_id) == clue_count(e, hunt_id)
        }),
{
    let e2 = match v {
        Some(b) => e.insert(k, b),
        None => e.remove(k),
    };
    assert(k != clue_count_key(hunt_id));
    assert forall|i: nat| #[trigger] clue_slot(e2, hunt_id, i) == clue_slot(e, hunt_id, i) by {
        assert(k != clue_entry_key(hunt_id, i as u32));
    }
    assert forall|id: u32| #[trigger] e2.contains_key(clue_exists_key(hunt_id, id)) == e.contains_key(
        clue_exists_key(hunt_id, id),
    ) by {
        assert(k != clue_exists_key(hunt_id, id));
    }
    crate::slots::lemma_present_values_frame(
        e,
        e2,
        clue_entries(hunt_id),
        as_u32(),
        0,
        clue_count(e, hunt_id) as nat,
    );
    if clue_list_wf(e, hunt_id) {
        let c = clue_count(e, hunt_id);
        assert forall|id: u32|
            e2.contains_key(#[trigger] clue_exists_key(hunt_id, id)) <==> exists|i: nat|
                i < c && #[trigger] clue_slot(e2, hunt_id, i) == Some(id) by {
            if e.contains_key(clue_exists_key(hunt_id, id)) {
                let i = choose|i: nat| i < c && #[trigger] clue_slot(e, hunt_id, i) == Some(id);
                assert(clue_slot(e2, hunt_id, i) == Some(id));
            }
            if exists|i: nat| i < c && #[trigger] clue_slot(e2, hunt_id, i) == Some(id) {
                let i = choose|i: nat| i < c && #[trigger] clue_slot(e2, hunt_id, i) == Some(id);
                assert(clue_slot(e, hunt_id, i) == Some(id));
            }
        }
        assert forall|i: nat, j: nat|
            #![trigger clue_slot(e2, hunt_id, i), clue_slot(e2, hunt_id, j)]
            i < j < c implies clue_slot(e2, hunt_id, i) != clue_slot(e2, hunt_id, j) by {
            assert(clue_slot(e, hunt_id, i) != clue_slot(e, hunt_id, j));
        }
    }
}

/// Saving a clue of a hunt with a well-formed clue list lists it once, at
/// the end when it is new, and the list stays well formed.
pub proof fn law_saved_clue_is_listed_once(e: Map<Seq<u8>, Seq<u8>>, hunt_id: u64, clue: ClueModel)
    requires
        clue_list_wf(e, hunt_id),
        !clue_ids(e, hunt_id).contains(clue.clue_id) ==> clue_count(e, hunt_id) < u32::MAX,
    ensures
        ({
            let e2 = clue_listed(
                e.insert(clue_key(hunt_id, clue.clue_id), clue_bytes(clue)),
                hunt_id,
                clue.clue_id,
            );
            &&& clue_ids(e2, hunt_id) == (if clue_ids(e, hunt_id).contains(clue.clue_id) {
                clue_ids(e, hunt_id)
            } else {
                clue_ids(e, hunt_id).push(clue.clue_id)
            })
            &&& clue_list_wf(e2, hunt_id)
        }),
{
    lemma_clue_key_distinct(hunt_id, clue.clue_id);
    let k = clue_key(hunt_id, clue.clue_id);
    let e1 = e.insert(k, clue_bytes(clue));
    lemma_clue_list_frame(e, hunt_id, k, Some(clue_bytes(clue)));
    if clue_ids(e, hunt_id).contains(clue.clue_id) {
        law_add_listed_clue_is_noop(e1, hunt_id, clue.clue_id);
    } else {
        law_add_clue_appends(e1, hunt_id, clue.clue_id);
    }
}

/// Removing a clue of a hunt with a well-formed clue list: the clue is gone,
/// and the list loses it, keeping the order of the others and staying well
/// formed.
pub proof fn law_removed_clue_is_unlisted(e: Map<Seq<u8>, Seq<u8>>, hunt_id: u64, clue_id: u32)
    requires
        clue_list_wf(e, hunt_id),
    ensures
        ({
            let e2 = clue_unlisted(e.remove(clue_key(hunt_id, clue_id)), hunt_id, clue_id);
            let ids = clue_ids(e, hunt_id);
            &&& stored_clue(e2, hunt_id, clue_id) is None
            &&& !clue_ids(e2, hunt_id).contains(clue_id)
            &&& clue_ids(e2, hunt_id) == (if ids.contains(clue_id) {
                ids.remove(ids.index_of(clue_id))
            } else {
                ids
            })
            &&& clue_list_wf(e2, hunt_id)
        }),
{
    lemma_clue_key_distinct(hunt_id, clue_id);
    let k = clue_key(hunt_id, clue_id);
    let e1 = e.remove(k);
    lemma_clue_list_frame(e, hunt_id, k, None);
    let ids = clue_ids(e, hunt_id);
    lemma_clue_ids_are_slots(e, hunt_id);
    if ids.contains(clue_id) {
        let p = ids.index_of(clue_id);
        law_remove_clue_keeps_order(e1, hunt_id, p);
        let e2 = clue_unlisted(e1, hunt_id, clue_id);
        lemma_clue_ids_are_slots(e2, hunt_id);
        let ids2 = clue_ids(e2, hunt_id);
        assert(!ids2.contains(clue_id)) by {
            if ids2.contains(clue_id) {
                let j = ids2.index_of(clue_id);
                let oj = if j < p { j } else { j + 1 };
                assert(ids[oj] == clue_id);
                if oj < p {
                    assert(clue_slot(e, hunt_id, oj as nat) != clue_slot(e, hunt_id, p as nat));
                } else {
                    assert(clue_slot(e, hunt_id, p as nat) != clue_slot(e, hunt_id, oj as nat));
                }
            }
        }
        lemma_shift_frame_clue(e1, hunt_id, clue_id, k);
    } else {
        law_remove_unlisted_clue_is_noop(e1, hunt_id, clue_id);
    }
}

/// Taking an id off a clue list leaves the hunt's clue entries alone.
proof fn lemma_shift_frame_clue(e: Map<Seq<u8>, Seq<u8>>, hunt_id: u64, clue_id: u32, k: Seq<u8>)
    requires
        !e.contains_key(k),
        forall|h: u64, c: u32| k != #[trigger] clue_exists_key(h, c),
        forall|h: u64| k != #[trigger] clue_count_key(h),
        forall|h: u64, i: u32| k != #[trigger] clue_entry_key(h, i),
    ensures
        !clue_unlisted(e, hunt_id, clue_id).contains_key(k),
{
    let c = clue_count(e, hunt_id);
    if let Some(p) = first_clue_slot(e, hunt_id, clue_id, c as nat) {
        crate::hunt_storage::lemma_shift_keeps_other_entries(e, hunt_id, p, c as nat, k);
    }
}

/// Adding an id to the clue list of a hunt with a well-formed list: the
/// list is unchanged when the id is on it and gets the id appended
/// otherwise, stays well formed, and the clue list of every other hunt is
/// unchanged.
pub proof fn law_add_clue_to_list(e: Map<Seq<u8>, Seq<u8>>, hunt_id: u64, clue_id: u32, other: u64)
    requires
        clue_list_wf(e, hunt_id),
        !clue_ids(e, hunt_id).contains(clue_id) ==> clue_count(e, hunt_id) < u32::MAX,
        other != hunt_id,
    ensures
        clue_ids(clue_listed(e, hunt_id, clue_id), hunt_id) == (if clue_ids(e, hunt_id).contains(clue_id) {
            clue_ids(e, hunt_id)
        } else {
            clue_ids(e, hunt_id).push(clue_id)
        }),
        clue_list_wf(clue_listed(e, hunt_id, clue_id), hunt_id),
        clue_ids(clue_listed(e, hunt_id, clue_id), other) == clue_ids(e, other),
{
    let e2 = clue_listed(e, hunt_id, clue_id);
    if clue_ids(e, hunt_id).contains(clue_id) {
        law_add_listed_clue_is_noop(e, hunt_id, clue_id);
    } else {
        law_add_clue_appends(e, hunt_id, clue_id);
    }
    lemma_clue_list_keys_of_other_hunt(hunt_id, other);
    let c = clue_count(e, hunt_id);
    assert(clue_count(e2, other) == clue_count(e, other));
    assert forall|i: nat| 0 <= i < clue_count(e, other) implies e.contains_key(
        #[trigger] clue_entries(other)(i as u32),
    ) == e2.contains_key(clue_entries(other)(i as u32)) by {
        assert(clue_entry_key(hunt_id, c) != clue_entry_key(other, i as u32));
        assert(clue_exists_key(hunt_id, clue_id) != clue_entry_key(other, i as u32));
        assert(clue_count_key(hunt_id) != clue_entry_key(other, i as u32));
    }
    assert forall|i: nat|
        0 <= i < clue_count(e, other) && e.contains_key(#[trigger] clue_entries(other)(i as u32)) implies e[clue_entries(
            other,
        )(i as u32)] == e2[clue_entries(other)(i as u32)] by {
        assert(clue_entry_key(hunt_id, c) != clue_entry_key(other, i as u32));
        assert(clue_exists_key(hunt_id, clue_id) != clue_entry_key(other, i as u32));
        assert(clue_count_key(hunt_id) != clue_entry_key(other, i as u32));
    }
    crate::slots::lemma_present_values_frame(e, e2, clue_entries(other), as_u32(), 0, clue_count(e, other) as nat);
}

/// Saving a clue writes that clue alone: every clue kept under another hunt
/// or another clue id reads back as it was.
pub proof fn law_save_clue_keeps_other_clues(
    e: Map<Seq<u8>, Seq<u8>>,
    hunt_id: u64,
    clue: ClueModel,
    other: u64,
    other_clue: u32,
)
    requires
        other != hunt_id || other_clue != clue.clue_id,
    ensures
        stored_clue(
            clue_listed(e.insert(clue_key(hunt_id, clue.clue_id), clue_bytes(clue)), hunt_id, clue.clue_id),
            other,
            other_clue,
        ) == stored_clue(e, other, other_clue),
{
    lemma_clue_key_injective(hunt_id, clue.clue_id, other, other_clue);
    lemma_clue_key_distinct(other, other_clue);
}

} // verus!

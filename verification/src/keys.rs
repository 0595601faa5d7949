//! The storage keys of the contracts. The keys of scalar entries (schema
//! version, rollback point, counters, the clue and hunt-NFT lists, the
//! player count, the NFT contract's settings) are the contracts' own
//! symbols and tuples of a symbol and numbers; the keys of entries that
//! hold a record or whose key holds an address are byte strings: a record
//! whose first field is the symbol's text and whose other fields locate the
//! entry.
use crate::codec::{
    chunks, copy_bytes, fits, lemma_record_roundtrip, lemma_u32_roundtrip, lemma_u64_roundtrip, record,
    u32_bytes, u32_field, u64_bytes, u64_field, views, write_record,
};
use crate::types::Address;
use vstd::prelude::*;

verus! {

/// The key made of `tag` and `parts`.
pub open spec fn key_of(tag: Seq<u8>, parts: Seq<Seq<u8>>) -> Seq<u8> {
    record(seq![tag] + parts)
}

/// Keys with different tags or different parts are different keys.
pub proof fn lemma_key_injective(t1: Seq<u8>, p1: Seq<Seq<u8>>, t2: Seq<u8>, p2: Seq<Seq<u8>>)
    requires
        fits(seq![t1] + p1),
        fits(seq![t2] + p2),
        key_of(t1, p1) == key_of(t2, p2),
    ensures
        t1 == t2,
        p1 == p2,
{
    lemma_record_roundtrip(seq![t1] + p1);
    lemma_record_roundtrip(seq![t2] + p2);
    assert((seq![t1] + p1)[0] == t1);
    assert((seq![t2] + p2)[0] == t2);
    assert(p1 =~= (seq![t1] + p1).drop_first());
    assert(p2 =~= (seq![t2] + p2).drop_first());
}

/// A key begins with the number of its fields, the length of its tag, and
/// the tag.
proof fn lemma_key_prefix(t: Seq<u8>, p: Seq<Seq<u8>>)
    requires
        t.len() <= u64::MAX,
        p.len() < u64::MAX,
    ensures
        key_of(t, p).len() >= 16 + t.len(),
        key_of(t, p).take(8) == u64_bytes((1 + p.len()) as u64),
        key_of(t, p).subrange(8, 16) == u64_bytes(t.len() as u64),
        key_of(t, p).subrange(16, 16 + t.len() as int) == t,
{
    reveal(record);
    let fs = seq![t] + p;
    assert(fs[0] == t);
    assert(fs.len() == 1 + p.len());
    let k = key_of(t, p);
    assert(k == u64_bytes(fs.len() as u64) + (u64_bytes(t.len() as u64) + t + chunks(fs.drop_first())));
    assert(k.take(8) =~= u64_bytes((1 + p.len()) as u64));
    assert(k.subrange(8, 16) =~= u64_bytes(t.len() as u64));
    assert(k.subrange(16, 16 + t.len() as int) =~= t);
}

/// Keys with different tags are different keys.
pub proof fn lemma_tags_differ(t1: Seq<u8>, p1: Seq<Seq<u8>>, t2: Seq<u8>, p2: Seq<Seq<u8>>)
    requires
        t1.len() <= u64::MAX,
        t2.len() <= u64::MAX,
        p1.len() < u64::MAX,
        p2.len() < u64::MAX,
        t1 != t2,
    ensures
        key_of(t1, p1) != key_of(t2, p2),
{
    lemma_key_prefix(t1, p1);
    lemma_key_prefix(t2, p2);
    let k1 = key_of(t1, p1);
    let k2 = key_of(t2, p2);
    if k1 == k2 {
        lemma_u64_roundtrip(t1.len() as u64);
        lemma_u64_roundtrip(t2.len() as u64);
        assert(t1.len() == t2.len());
        assert(t1 == t2);
    }
}

/// A hunt's key is neither the schema version's key nor the rollback
/// point's key nor the hunt counter's key.
pub proof fn lemma_hunt_key_distinct(hunt_id: u64)
    ensures
        hunt_key(hunt_id) != schema_key(),
        hunt_key(hunt_id) != rollback_key(),
        hunt_key(hunt_id) != counter_key(),
{
    lemma_key_first_byte(hunt_tag(), seq![u64_bytes(hunt_id)]);
    lemma_slot_not_plain(schema_tag(), Seq::empty(), hunt_key(hunt_id));
    lemma_slot_not_plain(rollback_tag(), Seq::empty(), hunt_key(hunt_id));
    lemma_slot_not_plain(counter_tag(), Seq::empty(), hunt_key(hunt_id));
}

/// A clue's key is none of the keys of a clue list: slots, lengths and
/// markers.
pub proof fn lemma_clue_key_distinct(hunt_id: u64, clue_id: u32)
    ensures
        forall|h: u64, c: u32| clue_key(hunt_id, clue_id) != #[trigger] clue_exists_key(h, c),
        forall|h: u64| clue_key(hunt_id, clue_id) != #[trigger] clue_count_key(h),
        forall|h: u64, i: u32| clue_key(hunt_id, clue_id) != #[trigger] clue_entry_key(h, i),
{
    let k = clue_key(hunt_id, clue_id);
    lemma_key_first_byte(clue_tag(), seq![u64_bytes(hunt_id), u32_bytes(clue_id)]);
    assert forall|h: u64, c: u32| k != #[trigger] clue_exists_key(h, c) by {
        lemma_slot_not_plain(clue_exists_tag(), seq![u64_bytes(h), u32_bytes(c)], k);
    }
    assert forall|h: u64| k != #[trigger] clue_count_key(h) by {
        lemma_slot_not_plain(clue_count_tag(), seq![u64_bytes(h)], k);
    }
    assert forall|h: u64, i: u32| k != #[trigger] clue_entry_key(h, i) by {
        lemma_slot_not_plain(clue_entry_tag(), seq![u64_bytes(h), u32_bytes(i)], k);
    }
}

/// A player's progress key is none of the keys of a hunt's player list.
pub proof fn lemma_progress_key_distinct(hunt_id: u64, player: Seq<u8>)
    ensures
        forall|h: u64, q: Seq<u8>| progress_key(hunt_id, player) != #[trigger] player_exists_key(h, q),
        forall|h: u64| progress_key(hunt_id, player) != #[trigger] player_count_key(h),
        forall|h: u64, i: u32| progress_key(hunt_id, player) != #[trigger] player_entry_key(h, i),
{
    let p1 = seq![u64_bytes(hunt_id), player];
    assert(progress_tag()[1] != player_exists_tag()[1]);
    assert(progress_tag()[1] != player_count_tag()[1]);
    assert(progress_tag()[1] != player_entry_tag()[1]);
    assert forall|h: u64, q: Seq<u8>| progress_key(hunt_id, player) != #[trigger] player_exists_key(h, q) by {
        lemma_tags_differ(progress_tag(), p1, player_exists_tag(), seq![u64_bytes(h), q]);
    }
    assert forall|h: u64| progress_key(hunt_id, player) != #[trigger] player_count_key(h) by {
        lemma_key_first_byte(progress_tag(), p1);
        lemma_slot_not_plain(player_count_tag(), seq![u64_bytes(h)], progress_key(hunt_id, player));
    }
    assert forall|h: u64, i: u32| progress_key(hunt_id, player) != #[trigger] player_entry_key(h, i) by {
        lemma_tags_differ(progress_tag(), p1, player_entry_tag(), seq![u64_bytes(h), u32_bytes(i)]);
    }
}

proof fn lemma_two_part_fits(t: Seq<u8>, a: Seq<u8>, b: Seq<u8>)
    requires
        t.len() <= 8,
        a.len() <= 8,
        b.len() <= 8,
    ensures
        fits(seq![t] + seq![a, b]),
{
    let s = seq![t] + seq![a, b];
    assert(s[0] == t);
    assert(s[1] == a);
    assert(s[2] == b);
}

/// Different slots, lengths and markers of a hunt's clue list have
/// different keys.
pub proof fn lemma_clue_list_keys(hunt_id: u64)
    ensures
        forall|i: u32, j: u32|
            #![trigger clue_entry_key(hunt_id, i), clue_entry_key(hunt_id, j)]
            i != j ==> clue_entry_key(hunt_id, i) != clue_entry_key(hunt_id, j),
        forall|a: u32, b: u32|
            #![trigger clue_exists_key(hunt_id, a), clue_exists_key(hunt_id, b)]
            a != b ==> clue_exists_key(hunt_id, a) != clue_exists_key(hunt_id, b),
        forall|i: u32| #[trigger] clue_entry_key(hunt_id, i) != clue_count_key(hunt_id),
        forall|i: u32, a: u32|
            #![trigger clue_entry_key(hunt_id, i), clue_exists_key(hunt_id, a)]
            clue_entry_key(hunt_id, i) != clue_exists_key(hunt_id, a),
        forall|a: u32| clue_count_key(hunt_id) != #[trigger] clue_exists_key(hunt_id, a),
{
    let hb = u64_bytes(hunt_id);
    assert forall|i: u32, j: u32|
        #![trigger clue_entry_key(hunt_id, i), clue_entry_key(hunt_id, j)]
        i != j implies clue_entry_key(hunt_id, i) != clue_entry_key(hunt_id, j) by {
        if clue_entry_key(hunt_id, i) == clue_entry_key(hunt_id, j) {
            lemma_two_part_fits(clue_entry_tag(), hb, u32_bytes(i));
            lemma_two_part_fits(clue_entry_tag(), hb, u32_bytes(j));
            lemma_slot_injective(clue_entry_tag(), seq![hb, u32_bytes(i)], clue_entry_tag(), seq![hb, u32_bytes(j)]);
            assert(seq![hb, u32_bytes(i)][1] == seq![hb, u32_bytes(j)][1]);
            lemma_u32_bytes_injective(i, j);
        }
    }
    assert forall|a: u32, b: u32|
        #![trigger clue_exists_key(hunt_id, a), clue_exists_key(hunt_id, b)]
        a != b implies clue_exists_key(hunt_id, a) != clue_exists_key(hunt_id, b) by {
        if clue_exists_key(hunt_id, a) == clue_exists_key(hunt_id, b) {
            lemma_two_part_fits(clue_exists_tag(), hb, u32_bytes(a));
            lemma_two_part_fits(clue_exists_tag(), hb, u32_bytes(b));
            lemma_slot_injective(clue_exists_tag(), seq![hb, u32_bytes(a)], clue_exists_tag(), seq![hb, u32_bytes(b)]);
            assert(seq![hb, u32_bytes(a)][1] == seq![hb, u32_bytes(b)][1]);
            lemma_u32_bytes_injective(a, b);
        }
    }
    assert(clue_entry_tag()[2] != clue_count_tag()[2]);
    assert(clue_entry_tag()[2] != clue_exists_tag()[2]);
    assert(clue_count_tag()[2] != clue_exists_tag()[2]);
    assert forall|i: u32| #[trigger] clue_entry_key(hunt_id, i) != clue_count_key(hunt_id) by {
        lemma_slot_tags_differ(clue_entry_tag(), seq![hb, u32_bytes(i)], clue_count_tag(), seq![hb]);
    }
    assert forall|i: u32, a: u32|
        #![trigger clue_entry_key(hunt_id, i), clue_exists_key(hunt_id, a)]
        clue_entry_key(hunt_id, i) != clue_exists_key(hunt_id, a) by {
        lemma_slot_tags_differ(clue_entry_tag(), seq![hb, u32_bytes(i)], clue_exists_tag(), seq![hb, u32_bytes(a)]);
    }
    assert forall|a: u32| clue_count_key(hunt_id) != #[trigger] clue_exists_key(hunt_id, a) by {
        lemma_slot_tags_differ(clue_count_tag(), seq![hb], clue_exists_tag(), seq![hb, u32_bytes(a)]);
    }
}

/// Different slots, lengths and markers of a hunt's NFT list have
/// different keys.
pub proof fn lemma_hunt_nft_list_keys(hunt_id: u64)
    ensures
        forall|i: u32, j: u32|
            #![trigger hunt_nft_entry_key(hunt_id, i), hunt_nft_entry_key(hunt_id, j)]
            i != j ==> hunt_nft_entry_key(hunt_id, i) != hunt_nft_entry_key(hunt_id, j),
        forall|a: u64, b: u64|
            #![trigger hunt_nft_exists_key(hunt_id, a), hunt_nft_exists_key(hunt_id, b)]
            a != b ==> hunt_nft_exists_key(hunt_id, a) != hunt_nft_exists_key(hunt_id, b),
        forall|i: u32| #[trigger] hunt_nft_entry_key(hunt_id, i) != hunt_nft_count_key(hunt_id),
        forall|i: u32, a: u64|
            #![trigger hunt_nft_entry_key(hunt_id, i), hunt_nft_exists_key(hunt_id, a)]
            hunt_nft_entry_key(hunt_id, i) != hunt_nft_exists_key(hunt_id, a),
        forall|a: u64| hunt_nft_count_key(hunt_id) != #[trigger] hunt_nft_exists_key(hunt_id, a),
{
    let hb = u64_bytes(hunt_id);
    assert forall|i: u32, j: u32|
        #![trigger hunt_nft_entry_key(hunt_id, i), hunt_nft_entry_key(hunt_id, j)]
        i != j implies hunt_nft_entry_key(hunt_id, i) != hunt_nft_entry_key(hunt_id, j) by {
        if hunt_nft_entry_key(hunt_id, i) == hunt_nft_entry_key(hunt_id, j) {
            lemma_two_part_fits(hunt_nft_entry_tag(), hb, u32_bytes(i));
            lemma_two_part_fits(hunt_nft_entry_tag(), hb, u32_bytes(j));
            lemma_slot_injective(hunt_nft_entry_tag(), seq![hb, u32_bytes(i)], hunt_nft_entry_tag(), seq![hb, u32_bytes(j)]);
            assert(seq![hb, u32_bytes(i)][1] == seq![hb, u32_bytes(j)][1]);
            lemma_u32_bytes_injective(i, j);
        }
    }
    assert forall|a: u64, b: u64|
        #![trigger hunt_nft_exists_key(hunt_id, a), hunt_nft_exists_key(hunt_id, b)]
        a != b implies hunt_nft_exists_key(hunt_id, a) != hunt_nft_exists_key(hunt_id, b) by {
        if hunt_nft_exists_key(hunt_id, a) == hunt_nft_exists_key(hunt_id, b) {
            lemma_two_part_fits(hunt_nft_exists_tag(), hb, u64_bytes(a));
            lemma_two_part_fits(hunt_nft_exists_tag(), hb, u64_bytes(b));
            lemma_slot_injective(hunt_nft_exists_tag(), seq![hb, u64_bytes(a)], hunt_nft_exists_tag(), seq![hb, u64_bytes(b)]);
            assert(seq![hb, u64_bytes(a)][1] == seq![hb, u64_bytes(b)][1]);
            lemma_u64_bytes_injective(a, b);
        }
    }
    assert(hunt_nft_entry_tag()[3] != hunt_nft_count_tag()[3]);
    assert(hunt_nft_entry_tag()[3] != hunt_nft_exists_tag()[3]);
    assert(hunt_nft_count_tag()[3] != hunt_nft_exists_tag()[3]);
    assert forall|i: u32| #[trigger] hunt_nft_entry_key(hunt_id, i) != hunt_nft_count_key(hunt_id) by {
        lemma_slot_tags_differ(hunt_nft_entry_tag(), seq![hb, u32_bytes(i)], hunt_nft_count_tag(), seq![hb]);
    }
    assert forall|i: u32, a: u64|
        #![trigger hunt_nft_entry_key(hunt_id, i), hunt_nft_exists_key(hunt_id, a)]
        hunt_nft_entry_key(hunt_id, i) != hunt_nft_exists_key(hunt_id, a) by {
        lemma_slot_tags_differ(hunt_nft_entry_tag(), seq![hb, u32_bytes(i)], hunt_nft_exists_tag(), seq![hb, u64_bytes(a)]);
    }
    assert forall|a: u64| hunt_nft_count_key(hunt_id) != #[trigger] hunt_nft_exists_key(hunt_id, a) by {
        lemma_slot_tags_differ(hunt_nft_count_tag(), seq![hb], hunt_nft_exists_tag(), seq![hb, u64_bytes(a)]);
    }
}

/// Different slots, lengths and markers of a hunt's player list have
/// different keys.
pub proof fn lemma_player_list_keys(hunt_id: u64)
    ensures
        forall|i: u32, j: u32|
            #![trigger player_entry_key(hunt_id, i), player_entry_key(hunt_id, j)]
            i != j ==> player_entry_key(hunt_id, i) != player_entry_key(hunt_id, j),
        forall|a: Seq<u8>, b: Seq<u8>|
            #![trigger player_exists_key(hunt_id, a), player_exists_key(hunt_id, b)]
            a != b && a.len() <= u64::MAX && b.len() <= u64::MAX ==> player_exists_key(hunt_id, a)
                != player_exists_key(hunt_id, b),
        forall|i: u32| #[trigger] player_entry_key(hunt_id, i) != player_count_key(hunt_id),
        forall|i: u32, a: Seq<u8>|
            #![trigger player_entry_key(hunt_id, i), player_exists_key(hunt_id, a)]
            player_entry_key(hunt_id, i) != player_exists_key(hunt_id, a),
        forall|a: Seq<u8>| player_count_key(hunt_id) != #[trigger] player_exists_key(hunt_id, a),
{
    let hb = u64_bytes(hunt_id);
    assert forall|i: u32, j: u32|
        #![trigger player_entry_key(hunt_id, i), player_entry_key(hunt_id, j)]
        i != j implies player_entry_key(hunt_id, i) != player_entry_key(hunt_id, j) by {
        if player_entry_key(hunt_id, i) == player_entry_key(hunt_id, j) {
            lemma_two_part_fits(player_entry_tag(), hb, u32_bytes(i));
            lemma_two_part_fits(player_entry_tag(), hb, u32_bytes(j));
            lemma_key_injective(player_entry_tag(), seq![hb, u32_bytes(i)], player_entry_tag(), seq![hb, u32_bytes(j)]);
            assert(seq![hb, u32_bytes(i)][1] == seq![hb, u32_bytes(j)][1]);
            lemma_u32_bytes_injective(i, j);
        }
    }
    assert forall|a: Seq<u8>, b: Seq<u8>|
        #![trigger player_exists_key(hunt_id, a), player_exists_key(hunt_id, b)]
        a != b && a.len() <= u64::MAX && b.len() <= u64::MAX implies player_exists_key(hunt_id, a)
            != player_exists_key(hunt_id, b) by {
        if player_exists_key(hunt_id, a) == player_exists_key(hunt_id, b) {
            lemma_long_part_fits(player_exists_tag(), hb, a);
            lemma_long_part_fits(player_exists_tag(), hb, b);
            lemma_key_injective(player_exists_tag(), seq![hb, a], player_exists_tag(), seq![hb, b]);
            assert(seq![hb, a][1] == seq![hb, b][1]);
        }
    }
    lemma_player_list_tags();
}

/// The tags of the three kinds of key of a player list differ, and so do
/// keys of different kinds.
proof fn lemma_player_list_tags()
    ensures
        forall|h: u64, i: u32| #[trigger] player_entry_key(h, i) != player_count_key(h),
        forall|h: u64, i: u32, a: Seq<u8>|
            #![trigger player_entry_key(h, i), player_exists_key(h, a)]
            player_entry_key(h, i) != player_exists_key(h, a),
        forall|h: u64, a: Seq<u8>| player_count_key(h) != #[trigger] player_exists_key(h, a),
{
    assert(player_entry_tag()[3] != player_count_tag()[3]);
    assert(player_entry_tag()[2] != player_exists_tag()[2]);
    assert(player_count_tag()[2] != player_exists_tag()[2]);
    assert forall|h: u64, i: u32| #[trigger] player_entry_key(h, i) != player_count_key(h) by {
        lemma_key_first_byte(player_entry_tag(), seq![u64_bytes(h), u32_bytes(i)]);
        lemma_slot_not_plain(player_count_tag(), seq![u64_bytes(h)], player_entry_key(h, i));
    }
    assert forall|h: u64, i: u32, a: Seq<u8>|
        #![trigger player_entry_key(h, i), player_exists_key(h, a)]
        player_entry_key(h, i) != player_exists_key(h, a) by {
        lemma_tags_differ(player_entry_tag(), seq![u64_bytes(h), u32_bytes(i)], player_exists_tag(), seq![u64_bytes(h), a]);
    }
    assert forall|h: u64, a: Seq<u8>| player_count_key(h) != #[trigger] player_exists_key(h, a) by {
        lemma_key_first_byte(player_exists_tag(), seq![u64_bytes(h), a]);
        lemma_slot_not_plain(player_count_tag(), seq![u64_bytes(h)], player_exists_key(h, a));
    }
}

/// The slots, length and markers of one owner's NFT list have keys apart
/// from the slots and length of another owner's list.
pub proof fn lemma_owner_nft_keys_of_other_owner(owner: Seq<u8>, other: Seq<u8>)
    requires
        owner != other,
        owner.len() <= u64::MAX,
        other.len() <= u64::MAX,
    ensures
        forall|i: u32, j: u32|
            #![trigger owner_nft_entry_key(owner, i), owner_nft_entry_key(other, j)]
            owner_nft_entry_key(owner, i) != owner_nft_entry_key(other, j),
        owner_nft_count_key(owner) != owner_nft_count_key(other),
        forall|a: u64, j: u32|
            #![trigger owner_nft_exists_key(owner, a), owner_nft_entry_key(other, j)]
            owner_nft_exists_key(owner, a) != owner_nft_entry_key(other, j),
        forall|j: u32| owner_nft_count_key(owner) != #[trigger] owner_nft_entry_key(other, j),
        forall|i: u32| #[trigger] owner_nft_entry_key(owner, i) != owner_nft_count_key(other),
        forall|a: u64| #[trigger] owner_nft_exists_key(owner, a) != owner_nft_count_key(other),
{
    assert forall|i: u32, j: u32|
        #![trigger owner_nft_entry_key(owner, i), owner_nft_entry_key(other, j)]
        owner_nft_entry_key(owner, i) != owner_nft_entry_key(other, j) by {
        if owner_nft_entry_key(owner, i) == owner_nft_entry_key(other, j) {
            let pi = seq![owner, u32_bytes(i)];
            let pj = seq![other, u32_bytes(j)];
            assert(fits(seq![owner_nft_entry_tag()] + pi)) by {
                assert((seq![owner_nft_entry_tag()] + pi)[1] == owner);
                assert((seq![owner_nft_entry_tag()] + pi)[2] == u32_bytes(i));
            }
            assert(fits(seq![owner_nft_entry_tag()] + pj)) by {
                assert((seq![owner_nft_entry_tag()] + pj)[1] == other);
                assert((seq![owner_nft_entry_tag()] + pj)[2] == u32_bytes(j));
            }
            lemma_key_injective(owner_nft_entry_tag(), pi, owner_nft_entry_tag(), pj);
            assert(pi[0] == pj[0]);
        }
    }
    if owner_nft_count_key(owner) == owner_nft_count_key(other) {
        let po = seq![owner];
        let pt = seq![other];
        assert(fits(seq![owner_nft_count_tag()] + po)) by {
            assert((seq![owner_nft_count_tag()] + po)[1] == owner);
        }
        assert(fits(seq![owner_nft_count_tag()] + pt)) by {
            assert((seq![owner_nft_count_tag()] + pt)[1] == other);
        }
        lemma_key_injective(owner_nft_count_tag(), po, owner_nft_count_tag(), pt);
        assert(po[0] == pt[0]);
    }
    assert(owner_nft_entry_tag()[3] != owner_nft_count_tag()[3]);
    assert(owner_nft_entry_tag()[3] != owner_nft_exists_tag()[3]);
    assert(owner_nft_count_tag()[3] != owner_nft_exists_tag()[3]);
    assert forall|a: u64, j: u32|
        #![trigger owner_nft_exists_key(owner, a), owner_nft_entry_key(other, j)]
        owner_nft_exists_key(owner, a) != owner_nft_entry_key(other, j) by {
        lemma_tags_differ(owner_nft_exists_tag(), seq![owner, u64_bytes(a)], owner_nft_entry_tag(), seq![other, u32_bytes(j)]);
    }
    assert forall|j: u32| owner_nft_count_key(owner) != #[trigger] owner_nft_entry_key(other, j) by {
        lemma_tags_differ(owner_nft_count_tag(), seq![owner], owner_nft_entry_tag(), seq![other, u32_bytes(j)]);
    }
    assert forall|i: u32| #[trigger] owner_nft_entry_key(owner, i) != owner_nft_count_key(other) by {
        lemma_tags_differ(owner_nft_entry_tag(), seq![owner, u32_bytes(i)], owner_nft_count_tag(), seq![other]);
    }
    assert forall|a: u64| #[trigger] owner_nft_exists_key(owner, a) != owner_nft_count_key(other) by {
        lemma_tags_differ(owner_nft_exists_tag(), seq![owner, u64_bytes(a)], owner_nft_count_tag(), seq![other]);
    }
}

/// Different slots, lengths and markers of an owner's NFT list have
/// different keys.
pub proof fn lemma_owner_nft_list_keys(owner: Seq<u8>)
    requires
        owner.len() <= u64::MAX,
    ensures
        forall|i: u32, j: u32|
            #![trigger owner_nft_entry_key(owner, i), owner_nft_entry_key(owner, j)]
            i != j ==> owner_nft_entry_key(owner, i) != owner_nft_entry_key(owner, j),
        forall|a: u64, b: u64|
            #![trigger owner_nft_exists_key(owner, a), owner_nft_exists_key(owner, b)]
            a != b ==> owner_nft_exists_key(owner, a) != owner_nft_exists_key(owner, b),
        forall|i: u32| #[trigger] owner_nft_entry_key(owner, i) != owner_nft_count_key(owner),
        forall|i: u32, a: u64|
            #![trigger owner_nft_entry_key(owner, i), owner_nft_exists_key(owner, a)]
            owner_nft_entry_key(owner, i) != owner_nft_exists_key(owner, a),
        forall|a: u64| owner_nft_count_key(owner) != #[trigger] owner_nft_exists_key(owner, a),
{
    assert forall|i: u32, j: u32|
        #![trigger owner_nft_entry_key(owner, i), owner_nft_entry_key(owner, j)]
        i != j implies owner_nft_entry_key(owner, i) != owner_nft_entry_key(owner, j) by {
        if owner_nft_entry_key(owner, i) == owner_nft_entry_key(owner, j) {
            let pi = seq![owner, u32_bytes(i)];
            let pj = seq![owner, u32_bytes(j)];
            assert(fits(seq![owner_nft_entry_tag()] + pi)) by {
                assert((seq![owner_nft_entry_tag()] + pi)[1] == owner);
                assert((seq![owner_nft_entry_tag()] + pi)[2] == u32_bytes(i));
            }
            assert(fits(seq![owner_nft_entry_tag()] + pj)) by {
                assert((seq![owner_nft_entry_tag()] + pj)[1] == owner);
                assert((seq![owner_nft_entry_tag()] + pj)[2] == u32_bytes(j));
            }
            lemma_key_injective(owner_nft_entry_tag(), pi, owner_nft_entry_tag(), pj);
            assert(pi[1] == pj[1]);
            lemma_u32_bytes_injective(i, j);
        }
    }
    assert forall|a: u64, b: u64|
        #![trigger owner_nft_exists_key(owner, a), owner_nft_exists_key(owner, b)]
        a != b implies owner_nft_exists_key(owner, a) != owner_nft_exists_key(owner, b) by {
        if owner_nft_exists_key(owner, a) == owner_nft_exists_key(owner, b) {
            let pa = seq![owner, u64_bytes(a)];
            let pb = seq![owner, u64_bytes(b)];
            assert(fits(seq![owner_nft_exists_tag()] + pa)) by {
                assert((seq![owner_nft_exists_tag()] + pa)[1] == owner);
                assert((seq![owner_nft_exists_tag()] + pa)[2] == u64_bytes(a));
            }
            assert(fits(seq![owner_nft_exists_tag()] + pb)) by {
                assert((seq![owner_nft_exists_tag()] + pb)[1] == owner);
                assert((seq![owner_nft_exists_tag()] + pb)[2] == u64_bytes(b));
            }
            lemma_key_injective(owner_nft_exists_tag(), pa, owner_nft_exists_tag(), pb);
            assert(pa[1] == pb[1]);
            lemma_u64_bytes_injective(a, b);
        }
    }
    assert(owner_nft_entry_tag()[3] != owner_nft_count_tag()[3]);
    assert(owner_nft_entry_tag()[3] != owner_nft_exists_tag()[3]);
    assert(owner_nft_count_tag()[3] != owner_nft_exists_tag()[3]);
    assert forall|i: u32| #[trigger] owner_nft_entry_key(owner, i) != owner_nft_count_key(owner) by {
        lemma_tags_differ(owner_nft_entry_tag(), seq![owner, u32_bytes(i)], owner_nft_count_tag(), seq![owner]);
    }
    assert forall|i: u32, a: u64|
        #![trigger owner_nft_entry_key(owner, i), owner_nft_exists_key(owner, a)]
        owner_nft_entry_key(owner, i) != owner_nft_exists_key(owner, a) by {
        lemma_tags_differ(owner_nft_entry_tag(), seq![owner, u32_bytes(i)], owner_nft_exists_tag(), seq![owner, u64_bytes(a)]);
    }
    assert forall|a: u64| owner_nft_count_key(owner) != #[trigger] owner_nft_exists_key(owner, a) by {
        lemma_tags_differ(owner_nft_count_tag(), seq![owner], owner_nft_exists_tag(), seq![owner, u64_bytes(a)]);
    }
}

/// A key whose second part may be long still fits when that part does.
proof fn lemma_long_part_fits(t: Seq<u8>, a: Seq<u8>, b: Seq<u8>)
    requires
        t.len() <= 8,
        a.len() <= 8,
        b.len() <= u64::MAX,
    ensures
        fits(seq![t] + seq![a, b]),
{
    let s = seq![t] + seq![a, b];
    assert(s[0] == t);
    assert(s[1] == a);
    assert(s[2] == b);
}

/// The supply cap's key and the set-up flag's key differ.
pub proof fn lemma_supply_keys_distinct()
    ensures
        max_supply_key() != initialized_key(),
{
    assert(max_supply_tag()[0] != initialized_tag()[0]);
    lemma_slot_tags_differ(max_supply_tag(), Seq::empty(), initialized_tag(), Seq::empty());
}

/// Different hunts have different keys.
pub proof fn lemma_hunt_key_injective(a: u64, b: u64)
    ensures
        (hunt_key(a) == hunt_key(b)) == (a == b),
{
    if a != b && hunt_key(a) == hunt_key(b) {
        let pa = seq![u64_bytes(a)];
        let pb = seq![u64_bytes(b)];
        lemma_u64_roundtrip(a);
        lemma_u64_roundtrip(b);
        assert(fits(seq![hunt_tag()] + pa)) by {
            assert((seq![hunt_tag()] + pa)[1] == u64_bytes(a));
        }
        assert(fits(seq![hunt_tag()] + pb)) by {
            assert((seq![hunt_tag()] + pb)[1] == u64_bytes(b));
        }
        lemma_key_injective(hunt_tag(), pa, hunt_tag(), pb);
        assert(pa[0] == pb[0]);
        lemma_u64_bytes_injective(a, b);
    }
}

/// Different players' progress in a hunt have different keys.
pub proof fn lemma_progress_key_injective(hunt_id: u64, a: Seq<u8>, b: Seq<u8>)
    requires
        a.len() <= u64::MAX,
        b.len() <= u64::MAX,
        a != b,
    ensures
        progress_key(hunt_id, a) != progress_key(hunt_id, b),
{
    let hb = u64_bytes(hunt_id);
    lemma_u64_roundtrip(hunt_id);
    if progress_key(hunt_id, a) == progress_key(hunt_id, b) {
        lemma_long_part_fits(progress_tag(), hb, a);
        lemma_long_part_fits(progress_tag(), hb, b);
        lemma_key_injective(progress_tag(), seq![hb, a], progress_tag(), seq![hb, b]);
        assert(seq![hb, a][1] == seq![hb, b][1]);
    }
}

/// Progress in different hunts has different keys, whoever the players.
pub proof fn lemma_progress_key_of_other_hunt(hunt_id: u64, a: Seq<u8>, other: u64, b: Seq<u8>)
    requires
        a.len() <= u64::MAX,
        b.len() <= u64::MAX,
        hunt_id != other,
    ensures
        progress_key(hunt_id, a) != progress_key(other, b),
{
    let hb = u64_bytes(hunt_id);
    let ob = u64_bytes(other);
    lemma_u64_bytes_injective(hunt_id, other);
    if progress_key(hunt_id, a) == progress_key(other, b) {
        lemma_long_part_fits(progress_tag(), hb, a);
        lemma_long_part_fits(progress_tag(), ob, b);
        lemma_key_injective(progress_tag(), seq![hb, a], progress_tag(), seq![ob, b]);
        assert(seq![hb, a][0] == seq![ob, b][0]);
    }
}

/// Clues under different hunts or different clue ids have different keys.
pub proof fn lemma_clue_key_injective(hunt_id: u64, clue_id: u32, other: u64, other_clue: u32)
    requires
        hunt_id != other || clue_id != other_clue,
    ensures
        clue_key(hunt_id, clue_id) != clue_key(other, other_clue),
{
    let hb = u64_bytes(hunt_id);
    let ob = u64_bytes(other);
    lemma_u64_bytes_injective(hunt_id, other);
    lemma_u32_bytes_injective(clue_id, other_clue);
    if clue_key(hunt_id, clue_id) == clue_key(other, other_clue) {
        lemma_two_part_fits(clue_tag(), hb, u32_bytes(clue_id));
        lemma_two_part_fits(clue_tag(), ob, u32_bytes(other_clue));
        lemma_key_injective(clue_tag(), seq![hb, u32_bytes(clue_id)], clue_tag(), seq![ob, u32_bytes(other_clue)]);
        assert(seq![hb, u32_bytes(clue_id)][0] == seq![ob, u32_bytes(other_clue)][0]);
        assert(seq![hb, u32_bytes(clue_id)][1] == seq![ob, u32_bytes(other_clue)][1]);
    }
}

/// Different NFTs have different keys.
pub proof fn lemma_nft_key_injective(a: u64, b: u64)
    requires
        a != b,
    ensures
        nft_key(a) != nft_key(b),
{
    lemma_u64_bytes_injective(a, b);
    if nft_key(a) == nft_key(b) {
        let pa = seq![u64_bytes(a)];
        let pb = seq![u64_bytes(b)];
        assert(fits(seq![nft_tag()] + pa)) by {
            assert((seq![nft_tag()] + pa)[1] == u64_bytes(a));
        }
        assert(fits(seq![nft_tag()] + pb)) by {
            assert((seq![nft_tag()] + pb)[1] == u64_bytes(b));
        }
        lemma_key_injective(nft_tag(), pa, nft_tag(), pb);
        assert(pa[0] == pb[0]);
    }
}

/// Different minters have different keys.
pub proof fn lemma_minter_key_injective(a: Seq<u8>, b: Seq<u8>)
    requires
        a != b,
        a.len() <= u64::MAX,
        b.len() <= u64::MAX,
    ensures
        minter_key(a) != minter_key(b),
{
    if minter_key(a) == minter_key(b) {
        let pa = seq![a];
        let pb = seq![b];
        assert(fits(seq![minter_tag()] + pa)) by {
            assert((seq![minter_tag()] + pa)[1] == a);
        }
        assert(fits(seq![minter_tag()] + pb)) by {
            assert((seq![minter_tag()] + pb)[1] == b);
        }
        lemma_key_injective(minter_tag(), pa, minter_tag(), pb);
        assert(pa[0] == pb[0]);
    }
}

/// Different (owner, operator) pairs have different keys.
pub proof fn lemma_operator_key_injective(owner: Seq<u8>, operator: Seq<u8>, o2: Seq<u8>, p2: Seq<u8>)
    requires
        owner != o2 || operator != p2,
        owner.len() <= u64::MAX,
        operator.len() <= u64::MAX,
        o2.len() <= u64::MAX,
        p2.len() <= u64::MAX,
    ensures
        operator_key(owner, operator) != operator_key(o2, p2),
{
    if operator_key(owner, operator) == operator_key(o2, p2) {
        let pa = seq![owner, operator];
        let pb = seq![o2, p2];
        assert(fits(seq![operator_tag()] + pa)) by {
            assert((seq![operator_tag()] + pa)[1] == owner);
            assert((seq![operator_tag()] + pa)[2] == operator);
        }
        assert(fits(seq![operator_tag()] + pb)) by {
            assert((seq![operator_tag()] + pb)[1] == o2);
            assert((seq![operator_tag()] + pb)[2] == p2);
        }
        lemma_key_injective(operator_tag(), pa, operator_tag(), pb);
        assert(pa[0] == pb[0]);
        assert(pa[1] == pb[1]);
    }
}

/// The keys of the clue lists of two different hunts differ.
pub proof fn lemma_clue_list_keys_of_other_hunt(hunt_id: u64, other: u64)
    requires
        hunt_id != other,
    ensures
        forall|i: u32, j: u32|
            #![trigger clue_entry_key(hunt_id, i), clue_entry_key(other, j)]
            clue_entry_key(hunt_id, i) != clue_entry_key(other, j),
        forall|a: u32, i: u32|
            #![trigger clue_exists_key(hunt_id, a), clue_entry_key(other, i)]
            clue_exists_key(hunt_id, a) != clue_entry_key(other, i),
        forall|a: u32| #![trigger clue_exists_key(hunt_id, a)] clue_exists_key(hunt_id, a) != clue_count_key(other),
        forall|i: u32| #![trigger clue_entry_key(other, i)] clue_count_key(hunt_id) != clue_entry_key(other, i),
        clue_count_key(hunt_id) != clue_count_key(other),
        forall|i: u32| #![trigger clue_entry_key(hunt_id, i)] clue_entry_key(hunt_id, i) != clue_count_key(other),
{
    let hb = u64_bytes(hunt_id);
    let ob = u64_bytes(other);
    lemma_u64_bytes_injective(hunt_id, other);
    assert forall|i: u32, j: u32|
        #![trigger clue_entry_key(hunt_id, i), clue_entry_key(other, j)]
        clue_entry_key(hunt_id, i) != clue_entry_key(other, j) by {
        if clue_entry_key(hunt_id, i) == clue_entry_key(other, j) {
            lemma_two_part_fits(clue_entry_tag(), hb, u32_bytes(i));
            lemma_two_part_fits(clue_entry_tag(), ob, u32_bytes(j));
            lemma_slot_injective(clue_entry_tag(), seq![hb, u32_bytes(i)], clue_entry_tag(), seq![ob, u32_bytes(j)]);
            assert(seq![hb, u32_bytes(i)][0] == seq![ob, u32_bytes(j)][0]);
        }
    }
    assert(clue_exists_tag()[2] != clue_entry_tag()[2]);
    assert(clue_exists_tag()[2] != clue_count_tag()[2]);
    assert(clue_count_tag()[2] != clue_entry_tag()[2]);
    assert forall|a: u32, i: u32|
        #![trigger clue_exists_key(hunt_id, a), clue_entry_key(other, i)]
        clue_exists_key(hunt_id, a) != clue_entry_key(other, i) by {
        lemma_slot_tags_differ(clue_exists_tag(), seq![hb, u32_bytes(a)], clue_entry_tag(), seq![ob, u32_bytes(i)]);
    }
    assert forall|a: u32| #![trigger clue_exists_key(hunt_id, a)] clue_exists_key(hunt_id, a) != clue_count_key(other) by {
        lemma_slot_tags_differ(clue_exists_tag(), seq![hb, u32_bytes(a)], clue_count_tag(), seq![ob]);
    }
    assert forall|i: u32| #![trigger clue_entry_key(other, i)] clue_count_key(hunt_id) != clue_entry_key(other, i) by {
        lemma_slot_tags_differ(clue_count_tag(), seq![hb], clue_entry_tag(), seq![ob, u32_bytes(i)]);
    }
    assert forall|i: u32| #![trigger clue_entry_key(hunt_id, i)] clue_entry_key(hunt_id, i) != clue_count_key(other) by {
        lemma_slot_tags_differ(clue_entry_tag(), seq![hb, u32_bytes(i)], clue_count_tag(), seq![ob]);
    }
    if clue_count_key(hunt_id) == clue_count_key(other) {
        assert(fits(seq![clue_count_tag()] + seq![hb])) by {
            assert((seq![clue_count_tag()] + seq![hb])[1] == hb);
        }
        assert(fits(seq![clue_count_tag()] + seq![ob])) by {
            assert((seq![clue_count_tag()] + seq![ob])[1] == ob);
        }
        lemma_slot_injective(clue_count_tag(), seq![hb], clue_count_tag(), seq![ob]);
        assert(seq![hb][0] == seq![ob][0]);
    }
}

/// The slots, length and markers of one hunt's NFT list have keys apart
/// from the slots and length of another hunt's NFT list.
pub proof fn lemma_hunt_nft_list_keys_of_other_hunt(hunt_id: u64, other: u64)
    requires
        hunt_id != other,
    ensures
        forall|i: u32, j: u32|
            #![trigger hunt_nft_entry_key(hunt_id, i), hunt_nft_entry_key(other, j)]
            hunt_nft_entry_key(hunt_id, i) != hunt_nft_entry_key(other, j),
        forall|a: u64, i: u32|
            #![trigger hunt_nft_exists_key(hunt_id, a), hunt_nft_entry_key(other, i)]
            hunt_nft_exists_key(hunt_id, a) != hunt_nft_entry_key(other, i),
        forall|a: u64| #![trigger hunt_nft_exists_key(hunt_id, a)] hunt_nft_exists_key(hunt_id, a) != hunt_nft_count_key(other),
        forall|i: u32| #![trigger hunt_nft_entry_key(other, i)] hunt_nft_count_key(hunt_id) != hunt_nft_entry_key(other, i),
        hunt_nft_count_key(hunt_id) != hunt_nft_count_key(other),
        forall|i: u32| #![trigger hunt_nft_entry_key(hunt_id, i)] hunt_nft_entry_key(hunt_id, i) != hunt_nft_count_key(other),
{
    let hb = u64_bytes(hunt_id);
    let ob = u64_bytes(other);
    lemma_u64_bytes_injective(hunt_id, other);
    assert forall|i: u32, j: u32|
        #![trigger hunt_nft_entry_key(hunt_id, i), hunt_nft_entry_key(other, j)]
        hunt_nft_entry_key(hunt_id, i) != hunt_nft_entry_key(other, j) by {
        if hunt_nft_entry_key(hunt_id, i) == hunt_nft_entry_key(other, j) {
            lemma_two_part_fits(hunt_nft_entry_tag(), hb, u32_bytes(i));
            lemma_two_part_fits(hunt_nft_entry_tag(), ob, u32_bytes(j));
            lemma_slot_injective(hunt_nft_entry_tag(), seq![hb, u32_bytes(i)], hunt_nft_entry_tag(), seq![ob, u32_bytes(j)]);
            assert(seq![hb, u32_bytes(i)][0] == seq![ob, u32_bytes(j)][0]);
        }
    }
    assert(hunt_nft_exists_tag()[3] != hunt_nft_entry_tag()[3]);
    assert(hunt_nft_exists_tag()[3] != hunt_nft_count_tag()[3]);
    assert(hunt_nft_count_tag()[3] != hunt_nft_entry_tag()[3]);
    assert forall|a: u64, i: u32|
        #![trigger hunt_nft_exists_key(hunt_id, a), hunt_nft_entry_key(other, i)]
        hunt_nft_exists_key(hunt_id, a) != hunt_nft_entry_key(other, i) by {
        lemma_slot_tags_differ(hunt_nft_exists_tag(), seq![hb, u64_bytes(a)], hunt_nft_entry_tag(), seq![ob, u32_bytes(i)]);
    }
    assert forall|a: u64| #![trigger hunt_nft_exists_key(hunt_id, a)] hunt_nft_exists_key(hunt_id, a) != hunt_nft_count_key(other) by {
        lemma_slot_tags_differ(hunt_nft_exists_tag(), seq![hb, u64_bytes(a)], hunt_nft_count_tag(), seq![ob]);
    }
    assert forall|i: u32| #![trigger hunt_nft_entry_key(other, i)] hunt_nft_count_key(hunt_id) != hunt_nft_entry_key(other, i) by {
        lemma_slot_tags_differ(hunt_nft_count_tag(), seq![hb], hunt_nft_entry_tag(), seq![ob, u32_bytes(i)]);
    }
    assert forall|i: u32| #![trigger hunt_nft_entry_key(hunt_id, i)] hunt_nft_entry_key(hunt_id, i) != hunt_nft_count_key(other) by {
        lemma_slot_tags_differ(hunt_nft_entry_tag(), seq![hb, u32_bytes(i)], hunt_nft_count_tag(), seq![ob]);
    }
    if hunt_nft_count_key(hunt_id) == hunt_nft_count_key(other) {
        assert(fits(seq![hunt_nft_count_tag()] + seq![hb])) by {
            assert((seq![hunt_nft_count_tag()] + seq![hb])[1] == hb);
        }
        assert(fits(seq![hunt_nft_count_tag()] + seq![ob])) by {
            assert((seq![hunt_nft_count_tag()] + seq![ob])[1] == ob);
        }
        lemma_slot_injective(hunt_nft_count_tag(), seq![hb], hunt_nft_count_tag(), seq![ob]);
        assert(seq![hb][0] == seq![ob][0]);
    }
}

/// The slots, length and markers of one hunt's player list have keys apart
/// from the slots and length of another hunt's player list.
pub proof fn lemma_player_list_keys_of_other_hunt(hunt_id: u64, other: u64)
    requires
        hunt_id != other,
    ensures
        forall|i: u32, j: u32|
            #![trigger player_entry_key(hunt_id, i), player_entry_key(other, j)]
            player_entry_key(hunt_id, i) != player_entry_key(other, j),
        forall|a: Seq<u8>, i: u32|
            #![trigger player_exists_key(hunt_id, a), player_entry_key(other, i)]
            player_exists_key(hunt_id, a) != player_entry_key(other, i),
        forall|a: Seq<u8>| #![trigger player_exists_key(hunt_id, a)] player_exists_key(hunt_id, a) != player_count_key(other),
        forall|i: u32| #![trigger player_entry_key(other, i)] player_count_key(hunt_id) != player_entry_key(other, i),
        player_count_key(hunt_id) != player_count_key(other),
        forall|i: u32| #![trigger player_entry_key(hunt_id, i)] player_entry_key(hunt_id, i) != player_count_key(other),
{
    let hb = u64_bytes(hunt_id);
    let ob = u64_bytes(other);
    lemma_u64_bytes_injective(hunt_id, other);
    assert forall|i: u32, j: u32|
        #![trigger player_entry_key(hunt_id, i), player_entry_key(other, j)]
        player_entry_key(hunt_id, i) != player_entry_key(other, j) by {
        if player_entry_key(hunt_id, i) == player_entry_key(other, j) {
            lemma_two_part_fits(player_entry_tag(), hb, u32_bytes(i));
            lemma_two_part_fits(player_entry_tag(), ob, u32_bytes(j));
            lemma_key_injective(player_entry_tag(), seq![hb, u32_bytes(i)], player_entry_tag(), seq![ob, u32_bytes(j)]);
            assert(seq![hb, u32_bytes(i)][0] == seq![ob, u32_bytes(j)][0]);
        }
    }
    assert(player_entry_tag()[2] != player_exists_tag()[2]);
    assert forall|a: Seq<u8>, i: u32|
        #![trigger player_exists_key(hunt_id, a), player_entry_key(other, i)]
        player_exists_key(hunt_id, a) != player_entry_key(other, i) by {
        lemma_tags_differ(player_exists_tag(), seq![hb, a], player_entry_tag(), seq![ob, u32_bytes(i)]);
    }
    assert forall|a: Seq<u8>| #![trigger player_exists_key(hunt_id, a)] player_exists_key(hunt_id, a) != player_count_key(other) by {
        lemma_key_first_byte(player_exists_tag(), seq![hb, a]);
        lemma_slot_not_plain(player_count_tag(), seq![ob], player_exists_key(hunt_id, a));
    }
    assert forall|i: u32| #![trigger player_entry_key(other, i)] player_count_key(hunt_id) != player_entry_key(other, i) by {
        lemma_key_first_byte(player_entry_tag(), seq![ob, u32_bytes(i)]);
        lemma_slot_not_plain(player_count_tag(), seq![hb], player_entry_key(other, i));
    }
    assert forall|i: u32| #![trigger player_entry_key(hunt_id, i)] player_entry_key(hunt_id, i) != player_count_key(other) by {
        lemma_key_first_byte(player_entry_tag(), seq![hb, u32_bytes(i)]);
        lemma_slot_not_plain(player_count_tag(), seq![ob], player_entry_key(hunt_id, i));
    }
    if player_count_key(hunt_id) == player_count_key(other) {
        assert(fits(seq![player_count_tag()] + seq![hb])) by {
            assert((seq![player_count_tag()] + seq![hb])[1] == hb);
        }
        assert(fits(seq![player_count_tag()] + seq![ob])) by {
            assert((seq![player_count_tag()] + seq![ob])[1] == ob);
        }
        lemma_slot_injective(player_count_tag(), seq![hb], player_count_tag(), seq![ob]);
        assert(seq![hb][0] == seq![ob][0]);
    }
}

/// The schema version's key and the rollback point's key differ.
pub proof fn lemma_schema_rollback_distinct()
    ensures
        schema_key() != rollback_key(),
{
    assert(schema_tag()[0] != rollback_tag()[0]);
    lemma_slot_tags_differ(schema_tag(), Seq::empty(), rollback_tag(), Seq::empty());
}

/// The hunt counter's key is neither the schema version's nor the rollback
/// point's.
pub proof fn lemma_counter_key_distinct()
    ensures
        counter_key() != rollback_key(),
        counter_key() != schema_key(),
{
    assert(counter_tag()[0] != rollback_tag()[0]);
    assert(counter_tag()[0] != schema_tag()[0]);
    lemma_slot_tags_differ(counter_tag(), Seq::empty(), rollback_tag(), Seq::empty());
    lemma_slot_tags_differ(counter_tag(), Seq::empty(), schema_tag(), Seq::empty());
}

/// Different integers have different bytes.
pub proof fn lemma_u64_bytes_injective(a: u64, b: u64)
    ensures
        (u64_bytes(a) == u64_bytes(b)) == (a == b),
{
    lemma_u64_roundtrip(a);
    lemma_u64_roundtrip(b);
}

/// Different integers have different bytes.
pub proof fn lemma_u32_bytes_injective(a: u32, b: u32)
    ensures
        (u32_bytes(a) == u32_bytes(b)) == (a == b),
{
    lemma_u32_roundtrip(a);
    lemma_u32_roundtrip(b);
}

/// The key made of `tag` and the bytes in `parts`.
fn build_key(tag: &[u8], parts: Vec<Vec<u8>>) -> (res: Vec<u8>)
    ensures
        res@ == key_of(tag@, views(parts@)),
{
    let mut fs: Vec<Vec<u8>> = Vec::new();
    fs.push(copy_bytes(tag));
    let mut parts = parts;
    let ghost ps = parts@;
    fs.append(&mut parts);
    assert(views(fs@) =~= seq![tag@] + views(ps));
    write_record(&fs)
}

pub open spec fn hunt_tag() -> Seq<u8> {
    seq![72u8, 85, 78, 84]
}
pub open spec fn clue_tag() -> Seq<u8> {
    seq![67u8, 76, 85, 69]
}
pub open spec fn progress_tag() -> Seq<u8> {
    seq![80u8, 82, 79, 71]
}
pub open spec fn player_entry_tag() -> Seq<u8> {
    seq![80u8, 76, 82, 83]
}
pub open spec fn player_count_tag() -> Seq<u8> {
    seq![80u8, 76, 67, 84]
}
pub open spec fn player_exists_tag() -> Seq<u8> {
    seq![80u8, 76, 69, 88]
}
pub open spec fn clue_entry_tag() -> Seq<u8> {
    seq![67u8, 76, 83, 84]
}
pub open spec fn clue_count_tag() -> Seq<u8> {
    seq![67u8, 76, 67, 84]
}
pub open spec fn clue_exists_tag() -> Seq<u8> {
    seq![67u8, 76, 69, 88]
}
pub open spec fn counter_tag() -> Seq<u8> {
    seq![67u8, 78, 84, 82]
}
pub open spec fn clue_counter_tag() -> Seq<u8> {
    seq![67u8, 67, 78, 84]
}
pub open spec fn reward_manager_tag() -> Seq<u8> {
    seq![82u8, 87, 68, 77, 71, 82]
}
pub open spec fn nft_tag() -> Seq<u8> {
    seq![78u8, 70, 84]
}
pub open spec fn owner_nft_count_tag() -> Seq<u8> {
    seq![79u8, 78, 70, 67]
}
pub open spec fn hunt_nft_count_tag() -> Seq<u8> {
    seq![72u8, 78, 70, 67]
}
pub open spec fn max_supply_tag() -> Seq<u8> {
    seq![77u8, 65, 88, 83]
}
pub open spec fn initialized_tag() -> Seq<u8> {
    seq![73u8, 78, 73, 84]
}
pub open spec fn admin_tag() -> Seq<u8> {
    seq![65u8, 68, 77, 73, 78]
}
pub open spec fn minter_tag() -> Seq<u8> {
    seq![77u8, 78, 84, 82]
}
pub open spec fn owner_nft_entry_tag() -> Seq<u8> {
    seq![79u8, 78, 70, 84]
}
pub open spec fn owner_nft_exists_tag() -> Seq<u8> {
    seq![79u8, 78, 70, 88]
}
pub open spec fn hunt_nft_entry_tag() -> Seq<u8> {
    seq![72u8, 78, 70, 84]
}
pub open spec fn hunt_nft_exists_tag() -> Seq<u8> {
    seq![72u8, 78, 70, 88]
}
pub open spec fn operator_tag() -> Seq<u8> {
    seq![79u8, 80, 82]
}
pub open spec fn contract_version_tag() -> Seq<u8> {
    seq![67u8, 86, 69, 82]
}
pub open spec fn schema_tag() -> Seq<u8> {
    seq![83u8, 67, 72, 69, 77, 65]
}
pub open spec fn rollback_tag() -> Seq<u8> {
    seq![82u8, 66, 75, 86, 69, 82]
}

/// The bytes of a text made of ASCII characters.
pub open spec fn ascii(s: Seq<char>) -> Seq<u8> {
    Seq::new(s.len(), |i: int| s[i] as u8)
}

/// How the key of a scalar entry is written: the byte 0xFF, then the
/// record of its symbol's text and the big-endian bytes of its numbers.
pub open spec fn slot_key(tag: Seq<u8>, parts: Seq<Seq<u8>>) -> Seq<u8> {
    seq![0xFFu8] + key_of(tag, parts)
}

/// The key of a scalar entry, as the host holds it: a symbol, or a tuple of
/// a symbol and numbers.
pub enum SlotKey {
    Sym(&'static str),
    SymU64(&'static str, u64),
    SymU64U32(&'static str, u64, u32),
    SymU64U64(&'static str, u64, u64),
}

/// A text the host accepts as a symbol: at most 32 characters, each an
/// ASCII letter, digit or `_`.
pub open spec fn valid_symbol(t: Seq<char>) -> bool {
    &&& t.len() <= 32
    &&& forall|i: int|
        0 <= i < t.len() ==> {
            let c = #[trigger] t[i];
            ('a' <= c && c <= 'z') || ('A' <= c && c <= 'Z') || ('0' <= c && c <= '9') || c == '_'
        }
}

impl SlotKey {
    /// The key's symbol is one the host accepts.
    pub open spec fn valid(&self) -> bool {
        match *self {
            SlotKey::Sym(t) => valid_symbol(t@),
            SlotKey::SymU64(t, _) => valid_symbol(t@),
            SlotKey::SymU64U32(t, _, _) => valid_symbol(t@),
            SlotKey::SymU64U64(t, _, _) => valid_symbol(t@),
        }
    }
}

impl View for SlotKey {
    type V = Seq<u8>;

    open spec fn view(&self) -> Seq<u8> {
        match *self {
            SlotKey::Sym(t) => slot_key(ascii(t@), Seq::empty()),
            SlotKey::SymU64(t, a) => slot_key(ascii(t@), seq![u64_bytes(a)]),
            SlotKey::SymU64U32(t, a, b) => slot_key(ascii(t@), seq![u64_bytes(a), u32_bytes(b)]),
            SlotKey::SymU64U64(t, a, b) => slot_key(ascii(t@), seq![u64_bytes(a), u64_bytes(b)]),
        }
    }
}

/// How a key that is a byte string is written: as itself. The library's
/// byte-string keys begin with the byte 0.
pub open spec fn plain_key(k: Seq<u8>) -> bool {
    k.len() > 0 && k[0] == 0
}

/// A key of a few fields begins with the byte 0.
pub proof fn lemma_key_first_byte(tag: Seq<u8>, parts: Seq<Seq<u8>>)
    requires
        parts.len() < 0xFF_FFFF,
    ensures
        plain_key(key_of(tag, parts)),
{
    reveal(record);
    let n = (1 + parts.len()) as u64;
    assert((seq![tag] + parts).len() == n);
    assert((n >> 56u64) as u8 == 0) by (bit_vector)
        requires
            n < 0x100_0000,
    ;
    assert(key_of(tag, parts)[0] == u64_bytes(n)[0]);
}

/// A scalar entry's key is no byte-string key.
pub proof fn lemma_slot_not_plain(tag: Seq<u8>, parts: Seq<Seq<u8>>, k: Seq<u8>)
    requires
        plain_key(k),
    ensures
        slot_key(tag, parts) != k,
{
    assert(slot_key(tag, parts)[0] == 0xFF);
}

/// Scalar entries' keys with different tags differ.
pub proof fn lemma_slot_tags_differ(t1: Seq<u8>, p1: Seq<Seq<u8>>, t2: Seq<u8>, p2: Seq<Seq<u8>>)
    requires
        t1.len() <= u64::MAX,
        t2.len() <= u64::MAX,
        p1.len() < u64::MAX,
        p2.len() < u64::MAX,
        t1 != t2,
    ensures
        slot_key(t1, p1) != slot_key(t2, p2),
{
    lemma_tags_differ(t1, p1, t2, p2);
    if slot_key(t1, p1) == slot_key(t2, p2) {
        assert(slot_key(t1, p1).skip(1) =~= key_of(t1, p1));
        assert(slot_key(t2, p2).skip(1) =~= key_of(t2, p2));
    }
}

/// Scalar entries' keys with the same tag and different parts differ.
pub proof fn lemma_slot_injective(t1: Seq<u8>, p1: Seq<Seq<u8>>, t2: Seq<u8>, p2: Seq<Seq<u8>>)
    requires
        fits(seq![t1] + p1),
        fits(seq![t2] + p2),
        slot_key(t1, p1) == slot_key(t2, p2),
    ensures
        t1 == t2,
        p1 == p2,
{
    assert(slot_key(t1, p1).skip(1) =~= key_of(t1, p1));
    assert(slot_key(t2, p2).skip(1) =~= key_of(t2, p2));
    lemma_key_injective(t1, p1, t2, p2);
}

/// The key of: a hunt.
pub open spec fn hunt_key(hunt_id: u64) -> Seq<u8> {
    key_of(hunt_tag(), seq![u64_bytes(hunt_id)])
}

pub fn hunt_key_bytes(hunt_id: u64) -> (res: Vec<u8>)
    ensures
        res@ == hunt_key(hunt_id),
        plain_key(res@),
{
    let mut parts: Vec<Vec<u8>> = Vec::new();
    parts.push(u64_field(hunt_id));
    assert(views(parts@) =~= seq![u64_bytes(hunt_id)]);
    let res = build_key(&[72u8, 85, 78, 84], parts);
    proof {
        lemma_key_first_byte(hunt_tag(), seq![u64_bytes(hunt_id)]);
    }
    res
}

/// The key of: a clue of a hunt.
pub open spec fn clue_key(hunt_id: u64, clue_id: u32) -> Seq<u8> {
    key_of(clue_tag(), seq![u64_bytes(hunt_id), u32_bytes(clue_id)])
}

pub fn clue_key_bytes(hunt_id: u64, clue_id: u32) -> (res: Vec<u8>)
    ensures
        res@ == clue_key(hunt_id, clue_id),
        plain_key(res@),
{
    let mut parts: Vec<Vec<u8>> = Vec::new();
    parts.push(u64_field(hunt_id));
    parts.push(u32_field(clue_id));
    assert(views(parts@) =~= seq![u64_bytes(hunt_id), u32_bytes(clue_id)]);
    let res = build_key(&[67u8, 76, 85, 69], parts);
    proof {
        lemma_key_first_byte(clue_tag(), seq![u64_bytes(hunt_id), u32_bytes(clue_id)]);
    }
    res
}

/// The key of: a player's stored progress in a hunt.
pub open spec fn progress_key(hunt_id: u64, player: Seq<u8>) -> Seq<u8> {
    key_of(progress_tag(), seq![u64_bytes(hunt_id), player])
}

pub fn progress_key_bytes(hunt_id: u64, player: &Address) -> (res: Vec<u8>)
    ensures
        res@ == progress_key(hunt_id, player@),
        plain_key(res@),
{
    let mut parts: Vec<Vec<u8>> = Vec::new();
    parts.push(u64_field(hunt_id));
    parts.push(copy_bytes(player.strkey.as_slice()));
    assert(views(parts@) =~= seq![u64_bytes(hunt_id), player@]);
    let res = build_key(&[80u8, 82, 79, 71], parts);
    proof {
        lemma_key_first_byte(progress_tag(), seq![u64_bytes(hunt_id), player@]);
    }
    res
}

/// The key of: the `index`-th entry of a hunt's player list.
pub open spec fn player_entry_key(hunt_id: u64, index: u32) -> Seq<u8> {
    key_of(player_entry_tag(), seq![u64_bytes(hunt_id), u32_bytes(index)])
}

pub fn player_entry_key_bytes(hunt_id: u64, index: u32) -> (res: Vec<u8>)
    ensures
        res@ == player_entry_key(hunt_id, index),
        plain_key(res@),
{
    let mut parts: Vec<Vec<u8>> = Vec::new();
    parts.push(u64_field(hunt_id));
    parts.push(u32_field(index));
    assert(views(parts@) =~= seq![u64_bytes(hunt_id), u32_bytes(index)]);
    let res = build_key(&[80u8, 76, 82, 83], parts);
    proof {
        lemma_key_first_byte(player_entry_tag(), seq![u64_bytes(hunt_id), u32_bytes(index)]);
    }
    res
}

/// The key of: the length of a hunt's player list.
pub open spec fn player_count_key(hunt_id: u64) -> Seq<u8> {
    slot_key(player_count_tag(), seq![u64_bytes(hunt_id)])
}

pub fn player_count_key_slot(hunt_id: u64) -> (res: SlotKey)
    ensures
        res@ == player_count_key(hunt_id),
        res.valid(),
{
    proof {
        reveal_strlit("PLCT");
        assert(ascii("PLCT"@) =~= player_count_tag());
    }
    SlotKey::SymU64("PLCT", hunt_id)
}

/// The key of: the marker that a player is on a hunt's player list.
pub open spec fn player_exists_key(hunt_id: u64, player: Seq<u8>) -> Seq<u8> {
    key_of(player_exists_tag(), seq![u64_bytes(hunt_id), player])
}

pub fn player_exists_key_bytes(hunt_id: u64, player: &Address) -> (res: Vec<u8>)
    ensures
        res@ == player_exists_key(hunt_id, player@),
        plain_key(res@),
{
    let mut parts: Vec<Vec<u8>> = Vec::new();
    parts.push(u64_field(hunt_id));
    parts.push(copy_bytes(player.strkey.as_slice()));
    assert(views(parts@) =~= seq![u64_bytes(hunt_id), player@]);
    let res = build_key(&[80u8, 76, 69, 88], parts);
    proof {
        lemma_key_first_byte(player_exists_tag(), seq![u64_bytes(hunt_id), player@]);
    }
    res
}

/// The key of: the `index`-th entry of a hunt's clue list.
pub open spec fn clue_entry_key(hunt_id: u64, index: u32) -> Seq<u8> {
    slot_key(clue_entry_tag(), seq![u64_bytes(hunt_id), u32_bytes(index)])
}

pub fn clue_entry_key_slot(hunt_id: u64, index: u32) -> (res: SlotKey)
    ensures
        res@ == clue_entry_key(hunt_id, index),
        res.valid(),
{
    proof {
        reveal_strlit("CLST");
        assert(ascii("CLST"@) =~= clue_entry_tag());
    }
    SlotKey::SymU64U32("CLST", hunt_id, index)
}

/// The key of: the length of a hunt's clue list.
pub open spec fn clue_count_key(hunt_id: u64) -> Seq<u8> {
    slot_key(clue_count_tag(), seq![u64_bytes(hunt_id)])
}

pub fn clue_count_key_slot(hunt_id: u64) -> (res: SlotKey)
    ensures
        res@ == clue_count_key(hunt_id),
        res.valid(),
{
    proof {
        reveal_strlit("CLCT");
        assert(ascii("CLCT"@) =~= clue_count_tag());
    }
    SlotKey::SymU64("CLCT", hunt_id)
}

/// The key of: the marker that a clue is on a hunt's clue list.
pub open spec fn clue_exists_key(hunt_id: u64, clue_id: u32) -> Seq<u8> {
    slot_key(clue_exists_tag(), seq![u64_bytes(hunt_id), u32_bytes(clue_id)])
}

pub fn clue_exists_key_slot(hunt_id: u64, clue_id: u32) -> (res: SlotKey)
    ensures
        res@ == clue_exists_key(hunt_id, clue_id),
        res.valid(),
{
    proof {
        reveal_strlit("CLEX");
        assert(ascii("CLEX"@) =~= clue_exists_tag());
    }
    SlotKey::SymU64U32("CLEX", hunt_id, clue_id)
}

/// The key of: the last identifier handed out (hunts in the hunt contract, NFTs in the NFT contract).
pub open spec fn counter_key() -> Seq<u8> {
    slot_key(counter_tag(), Seq::empty())
}

pub fn counter_key_slot() -> (res: SlotKey)
    ensures
        res@ == counter_key(),
        res.valid(),
{
    proof {
        reveal_strlit("CNTR");
        assert(ascii("CNTR"@) =~= counter_tag());
    }
    SlotKey::Sym("CNTR")
}

/// The key of: the last clue identifier handed out for a hunt.
pub open spec fn clue_counter_key(hunt_id: u64) -> Seq<u8> {
    slot_key(clue_counter_tag(), seq![u64_bytes(hunt_id)])
}

pub fn clue_counter_key_slot(hunt_id: u64) -> (res: SlotKey)
    ensures
        res@ == clue_counter_key(hunt_id),
        res.valid(),
{
    proof {
        reveal_strlit("CCNT");
        assert(ascii("CCNT"@) =~= clue_counter_tag());
    }
    SlotKey::SymU64("CCNT", hunt_id)
}

/// The key of: the reward manager's address.
pub open spec fn reward_manager_key() -> Seq<u8> {
    key_of(reward_manager_tag(), Seq::empty())
}

pub fn reward_manager_key_bytes() -> (res: Vec<u8>)
    ensures
        res@ == reward_manager_key(),
        plain_key(res@),
{
    let mut parts: Vec<Vec<u8>> = Vec::new();
    assert(views(parts@) =~= Seq::empty());
    let res = build_key(&[82u8, 87, 68, 77, 71, 82], parts);
    proof {
        lemma_key_first_byte(reward_manager_tag(), Seq::empty());
    }
    res
}

/// The key of: an NFT.
pub open spec fn nft_key(nft_id: u64) -> Seq<u8> {
    key_of(nft_tag(), seq![u64_bytes(nft_id)])
}

pub fn nft_key_bytes(nft_id: u64) -> (res: Vec<u8>)
    ensures
        res@ == nft_key(nft_id),
        plain_key(res@),
{
    let mut parts: Vec<Vec<u8>> = Vec::new();
    parts.push(u64_field(nft_id));
    assert(views(parts@) =~= seq![u64_bytes(nft_id)]);
    let res = build_key(&[78u8, 70, 84], parts);
    proof {
        lemma_key_first_byte(nft_tag(), seq![u64_bytes(nft_id)]);
    }
    res
}

/// The key of: the length of an owner's NFT list.
pub open spec fn owner_nft_count_key(owner: Seq<u8>) -> Seq<u8> {
    key_of(owner_nft_count_tag(), seq![owner])
}

pub fn owner_nft_count_key_bytes(owner: &Address) -> (res: Vec<u8>)
    ensures
        res@ == owner_nft_count_key(owner@),
        plain_key(res@),
{
    let mut parts: Vec<Vec<u8>> = Vec::new();
    parts.push(copy_bytes(owner.strkey.as_slice()));
    assert(views(parts@) =~= seq![owner@]);
    let res = build_key(&[79u8, 78, 70, 67], parts);
    proof {
        lemma_key_first_byte(owner_nft_count_tag(), seq![owner@]);
    }
    res
}

/// The key of: the length of a hunt's NFT list.
pub open spec fn hunt_nft_count_key(hunt_id: u64) -> Seq<u8> {
    slot_key(hunt_nft_count_tag(), seq![u64_bytes(hunt_id)])
}

pub fn hunt_nft_count_key_slot(hunt_id: u64) -> (res: SlotKey)
    ensures
        res@ == hunt_nft_count_key(hunt_id),
        res.valid(),
{
    proof {
        reveal_strlit("HNFC");
        assert(ascii("HNFC"@) =~= hunt_nft_count_tag());
    }
    SlotKey::SymU64("HNFC", hunt_id)
}

/// The key of: the optional cap on NFTs minted.
pub open spec fn max_supply_key() -> Seq<u8> {
    slot_key(max_supply_tag(), Seq::empty())
}

pub fn max_supply_key_slot() -> (res: SlotKey)
    ensures
        res@ == max_supply_key(),
        res.valid(),
{
    proof {
        reveal_strlit("MAXS");
        assert(ascii("MAXS"@) =~= max_supply_tag());
    }
    SlotKey::Sym("MAXS")
}

/// The key of: whether the NFT contract has been set up.
pub open spec fn initialized_key() -> Seq<u8> {
    slot_key(initialized_tag(), Seq::empty())
}

pub fn initialized_key_slot() -> (res: SlotKey)
    ensures
        res@ == initialized_key(),
        res.valid(),
{
    proof {
        reveal_strlit("INIT");
        assert(ascii("INIT"@) =~= initialized_tag());
    }
    SlotKey::Sym("INIT")
}

/// The key of: the administrator's address.
pub open spec fn admin_key() -> Seq<u8> {
    key_of(admin_tag(), Seq::empty())
}

pub fn admin_key_bytes() -> (res: Vec<u8>)
    ensures
        res@ == admin_key(),
        plain_key(res@),
{
    let mut parts: Vec<Vec<u8>> = Vec::new();
    assert(views(parts@) =~= Seq::empty());
    let res = build_key(&[65u8, 68, 77, 73, 78], parts);
    proof {
        lemma_key_first_byte(admin_tag(), Seq::empty());
    }
    res
}

/// The key of: whether an address may mint.
pub open spec fn minter_key(minter: Seq<u8>) -> Seq<u8> {
    key_of(minter_tag(), seq![minter])
}

pub fn minter_key_bytes(minter: &Address) -> (res: Vec<u8>)
    ensures
        res@ == minter_key(minter@),
        plain_key(res@),
{
    let mut parts: Vec<Vec<u8>> = Vec::new();
    parts.push(copy_bytes(minter.strkey.as_slice()));
    assert(views(parts@) =~= seq![minter@]);
    let res = build_key(&[77u8, 78, 84, 82], parts);
    proof {
        lemma_key_first_byte(minter_tag(), seq![minter@]);
    }
    res
}

/// The key of: the `index`-th entry of an owner's NFT list.
pub open spec fn owner_nft_entry_key(owner: Seq<u8>, index: u32) -> Seq<u8> {
    key_of(owner_nft_entry_tag(), seq![owner, u32_bytes(index)])
}

pub fn owner_nft_entry_key_bytes(owner: &Address, index: u32) -> (res: Vec<u8>)
    ensures
        res@ == owner_nft_entry_key(owner@, index),
        plain_key(res@),
{
    let mut parts: Vec<Vec<u8>> = Vec::new();
    parts.push(copy_bytes(owner.strkey.as_slice()));
    parts.push(u32_field(index));
    assert(views(parts@) =~= seq![owner@, u32_bytes(index)]);
    let res = build_key(&[79u8, 78, 70, 84], parts);
    proof {
        lemma_key_first_byte(owner_nft_entry_tag(), seq![owner@, u32_bytes(index)]);
    }
    res
}

/// The key of: the marker that an NFT is on an owner's NFT list.
pub open spec fn owner_nft_exists_key(owner: Seq<u8>, nft_id: u64) -> Seq<u8> {
    key_of(owner_nft_exists_tag(), seq![owner, u64_bytes(nft_id)])
}

pub fn owner_nft_exists_key_bytes(owner: &Address, nft_id: u64) -> (res: Vec<u8>)
    ensures
        res@ == owner_nft_exists_key(owner@, nft_id),
        plain_key(res@),
{
    let mut parts: Vec<Vec<u8>> = Vec::new();
    parts.push(copy_bytes(owner.strkey.as_slice()));
    parts.push(u64_field(nft_id));
    assert(views(parts@) =~= seq![owner@, u64_bytes(nft_id)]);
    let res = build_key(&[79u8, 78, 70, 88], parts);
    proof {
        lemma_key_first_byte(owner_nft_exists_tag(), seq![owner@, u64_bytes(nft_id)]);
    }
    res
}

/// The key of: the `index`-th entry of a hunt's NFT list.
pub open spec fn hunt_nft_entry_key(hunt_id: u64, index: u32) -> Seq<u8> {
    slot_key(hunt_nft_entry_tag(), seq![u64_bytes(hunt_id), u32_bytes(index)])
}

pub fn hunt_nft_entry_key_slot(hunt_id: u64, index: u32) -> (res: SlotKey)
    ensures
        res@ == hunt_nft_entry_key(hunt_id, index),
        res.valid(),
{
    proof {
        reveal_strlit("HNFT");
        assert(ascii("HNFT"@) =~= hunt_nft_entry_tag());
    }
    SlotKey::SymU64U32("HNFT", hunt_id, index)
}

/// The key of: the marker that an NFT is on a hunt's NFT list.
pub open spec fn hunt_nft_exists_key(hunt_id: u64, nft_id: u64) -> Seq<u8> {
    slot_key(hunt_nft_exists_tag(), seq![u64_bytes(hunt_id), u64_bytes(nft_id)])
}

pub fn hunt_nft_exists_key_slot(hunt_id: u64, nft_id: u64) -> (res: SlotKey)
    ensures
        res@ == hunt_nft_exists_key(hunt_id, nft_id),
        res.valid(),
{
    proof {
        reveal_strlit("HNFX");
        assert(ascii("HNFX"@) =~= hunt_nft_exists_tag());
    }
    SlotKey::SymU64U64("HNFX", hunt_id, nft_id)
}

/// The key of: whether `operator` may manage all of `owner`'s NFTs.
pub open spec fn operator_key(owner: Seq<u8>, operator: Seq<u8>) -> Seq<u8> {
    key_of(operator_tag(), seq![owner, operator])
}

pub fn operator_key_bytes(owner: &Address, operator: &Address) -> (res: Vec<u8>)
    ensures
        res@ == operator_key(owner@, operator@),
        plain_key(res@),
{
    let mut parts: Vec<Vec<u8>> = Vec::new();
    parts.push(copy_bytes(owner.strkey.as_slice()));
    parts.push(copy_bytes(operator.strkey.as_slice()));
    assert(views(parts@) =~= seq![owner@, operator@]);
    let res = build_key(&[79u8, 80, 82], parts);
    proof {
        lemma_key_first_byte(operator_tag(), seq![owner@, operator@]);
    }
    res
}

/// The key of: the NFT contract's version.
pub open spec fn contract_version_key() -> Seq<u8> {
    slot_key(contract_version_tag(), Seq::empty())
}

pub fn contract_version_key_slot() -> (res: SlotKey)
    ensures
        res@ == contract_version_key(),
        res.valid(),
{
    proof {
        reveal_strlit("CVER");
        assert(ascii("CVER"@) =~= contract_version_tag());
    }
    SlotKey::Sym("CVER")
}

/// The key of: the storage schema version.
pub open spec fn schema_key() -> Seq<u8> {
    slot_key(schema_tag(), Seq::empty())
}

pub fn schema_key_slot() -> (res: SlotKey)
    ensures
        res@ == schema_key(),
        res.valid(),
{
    proof {
        reveal_strlit("SCHEMA");
        assert(ascii("SCHEMA"@) =~= schema_tag());
    }
    SlotKey::Sym("SCHEMA")
}

/// The key of: the schema version saved before the last migration.
pub open spec fn rollback_key() -> Seq<u8> {
    slot_key(rollback_tag(), Seq::empty())
}

pub fn rollback_key_slot() -> (res: SlotKey)
    ensures
        res@ == rollback_key(),
        res.valid(),
{
    proof {
        reveal_strlit("RBKVER");
        assert(ascii("RBKVER"@) =~= rollback_tag());
    }
    SlotKey::Sym("RBKVER")
}

} // verus!

//! How hunts, clues and player progress are laid out as stored bytes, and
//! read back.
use crate::codec::{
    bool_bytes, bool_field, copy_bytes, dec_bool, dec_i128, dec_u32, dec_u64, dec_u8,
    decode_bool, decode_i128, decode_u32, decode_u64, decode_u8, i128_bytes, i128_field,
    lemma_bool_roundtrip, lemma_i128_roundtrip, lemma_record_roundtrip, lemma_u32_roundtrip,
    lemma_u64_roundtrip, lemma_u8_roundtrip, lemma_views_push, parse_record, read_record, u32_bytes, u32_field,
    u64_bytes, u64_field, u8_field, views, write_record,
};
use crate::codec::{fits, record, push_u32, read_u32, u32_of};
use crate::collections::{
    u32_items, u32_map_entries, u32_map_get, u32_map_keys, u32_map_new, u32_map_set,
    u32_map_typed, u32_vec_get, u32_vec_len, u32_vec_new, u32_vec_push, u32_vec_typed,
};
use crate::progress::{StoredPlayerProgress, StoredProgressModel};
use crate::sorted::{lemma_sorted_unique, strictly_increasing};
use soroban_sdk::Env;
use crate::types::{
    opt_address_view, Address, Clue, ClueModel, Hunt, HuntModel, HuntStatus, NftData, NftModel,
    RewardConfig, RewardConfigModel,
};
use vstd::prelude::*;

verus! {

pub open spec fn status_byte(s: HuntStatus) -> u8 {
    match s {
        HuntStatus::Draft => 0,
        HuntStatus::Active => 1,
        HuntStatus::Completed => 2,
        HuntStatus::Cancelled => 3,
        HuntStatus::Paused => 4,
    }
}

pub open spec fn dec_status(f: Seq<u8>) -> Option<HuntStatus> {
    if f.len() != 1 {
        None
    } else if f[0] == 0 {
        Some(HuntStatus::Draft)
    } else if f[0] == 1 {
        Some(HuntStatus::Active)
    } else if f[0] == 2 {
        Some(HuntStatus::Completed)
    } else if f[0] == 3 {
        Some(HuntStatus::Cancelled)
    } else if f[0] == 4 {
        Some(HuntStatus::Paused)
    } else {
        None
    }
}

pub open spec fn opt_address_bytes(a: Option<Seq<u8>>) -> Seq<u8> {
    match a {
        Some(x) => record(seq![x]),
        None => record(Seq::empty()),
    }
}

/// An optional address: a record with no field, or with the address as its
/// one field.
pub open spec fn dec_opt_address(f: Seq<u8>) -> Option<Option<Seq<u8>>> {
    match parse_record(f) {
        Some(fs) => if fs.len() == 0 {
            Some(None)
        } else if fs.len() == 1 {
            Some(Some(fs[0]))
        } else {
            None
        },
        None => None,
    }
}

pub open spec fn reward_config_fields(r: RewardConfigModel) -> Seq<Seq<u8>> {
    seq![
        i128_bytes(r.xlm_pool),
        bool_bytes(r.nft_enabled),
        opt_address_bytes(r.nft_contract),
        u32_bytes(r.max_winners),
        u32_bytes(r.claimed_count),
        u32_bytes(r.nft_rarity),
        u32_bytes(r.nft_tier),
    ]
}

/// The bytes a reward configuration is stored as.
pub open spec fn reward_config_bytes(r: RewardConfigModel) -> Seq<u8> {
    record(reward_config_fields(r))
}

pub open spec fn dec_reward_config(f: Seq<u8>) -> Option<RewardConfigModel> {
    match parse_record(f) {
        Some(fs) => if fs.len() == 7 && dec_i128(fs[0]) is Some && dec_bool(fs[1]) is Some
            && dec_opt_address(fs[2]) is Some && dec_u32(fs[3]) is Some && dec_u32(fs[4]) is Some
            && dec_u32(fs[5]) is Some && dec_u32(fs[6]) is Some {
            Some(
                RewardConfigModel {
                    xlm_pool: dec_i128(fs[0])->0,
                    nft_enabled: dec_bool(fs[1])->0,
                    nft_contract: dec_opt_address(fs[2])->0,
                    max_winners: dec_u32(fs[3])->0,
                    claimed_count: dec_u32(fs[4])->0,
                    nft_rarity: dec_u32(fs[5])->0,
                    nft_tier: dec_u32(fs[6])->0,
                },
            )
        } else {
            None
        },
        None => None,
    }
}

pub open spec fn hunt_fields(h: HuntModel) -> Seq<Seq<u8>> {
    seq![
        u64_bytes(h.hunt_id),
        h.creator,
        h.title,
        h.description,
        seq![status_byte(h.status)],
        u64_bytes(h.created_at),
        u64_bytes(h.activated_at),
        u64_bytes(h.start_time),
        u64_bytes(h.end_time),
        reward_config_bytes(h.reward_config),
        u32_bytes(h.total_clues),
        u32_bytes(h.required_clues),
        u32_bytes(h.max_attempts_per_clue),
    ]
}

/// The bytes a hunt is stored as.
pub open spec fn hunt_bytes(h: HuntModel) -> Seq<u8> {
    record(hunt_fields(h))
}

/// The hunt stored as the bytes `f`, or `None` when `f` does not hold one.
pub open spec fn dec_hunt(f: Seq<u8>) -> Option<HuntModel> {
    match parse_record(f) {
        Some(fs) => if fs.len() == 13 && dec_u64(fs[0]) is Some && dec_status(fs[4]) is Some
            && dec_u64(fs[5]) is Some && dec_u64(fs[6]) is Some && dec_u64(fs[7]) is Some
            && dec_u64(fs[8]) is Some && dec_reward_config(fs[9]) is Some && dec_u32(fs[10]) is Some
            && dec_u32(fs[11]) is Some && dec_u32(fs[12]) is Some {
            Some(
                HuntModel {
                    hunt_id: dec_u64(fs[0])->0,
                    creator: fs[1],
                    title: fs[2],
                    description: fs[3],
                    status: dec_status(fs[4])->0,
                    created_at: dec_u64(fs[5])->0,
                    activated_at: dec_u64(fs[6])->0,
                    start_time: dec_u64(fs[7])->0,
                    end_time: dec_u64(fs[8])->0,
                    reward_config: dec_reward_config(fs[9])->0,
                    total_clues: dec_u32(fs[10])->0,
                    required_clues: dec_u32(fs[11])->0,
                    max_attempts_per_clue: dec_u32(fs[12])->0,
                },
            )
        } else {
            None
        },
        None => None,
    }
}

pub open spec fn clue_fields(c: ClueModel) -> Seq<Seq<u8>> {
    seq![
        u32_bytes(c.clue_id),
        c.question,
        record(c.answer_hashes),
        u32_bytes(c.points),
        bool_bytes(c.is_required),
        seq![c.difficulty],
    ]
}

/// The bytes a clue is stored as.
pub open spec fn clue_bytes(c: ClueModel) -> Seq<u8> {
    record(clue_fields(c))
}

/// The clue stored as the bytes `f`, or `None` when `f` does not hold one.
pub open spec fn dec_clue(f: Seq<u8>) -> Option<ClueModel> {
    match parse_record(f) {
        Some(fs) => if fs.len() == 6 && dec_u32(fs[0]) is Some && parse_record(fs[2]) is Some
            && dec_u32(fs[3]) is Some && dec_bool(fs[4]) is Some && dec_u8(fs[5]) is Some {
            Some(
                ClueModel {
                    clue_id: dec_u32(fs[0])->0,
                    question: fs[1],
                    answer_hashes: parse_record(fs[2])->0,
                    points: dec_u32(fs[3])->0,
                    is_required: dec_bool(fs[4])->0,
                    difficulty: dec_u8(fs[5])->0,
                },
            )
        } else {
            None
        },
        None => None,
    }
}

fn status_field(s: HuntStatus) -> (res: Vec<u8>)
    ensures
        res@ == seq![status_byte(s)],
        dec_status(res@) == Some(s),
{
    let b: u8 = match s {
        HuntStatus::Draft => 0,
        HuntStatus::Active => 1,
        HuntStatus::Completed => 2,
        HuntStatus::Cancelled => 3,
        HuntStatus::Paused => 4,
    };
    u8_field(b)
}

fn decode_status(f: &[u8]) -> (res: Option<HuntStatus>)
    ensures
        res == dec_status(f@),
{
    if f.len() != 1 {
        None
    } else if f[0] == 0 {
        Some(HuntStatus::Draft)
    } else if f[0] == 1 {
        Some(HuntStatus::Active)
    } else if f[0] == 2 {
        Some(HuntStatus::Completed)
    } else if f[0] == 3 {
        Some(HuntStatus::Cancelled)
    } else if f[0] == 4 {
        Some(HuntStatus::Paused)
    } else {
        None
    }
}

fn opt_address_field(a: &Option<Address>) -> (res: Vec<u8>)
    ensures
        res@ == opt_address_bytes(opt_address_view(*a)),
        dec_opt_address(res@) == Some(opt_address_view(*a)),
{
    let mut fs: Vec<Vec<u8>> = Vec::new();
    match a {
        Some(x) => {
            fs.push(copy_bytes(x.strkey.as_slice()));
        },
        None => {},
    }
    let res = write_record(&fs);
    proof {
        lemma_record_roundtrip(views(fs@));
        match a {
            Some(x) => assert(views(fs@) =~= seq![x@]),
            None => assert(views(fs@) =~= Seq::<Seq<u8>>::empty()),
        }
    }
    res
}

fn decode_opt_address(f: &[u8]) -> (res: Option<Option<Address>>)
    ensures
        match res {
            Some(a) => dec_opt_address(f@) == Some(opt_address_view(a)),
            None => dec_opt_address(f@) is None,
        },
{
    let fs = match read_record(f) {
        Some(fs) => fs,
        None => return None,
    };
    if fs.len() == 0 {
        Some(None)
    } else if fs.len() == 1 {
        Some(Some(Address::new(copy_bytes(fs[0].as_slice()))))
    } else {
        None
    }
}

fn reward_config_field(r: &RewardConfig) -> (res: Vec<u8>)
    ensures
        res@ == reward_config_bytes(r@),
        dec_reward_config(res@) == Some(r@),
{
    let mut fs: Vec<Vec<u8>> = Vec::new();
    fs.push(i128_field(r.xlm_pool));
    fs.push(bool_field(r.nft_enabled));
    fs.push(opt_address_field(&r.nft_contract));
    fs.push(u32_field(r.max_winners));
    fs.push(u32_field(r.claimed_count));
    fs.push(u32_field(r.nft_rarity));
    fs.push(u32_field(r.nft_tier));
    assert(views(fs@) =~= reward_config_fields(r@));
    let res = write_record(&fs);
    proof {
        lemma_reward_config_roundtrip(r@);
    }
    res
}

/// Reading back the bytes of a reward configuration gives it.
proof fn lemma_reward_config_roundtrip(r: RewardConfigModel)
    requires
        fits(reward_config_fields(r)),
        dec_opt_address(opt_address_bytes(r.nft_contract)) == Some(r.nft_contract),
    ensures
        dec_reward_config(reward_config_bytes(r)) == Some(r),
{
    lemma_i128_roundtrip(r.xlm_pool);
    lemma_bool_roundtrip(r.nft_enabled);
    lemma_u32_roundtrip(r.max_winners);
    lemma_u32_roundtrip(r.claimed_count);
    lemma_u32_roundtrip(r.nft_rarity);
    lemma_u32_roundtrip(r.nft_tier);
    let fs = reward_config_fields(r);
    lemma_record_roundtrip(fs);
    assert(parse_record(reward_config_bytes(r)) == Some(fs));
    assert(dec_i128(fs[0]) == Some(r.xlm_pool));
    assert(dec_bool(fs[1]) == Some(r.nft_enabled));
    assert(dec_opt_address(fs[2]) == Some(r.nft_contract));
    assert(dec_u32(fs[3]) == Some(r.max_winners));
    assert(dec_u32(fs[4]) == Some(r.claimed_count));
    assert(dec_u32(fs[5]) == Some(r.nft_rarity));
    assert(dec_u32(fs[6]) == Some(r.nft_tier));
}

fn decode_reward_config(f: &[u8]) -> (res: Option<RewardConfig>)
    ensures
        match res {
            Some(r) => dec_reward_config(f@) == Some(r@),
            None => dec_reward_config(f@) is None,
        },
{
    let fs = match read_record(f) {
        Some(fs) => fs,
        None => return None,
    };
    if fs.len() != 7 {
        return None;
    }
    let xlm_pool = match decode_i128(fs[0].as_slice()) {
        Some(v) => v,
        None => return None,
    };
    let nft_enabled = match decode_bool(fs[1].as_slice()) {
        Some(v) => v,
        None => return None,
    };
    let nft_contract = match decode_opt_address(fs[2].as_slice()) {
        Some(v) => v,
        None => return None,
    };
    let max_winners = match decode_u32(fs[3].as_slice()) {
        Some(v) => v,
        None => return None,
    };
    let claimed_count = match decode_u32(fs[4].as_slice()) {
        Some(v) => v,
        None => return None,
    };
    let nft_rarity = match decode_u32(fs[5].as_slice()) {
        Some(v) => v,
        None => return None,
    };
    let nft_tier = match decode_u32(fs[6].as_slice()) {
        Some(v) => v,
        None => return None,
    };
    Some(
        RewardConfig {
            xlm_pool,
            nft_enabled,
            nft_contract,
            max_winners,
            claimed_count,
            nft_rarity,
            nft_tier,
        },
    )
}

/// Reading back the bytes of a hunt gives the hunt.
proof fn lemma_hunt_roundtrip(h: HuntModel)
    requires
        fits(hunt_fields(h)),
        dec_reward_config(reward_config_bytes(h.reward_config)) == Some(h.reward_config),
    ensures
        dec_hunt(hunt_bytes(h)) == Some(h),
{
    lemma_u64_roundtrip(h.hunt_id);
    lemma_u64_roundtrip(h.created_at);
    lemma_u64_roundtrip(h.activated_at);
    lemma_u64_roundtrip(h.start_time);
    lemma_u64_roundtrip(h.end_time);
    lemma_u32_roundtrip(h.total_clues);
    lemma_u32_roundtrip(h.required_clues);
    lemma_u32_roundtrip(h.max_attempts_per_clue);
    let fs = hunt_fields(h);
    lemma_record_roundtrip(fs);
    assert(parse_record(hunt_bytes(h)) == Some(fs));
    assert(dec_u64(fs[0]) == Some(h.hunt_id));
    assert(fs[1] == h.creator);
    assert(fs[2] == h.title);
    assert(fs[3] == h.description);
    assert(dec_status(fs[4]) == Some(h.status));
    assert(dec_u64(fs[5]) == Some(h.created_at));
    assert(dec_u64(fs[6]) == Some(h.activated_at));
    assert(dec_u64(fs[7]) == Some(h.start_time));
    assert(dec_u64(fs[8]) == Some(h.end_time));
    assert(dec_reward_config(fs[9]) == Some(h.reward_config));
    assert(dec_u32(fs[10]) == Some(h.total_clues));
    assert(dec_u32(fs[11]) == Some(h.required_clues));
    assert(dec_u32(fs[12]) == Some(h.max_attempts_per_clue));
}

/// A hunt whose fields, and those of its reward configuration, fit in a
/// record, as those of every hunt a program holds do.
pub open spec fn hunt_storable(h: HuntModel) -> bool {
    &&& fits(hunt_fields(h))
    &&& fits(reward_config_fields(h.reward_config))
    &&& (h.reward_config.nft_contract matches Some(a) ==> a.len() <= u64::MAX)
}

/// Reading back the bytes of a storable hunt gives the hunt.
pub proof fn lemma_hunt_read_back(h: HuntModel)
    requires
        hunt_storable(h),
    ensures
        dec_hunt(hunt_bytes(h)) == Some(h),
{
    match h.reward_config.nft_contract {
        Some(a) => {
            assert(fits(seq![a]));
            lemma_record_roundtrip(seq![a]);
        },
        None => {
            lemma_record_roundtrip(Seq::<Seq<u8>>::empty());
        },
    }
    lemma_reward_config_roundtrip(h.reward_config);
    lemma_hunt_roundtrip(h);
}

/// The bytes a hunt is stored as.
pub fn encode_hunt(h: &Hunt) -> (res: Vec<u8>)
    ensures
        res@ == hunt_bytes(h@),
        dec_hunt(res@) == Some(h@),
{
    let mut fs: Vec<Vec<u8>> = Vec::new();
    fs.push(u64_field(h.hunt_id));
    fs.push(copy_bytes(h.creator.strkey.as_slice()));
    fs.push(copy_bytes(h.title.as_slice()));
    fs.push(copy_bytes(h.description.as_slice()));
    fs.push(status_field(h.status));
    fs.push(u64_field(h.created_at));
    fs.push(u64_field(h.activated_at));
    fs.push(u64_field(h.start_time));
    fs.push(u64_field(h.end_time));
    fs.push(reward_config_field(&h.reward_config));
    fs.push(u32_field(h.total_clues));
    fs.push(u32_field(h.required_clues));
    fs.push(u32_field(h.max_attempts_per_clue));
    assert(views(fs@) =~= hunt_fields(h@));
    let res = write_record(&fs);
    proof {
        lemma_hunt_roundtrip(h@);
    }
    res
}

/// The hunt held by the bytes `f`, if they hold one.
pub fn decode_hunt(f: &[u8]) -> (res: Option<Hunt>)
    ensures
        match res {
            Some(h) => dec_hunt(f@) == Some(h@),
            None => dec_hunt(f@) is None,
        },
{
    let fs = match read_record(f) {
        Some(fs) => fs,
        None => return None,
    };
    if fs.len() != 13 {
        return None;
    }
    let hunt_id = match decode_u64(fs[0].as_slice()) {
        Some(v) => v,
        None => return None,
    };
    let status = match decode_status(fs[4].as_slice()) {
        Some(v) => v,
        None => return None,
    };
    let created_at = match decode_u64(fs[5].as_slice()) {
        Some(v) => v,
        None => return None,
    };
    let activated_at = match decode_u64(fs[6].as_slice()) {
        Some(v) => v,
        None => return None,
    };
    let start_time = match decode_u64(fs[7].as_slice()) {
        Some(v) => v,
        None => return None,
    };
    let end_time = match decode_u64(fs[8].as_slice()) {
        Some(v) => v,
        None => return None,
    };
    let reward_config = match decode_reward_config(fs[9].as_slice()) {
        Some(v) => v,
        None => return None,
    };
    let total_clues = match decode_u32(fs[10].as_slice()) {
        Some(v) => v,
        None => return None,
    };
    let required_clues = match decode_u32(fs[11].as_slice()) {
        Some(v) => v,
        None => return None,
    };
    let max_attempts_per_clue = match decode_u32(fs[12].as_slice()) {
        Some(v) => v,
        None => return None,
    };
    Some(
        Hunt {
            hunt_id,
            creator: Address::new(copy_bytes(fs[1].as_slice())),
            title: copy_bytes(fs[2].as_slice()),
            description: copy_bytes(fs[3].as_slice()),
            status,
            created_at,
            activated_at,
            start_time,
            end_time,
            reward_config,
            total_clues,
            required_clues,
            max_attempts_per_clue,
        },
    )
}

/// Reading back the bytes of a clue gives the clue.
proof fn lemma_clue_roundtrip(c: ClueModel)
    requires
        fits(clue_fields(c)),
        fits(c.answer_hashes),
    ensures
        dec_clue(clue_bytes(c)) == Some(c),
{
    lemma_u32_roundtrip(c.clue_id);
    lemma_u32_roundtrip(c.points);
    lemma_bool_roundtrip(c.is_required);
    lemma_u8_roundtrip(c.difficulty);
    lemma_record_roundtrip(c.answer_hashes);
    let fs = clue_fields(c);
    lemma_record_roundtrip(fs);
    assert(parse_record(clue_bytes(c)) == Some(fs));
    assert(dec_u32(fs[0]) == Some(c.clue_id));
    assert(parse_record(fs[2]) == Some(c.answer_hashes));
    assert(dec_u32(fs[3]) == Some(c.points));
    assert(dec_bool(fs[4]) == Some(c.is_required));
    assert(dec_u8(fs[5]) == Some(c.difficulty));
}

/// The bytes a clue is stored as.
pub fn encode_clue(c: &Clue) -> (res: Vec<u8>)
    ensures
        res@ == clue_bytes(c@),
        dec_clue(res@) == Some(c@),
{
    let hashes = write_record(&c.answer_hashes);
    let mut fs: Vec<Vec<u8>> = Vec::new();
    fs.push(u32_field(c.clue_id));
    fs.push(copy_bytes(c.question.as_slice()));
    fs.push(hashes);
    fs.push(u32_field(c.points));
    fs.push(bool_field(c.is_required));
    fs.push(u8_field(c.difficulty));
    assert(views(fs@) =~= clue_fields(c@));
    let res = write_record(&fs);
    proof {
        lemma_clue_roundtrip(c@);
    }
    res
}

/// The clue held by the bytes `f`, if they hold one.
pub fn decode_clue(f: &[u8]) -> (res: Option<Clue>)
    ensures
        match res {
            Some(c) => dec_clue(f@) == Some(c@),
            None => dec_clue(f@) is None,
        },
{
    let fs = match read_record(f) {
        Some(fs) => fs,
        None => return None,
    };
    if fs.len() != 6 {
        return None;
    }
    let clue_id = match decode_u32(fs[0].as_slice()) {
        Some(v) => v,
        None => return None,
    };
    let answer_hashes = match read_record(fs[2].as_slice()) {
        Some(v) => v,
        None => return None,
    };
    let points = match decode_u32(fs[3].as_slice()) {
        Some(v) => v,
        None => return None,
    };
    let is_required = match decode_bool(fs[4].as_slice()) {
        Some(v) => v,
        None => return None,
    };
    let difficulty = match decode_u8(fs[5].as_slice()) {
        Some(v) => v,
        None => return None,
    };
    Some(
        Clue {
            clue_id,
            question: copy_bytes(fs[1].as_slice()),
            answer_hashes,
            points,
            is_required,
            difficulty,
        },
    )
}


/// A list of `u32`: a record whose fields are the items' four bytes each.
pub open spec fn dec_u32_list(f: Seq<u8>) -> Option<Seq<u32>> {
    match parse_record(f) {
        Some(fs) => if fs.len() <= u32::MAX && forall|i: int|
            0 <= i < fs.len() ==> (#[trigger] dec_u32(fs[i])) is Some {
            Some(Seq::new(fs.len(), |i: int| dec_u32(fs[i])->0))
        } else {
            None
        },
        None => None,
    }
}

/// A key and a value, four bytes each.
pub open spec fn pair_bytes(k: u32, v: u32) -> Seq<u8> {
    u32_bytes(k) + u32_bytes(v)
}

pub open spec fn dec_pair(f: Seq<u8>) -> Option<(u32, u32)> {
    if f.len() == 8 {
        Some((u32_of(f.take(4)), u32_of(f.skip(4))))
    } else {
        None
    }
}

/// A list of key-value pairs: a record whose fields are the pairs.
pub open spec fn dec_pairs(f: Seq<u8>) -> Option<Seq<(u32, u32)>> {
    match parse_record(f) {
        Some(fs) => if forall|i: int| 0 <= i < fs.len() ==> (#[trigger] dec_pair(fs[i])) is Some {
            Some(Seq::new(fs.len(), |i: int| dec_pair(fs[i])->0))
        } else {
            None
        },
        None => None,
    }
}

/// The map that putting the pairs in, first to last, builds from nothing.
pub open spec fn pairs_map(ps: Seq<(u32, u32)>) -> Map<u32, u32>
    decreases ps.len(),
{
    if ps.len() == 0 {
        Map::empty()
    } else {
        pairs_map(ps.drop_last()).insert(ps.last().0, ps.last().1)
    }
}

/// The attempts per clue stored as the bytes `f`.
pub open spec fn dec_attempts(f: Seq<u8>) -> Option<Map<u32, u32>> {
    match dec_pairs(f) {
        Some(ps) => Some(pairs_map(ps)),
        None => None,
    }
}

/// The stored player progress held by the bytes `f`, or `None` when `f` does
/// not hold one.
pub open spec fn dec_progress(f: Seq<u8>) -> Option<StoredProgressModel> {
    match parse_record(f) {
        Some(fs) => if fs.len() == 7 && dec_u32_list(fs[0]) is Some && dec_attempts(fs[1]) is Some
            && dec_u32(fs[2]) is Some && dec_u64(fs[3]) is Some && dec_u64(fs[4]) is Some
            && dec_bool(fs[5]) is Some && dec_bool(fs[6]) is Some {
            Some(
                StoredProgressModel {
                    completed_clues: dec_u32_list(fs[0])->0,
                    clue_attempts: dec_attempts(fs[1])->0,
                    total_score: dec_u32(fs[2])->0,
                    started_at: dec_u64(fs[3])->0,
                    completed_at: dec_u64(fs[4])->0,
                    is_completed: dec_bool(fs[5])->0,
                    reward_claimed: dec_bool(fs[6])->0,
                },
            )
        } else {
            None
        },
        None => None,
    }
}

/// How a list of clue ids is stored: a record of their big-endian bytes.
pub open spec fn u32_list_bytes(items: Seq<u32>) -> Seq<u8> {
    record(Seq::new(items.len(), |j: int| u32_bytes(items[j])))
}

/// The keys of `m` in increasing order, for a map whose keys some strictly
/// increasing sequence holds (as those of every finite map).
pub open spec fn sorted_keys(m: Map<u32, u32>) -> Seq<u32> {
    choose|ks: Seq<u32>|
        strictly_increasing(ks) && forall|k: u32| #[trigger] ks.contains(k) <==> m.dom().contains(k)
}

/// How attempts per clue are stored: a record of key-value pairs, in
/// increasing key order.
pub open spec fn attempts_bytes(m: Map<u32, u32>) -> Seq<u8> {
    let ks = sorted_keys(m);
    record(Seq::new(ks.len(), |j: int| pair_bytes(ks[j], m[ks[j]])))
}

/// The bytes a player's stored progress is kept as.
pub open spec fn progress_bytes(p: StoredProgressModel) -> Seq<u8> {
    record(
        seq![
            u32_list_bytes(p.completed_clues),
            attempts_bytes(p.clue_attempts),
            u32_bytes(p.total_score),
            u64_bytes(p.started_at),
            u64_bytes(p.completed_at),
            bool_bytes(p.is_completed),
            bool_bytes(p.reward_claimed),
        ],
    )
}

fn u32_items_field(v: &soroban_sdk::Vec<u32>) -> (res: Vec<u8>)
    requires
        u32_vec_typed(*v),
    ensures
        dec_u32_list(res@) == Some(u32_items(*v)),
        res@ == u32_list_bytes(u32_items(*v)),
{
    let n = u32_vec_len(v);
    let ghost items = u32_items(*v);
    let mut fs: Vec<Vec<u8>> = Vec::new();
    for i in 0..n
        invariant
            n == items.len(),
            items == u32_items(*v),
            u32_vec_typed(*v),
            views(fs@) == Seq::new(i as nat, |j: int| u32_bytes(items[j])),
    {
        let x = match u32_vec_get(v, i) {
            Some(x) => x,
            None => 0,
        };
        let ghost prev = fs@;
        let fx = u32_field(x);
        fs.push(fx);
        proof {
            lemma_views_push(prev, fx);
        }
        assert(views(fs@) =~= Seq::new((i + 1) as nat, |j: int| u32_bytes(items[j])));
    }
    let res = write_record(&fs);
    proof {
        let vs = views(fs@);
        lemma_record_roundtrip(vs);
        assert forall|j: int| 0 <= j < vs.len() implies (#[trigger] dec_u32(vs[j])) == Some(
            items[j],
        ) by {
            lemma_u32_roundtrip(items[j]);
        }
        assert(Seq::new(vs.len(), |j: int| dec_u32(vs[j])->0) =~= items);
        assert(vs =~= Seq::new(items.len(), |j: int| u32_bytes(items[j])));
    }
    res
}

fn decode_u32_items(env: &Env, f: &[u8]) -> (res: Option<soroban_sdk::Vec<u32>>)
    ensures
        match res {
            Some(v) => dec_u32_list(f@) == Some(u32_items(v)) && u32_vec_typed(v),
            None => dec_u32_list(f@) is None,
        },
{
    let fs = match read_record(f) {
        Some(fs) => fs,
        None => return None,
    };
    let n = fs.len();
    if n > u32::MAX as usize {
        return None;
    }
    let ghost vs = views(fs@);
    let mut v = u32_vec_new(env);
    for i in 0..n
        invariant
            n == fs@.len(),
            n <= u32::MAX,
            vs == views(fs@),
            parse_record(f@) == Some(vs),
            u32_items(v) == Seq::new(i as nat, |j: int| dec_u32(vs[j])->0),
            u32_vec_typed(v),
            forall|j: int| 0 <= j < i ==> (#[trigger] dec_u32(vs[j])) is Some,
    {
        assert(vs[i as int] == fs[i as int]@);
        match decode_u32(fs[i].as_slice()) {
            Some(x) => {
                u32_vec_push(&mut v, x);
                assert(u32_items(v) =~= Seq::new((i + 1) as nat, |j: int| dec_u32(vs[j])->0));
            },
            None => {
                assert(parse_record(f@) == Some(vs));
                assert(dec_u32(vs[i as int]) is None);
                assert(!(forall|j: int| 0 <= j < vs.len() ==> (#[trigger] dec_u32(vs[j])) is Some));
                return None;
            },
        }
    }
    Some(v)
}

fn pair_field(k: u32, v: u32) -> (res: Vec<u8>)
    ensures
        res@ == pair_bytes(k, v),
        dec_pair(res@) == Some((k, v)),
{
    let mut out: Vec<u8> = Vec::new();
    push_u32(&mut out, k);
    push_u32(&mut out, v);
    proof {
        lemma_u32_roundtrip(k);
        lemma_u32_roundtrip(v);
        assert(out@ =~= pair_bytes(k, v));
        assert(out@.take(4) =~= u32_bytes(k));
        assert(out@.skip(4) =~= u32_bytes(v));
    }
    out
}

fn decode_pair(f: &[u8]) -> (res: Option<(u32, u32)>)
    ensures
        res == dec_pair(f@),
{
    if f.len() == 8 {
        let k = read_u32(f, 0);
        let v = read_u32(f, 4);
        assert(f@.subrange(0, 4) =~= f@.take(4));
        assert(f@.subrange(4, 8) =~= f@.skip(4));
        Some((k, v))
    } else {
        None
    }
}

fn attempts_field(m: &soroban_sdk::Map<u32, u32>) -> (res: Vec<u8>)
    requires
        u32_map_typed(*m),
    ensures
        dec_attempts(res@) == Some(u32_map_entries(*m)),
        res@ == attempts_bytes(u32_map_entries(*m)),
{
    let keys = u32_map_keys(m);
    let n = u32_vec_len(&keys);
    let ghost ks = u32_items(keys);
    let ghost mm = u32_map_entries(*m);
    let ghost mut ps: Seq<(u32, u32)> = Seq::empty();
    let mut fs: Vec<Vec<u8>> = Vec::new();
    for i in 0..n
        invariant
            n == ks.len(),
            ks == u32_items(keys),
            mm == u32_map_entries(*m),
            u32_map_typed(*m),
            u32_vec_typed(keys),
            forall|k: u32| mm.contains_key(k) <==> ks.contains(k),
            ps.len() == i,
            views(fs@) == Seq::new(i as nat, |j: int| pair_bytes(ps[j].0, ps[j].1)),
            forall|j: int| 0 <= j < i ==> #[trigger] dec_pair(views(fs@)[j]) == Some(ps[j]),
            forall|k: u32| pairs_map(ps).contains_key(k) <==> ks.take(i as int).contains(k),
            forall|k: u32| pairs_map(ps).contains_key(k) ==> pairs_map(ps)[k] == mm[k],
            forall|j: int| 0 <= j < i ==> #[trigger] ps[j] == (ks[j], mm[ks[j]]),
            strictly_increasing(ks),
    {
        let k = match u32_vec_get(&keys, i) {
            Some(k) => k,
            None => 0,
        };
        assert(ks.contains(k)) by {
            assert(ks[i as int] == k);
        }
        let v = match u32_map_get(m, k) {
            Some(v) => v,
            None => 0,
        };
        let f = pair_field(k, v);
        let ghost prev_fs = views(fs@);
        let ghost prev_vec = fs@;
        fs.push(f);
        proof {
            lemma_views_push(prev_vec, f);
        }
        proof {
            let old_ps = ps;
            ps = ps.push((k, v));
            assert(ps.drop_last() =~= old_ps);
            assert(pairs_map(ps) == pairs_map(old_ps).insert(k, v));
            assert(ks.take(i + 1) =~= ks.take(i as int).push(k));
            assert(mm.contains_key(k));
            assert(v == mm[k]);
            assert(ks.take(i + 1)[i as int] == k);
            assert forall|x: u32| pairs_map(ps).contains_key(x) <==> ks.take(i + 1).contains(x) by {
                if ks.take(i + 1).contains(x) && x != k {
                    let t = choose|t: int| 0 <= t < i + 1 && #[trigger] ks.take(i + 1)[t] == x;
                    assert(ks.take(i as int)[t] == x);
                    assert(ks.take(i as int).contains(x));
                }
                if ks.take(i as int).contains(x) {
                    let t = choose|t: int| 0 <= t < i && #[trigger] ks.take(i as int)[t] == x;
                    assert(ks.take(i + 1)[t] == x);
                }
                if x == k {
                    assert(ks.take(i + 1).contains(x));
                }
            }
            assert forall|j: int| 0 <= j < i + 1 implies #[trigger] views(fs@)[j] == pair_bytes(
                ps[j].0,
                ps[j].1,
            ) by {
                if j < i {
                    assert(views(fs@)[j] == prev_fs[j]);
                }
            }
            assert(views(fs@) =~= Seq::new((i + 1) as nat, |j: int| pair_bytes(ps[j].0, ps[j].1)));
            assert forall|j: int| 0 <= j < i + 1 implies #[trigger] dec_pair(views(fs@)[j]) == Some(
                ps[j],
            ) by {
                if j < i {
                    assert(views(fs@)[j] == prev_fs[j]);
                }
            }
        }
    }
    let res = write_record(&fs);
    proof {
        let vs = views(fs@);
        lemma_record_roundtrip(vs);
        assert(Seq::new(vs.len(), |j: int| dec_pair(vs[j])->0) =~= ps);
        assert(ks.take(n as int) =~= ks);
        assert(pairs_map(ps) =~= mm);
        let sk = sorted_keys(mm);
        assert(strictly_increasing(sk) && forall|k: u32| #[trigger] sk.contains(k) <==> mm.dom().contains(k));
        lemma_sorted_unique(ks, sk);
        assert(vs =~= Seq::new(sk.len(), |j: int| pair_bytes(sk[j], mm[sk[j]])));
    }
    res
}

fn decode_attempts(env: &Env, f: &[u8]) -> (res: Option<soroban_sdk::Map<u32, u32>>)
    ensures
        match res {
            Some(m) => dec_attempts(f@) == Some(u32_map_entries(m)) && u32_map_typed(m),
            None => dec_attempts(f@) is None,
        },
{
    let fs = match read_record(f) {
        Some(fs) => fs,
        None => return None,
    };
    let n = fs.len();
    let ghost vs = views(fs@);
    let mut m = u32_map_new(env);
    assert(u32_map_entries(m) =~= pairs_map(Seq::new(0, |j: int| dec_pair(vs[j])->0)));
    for i in 0..n
        invariant
            n == fs@.len(),
            vs == views(fs@),
            parse_record(f@) == Some(vs),
            u32_map_entries(m) == pairs_map(Seq::new(i as nat, |j: int| dec_pair(vs[j])->0)),
            u32_map_typed(m),
            forall|j: int| 0 <= j < i ==> (#[trigger] dec_pair(vs[j])) is Some,
    {
        assert(vs[i as int] == fs[i as int]@);
        match decode_pair(fs[i].as_slice()) {
            Some((k, v)) => {
                u32_map_set(&mut m, k, v);
                let ghost s = Seq::new((i + 1) as nat, |j: int| dec_pair(vs[j])->0);
                assert(s.drop_last() =~= Seq::new(i as nat, |j: int| dec_pair(vs[j])->0));
            },
            None => {
                assert(parse_record(f@) == Some(vs));
                assert(dec_pair(vs[i as int]) is None);
                assert(!(forall|j: int| 0 <= j < vs.len() ==> (#[trigger] dec_pair(vs[j])) is Some));
                return None;
            },
        }
    }
    Some(m)
}

/// The bytes a player's stored progress is kept as.
pub fn encode_progress(p: &StoredPlayerProgress) -> (res: Vec<u8>)
    requires
        p.wf(),
    ensures
        dec_progress(res@) == Some(p@),
        res@ == progress_bytes(p@),
{
    let mut fs: Vec<Vec<u8>> = Vec::new();
    fs.push(u32_items_field(&p.completed_clues));
    fs.push(attempts_field(&p.clue_attempts));
    fs.push(u32_field(p.total_score));
    fs.push(u64_field(p.started_at));
    fs.push(u64_field(p.completed_at));
    fs.push(bool_field(p.is_completed));
    fs.push(bool_field(p.reward_claimed));
    let res = write_record(&fs);
    proof {
        lemma_record_roundtrip(views(fs@));
        lemma_u32_roundtrip(p.total_score);
        lemma_u64_roundtrip(p.started_at);
        lemma_u64_roundtrip(p.completed_at);
        lemma_bool_roundtrip(p.is_completed);
        lemma_bool_roundtrip(p.reward_claimed);
        let v = views(fs@);
        assert(v[2] == u32_bytes(p.total_score));
        assert(v[3] == u64_bytes(p.started_at));
        assert(v[4] == u64_bytes(p.completed_at));
        assert(v[5] == bool_bytes(p.is_completed));
        assert(v[6] == bool_bytes(p.reward_claimed));
        assert(v =~= seq![
            u32_list_bytes(p@.completed_clues),
            attempts_bytes(p@.clue_attempts),
            u32_bytes(p.total_score),
            u64_bytes(p.started_at),
            u64_bytes(p.completed_at),
            bool_bytes(p.is_completed),
            bool_bytes(p.reward_claimed),
        ]);
    }
    res
}

/// The stored progress held by the bytes `f`, if they hold one; its
/// collections are made in `env`.
pub fn decode_progress(env: &Env, f: &[u8]) -> (res: Option<StoredPlayerProgress>)
    ensures
        match res {
            Some(p) => dec_progress(f@) == Some(p@) && p.wf(),
            None => dec_progress(f@) is None,
        },
{
    let fs = match read_record(f) {
        Some(fs) => fs,
        None => return None,
    };
    if fs.len() != 7 {
        return None;
    }
    let completed_clues = match decode_u32_items(env, fs[0].as_slice()) {
        Some(v) => v,
        None => return None,
    };
    let clue_attempts = match decode_attempts(env, fs[1].as_slice()) {
        Some(v) => v,
        None => return None,
    };
    let total_score = match decode_u32(fs[2].as_slice()) {
        Some(v) => v,
        None => return None,
    };
    let started_at = match decode_u64(fs[3].as_slice()) {
        Some(v) => v,
        None => return None,
    };
    let completed_at = match decode_u64(fs[4].as_slice()) {
        Some(v) => v,
        None => return None,
    };
    let is_completed = match decode_bool(fs[5].as_slice()) {
        Some(v) => v,
        None => return None,
    };
    let reward_claimed = match decode_bool(fs[6].as_slice()) {
        Some(v) => v,
        None => return None,
    };
    Some(
        StoredPlayerProgress {
            completed_clues,
            clue_attempts,
            total_score,
            started_at,
            completed_at,
            is_completed,
            reward_claimed,
        },
    )
}

pub open spec fn nft_fields(n: NftModel) -> Seq<Seq<u8>> {
    seq![
        u64_bytes(n.nft_id),
        u64_bytes(n.hunt_id),
        n.owner,
        n.title,
        n.description,
        n.image_uri,
        u32_bytes(n.rarity),
        u32_bytes(n.tier),
        u64_bytes(n.minted_at),
    ]
}

/// The bytes an NFT is stored as.
pub open spec fn nft_bytes(n: NftModel) -> Seq<u8> {
    record(nft_fields(n))
}

/// The NFT stored as the bytes `f`, or `None` when `f` does not hold one.
pub open spec fn dec_nft(f: Seq<u8>) -> Option<NftModel> {
    match parse_record(f) {
        Some(fs) => if fs.len() == 9 && dec_u64(fs[0]) is Some && dec_u64(fs[1]) is Some
            && dec_u32(fs[6]) is Some && dec_u32(fs[7]) is Some && dec_u64(fs[8]) is Some {
            Some(
                NftModel {
                    nft_id: dec_u64(fs[0])->0,
                    hunt_id: dec_u64(fs[1])->0,
                    owner: fs[2],
                    title: fs[3],
                    description: fs[4],
                    image_uri: fs[5],
                    rarity: dec_u32(fs[6])->0,
                    tier: dec_u32(fs[7])->0,
                    minted_at: dec_u64(fs[8])->0,
                },
            )
        } else {
            None
        },
        None => None,
    }
}

proof fn lemma_nft_roundtrip(n: NftModel)
    requires
        fits(nft_fields(n)),
    ensures
        dec_nft(nft_bytes(n)) == Some(n),
{
    lemma_u64_roundtrip(n.nft_id);
    lemma_u64_roundtrip(n.hunt_id);
    lemma_u32_roundtrip(n.rarity);
    lemma_u32_roundtrip(n.tier);
    lemma_u64_roundtrip(n.minted_at);
    let fs = nft_fields(n);
    lemma_record_roundtrip(fs);
    assert(parse_record(nft_bytes(n)) == Some(fs));
    assert(dec_u64(fs[0]) == Some(n.nft_id));
    assert(dec_u64(fs[1]) == Some(n.hunt_id));
    assert(dec_u32(fs[6]) == Some(n.rarity));
    assert(dec_u32(fs[7]) == Some(n.tier));
    assert(dec_u64(fs[8]) == Some(n.minted_at));
}

/// The bytes an NFT is stored as.
pub fn encode_nft(n: &NftData) -> (res: Vec<u8>)
    ensures
        res@ == nft_bytes(n@),
        dec_nft(res@) == Some(n@),
{
    let mut fs: Vec<Vec<u8>> = Vec::new();
    fs.push(u64_field(n.nft_id));
    fs.push(u64_field(n.hunt_id));
    fs.push(copy_bytes(n.owner.strkey.as_slice()));
    fs.push(copy_bytes(n.title.as_slice()));
    fs.push(copy_bytes(n.description.as_slice()));
    fs.push(copy_bytes(n.image_uri.as_slice()));
    fs.push(u32_field(n.rarity));
    fs.push(u32_field(n.tier));
    fs.push(u64_field(n.minted_at));
    assert(views(fs@) =~= nft_fields(n@));
    let res = write_record(&fs);
    proof {
        lemma_nft_roundtrip(n@);
    }
    res
}

/// The NFT held by the bytes `f`, if they hold one.
pub fn decode_nft(f: &[u8]) -> (res: Option<NftData>)
    ensures
        match res {
            Some(n) => dec_nft(f@) == Some(n@),
            None => dec_nft(f@) is None,
        },
{
    let fs = match read_record(f) {
        Some(fs) => fs,
        None => return None,
    };
    if fs.len() != 9 {
        return None;
    }
    let nft_id = match decode_u64(fs[0].as_slice()) {
        Some(v) => v,
        None => return None,
    };
    let hunt_id = match decode_u64(fs[1].as_slice()) {
        Some(v) => v,
        None => return None,
    };
    let rarity = match decode_u32(fs[6].as_slice()) {
        Some(v) => v,
        None => return None,
    };
    let tier = match decode_u32(fs[7].as_slice()) {
        Some(v) => v,
        None => return None,
    };
    let minted_at = match decode_u64(fs[8].as_slice()) {
        Some(v) => v,
        None => return None,
    };
    Some(
        NftData {
            nft_id,
            hunt_id,
            owner: Address::new(copy_bytes(fs[2].as_slice())),
            title: copy_bytes(fs[3].as_slice()),
            description: copy_bytes(fs[4].as_slice()),
            image_uri: copy_bytes(fs[5].as_slice()),
            rarity,
            tier,
            minted_at,
        },
    )
}

/// An optional `u64`: a record with no field, or with the value as its one
/// field.
/// How an optional `u64` kept as a scalar entry is written: the number's
/// bytes, or no byte for `None`, which the host keeps as `()`.
pub open spec fn opt_u64_bytes(v: Option<u64>) -> Seq<u8> {
    match v {
        Some(x) => u64_bytes(x),
        None => Seq::empty(),
    }
}

} // verus!

//! The hunts, clues, rewards and events of the Hunty contracts, as plain
//! values, with the rules that read them.
use crate::codec::push_bytes;
use vstd::prelude::*;

verus! {

/// An account or contract address, held as its strkey text (for example
/// `G...` or `C...`) in bytes.
#[derive(Debug)]
pub struct Address {
    pub strkey: Vec<u8>,
}

impl View for Address {
    type V = Seq<u8>;

    open spec fn view(&self) -> Seq<u8> {
        self.strkey@
    }
}

impl Address {
    pub fn new(strkey: Vec<u8>) -> (res: Address)
        ensures
            res@ == strkey@,
    {
        Address { strkey }
    }
}

impl Clone for Address {
    fn clone(&self) -> (res: Self)
        ensures
            res@ == self@,
    {
        let mut strkey: Vec<u8> = Vec::new();
        push_bytes(&mut strkey, self.strkey.as_slice());
        assert(strkey@ =~= self.strkey@);
        Address { strkey }
    }
}

/// The address held by an optional address, if any.
pub open spec fn opt_address_view(a: Option<Address>) -> Option<Seq<u8>> {
    match a {
        Some(x) => Some(x@),
        None => None,
    }
}

/// Where a hunt stands in its life.
#[derive(Clone, Copy, Debug, PartialEq, Eq, Structural)]
pub enum HuntStatus {
    Draft,
    Active,
    Completed,
    Cancelled,
    /// Hunt was active but the creator temporarily stopped it.
    /// Distinct from Draft (never activated) so re-registration logic and
    /// UIs can unambiguously communicate "this hunt is paused, not new".
    /// Valid transitions: Paused → Active (re-activate), Paused → Cancelled.
    Paused,
}

/// The rewards a hunt pays out and how many have been claimed.
#[derive(Debug)]
pub struct RewardConfig {
    pub xlm_pool: i128,
    pub nft_enabled: bool,
    pub nft_contract: Option<Address>,
    pub max_winners: u32,
    pub claimed_count: u32,
    /// NFT rarity: 0 = default, 1-5 = common to legendary.
    pub nft_rarity: u32,
    /// NFT tier: 0 = none, custom tier value.
    pub nft_tier: u32,
}

/// What a `RewardConfig` holds.
pub struct RewardConfigModel {
    pub xlm_pool: i128,
    pub nft_enabled: bool,
    pub nft_contract: Option<Seq<u8>>,
    pub max_winners: u32,
    pub claimed_count: u32,
    pub nft_rarity: u32,
    pub nft_tier: u32,
}

impl View for RewardConfig {
    type V = RewardConfigModel;

    open spec fn view(&self) -> RewardConfigModel {
        RewardConfigModel {
            xlm_pool: self.xlm_pool,
            nft_enabled: self.nft_enabled,
            nft_contract: opt_address_view(self.nft_contract),
            max_winners: self.max_winners,
            claimed_count: self.claimed_count,
            nft_rarity: self.nft_rarity,
            nft_tier: self.nft_tier,
        }
    }
}

/// Integer division rounding toward zero, as Rust's `/` on signed integers.
pub open spec fn div_toward_zero(a: int, b: int) -> int {
    if a >= 0 {
        a / b
    } else {
        -((-a) / b)
    }
}

impl RewardConfig {
    /// A reward configuration with no rewards claimed yet.
    pub fn new(
        xlm_pool: i128,
        nft_enabled: bool,
        nft_contract: Option<Address>,
        max_winners: u32,
        nft_rarity: u32,
        nft_tier: u32,
    ) -> (res: Self)
        ensures
            res.xlm_pool == xlm_pool,
            res.nft_enabled == nft_enabled,
            res.nft_contract == nft_contract,
            res.max_winners == max_winners,
            res.claimed_count == 0,
            res.nft_rarity == nft_rarity,
            res.nft_tier == nft_tier,
    {
        RewardConfig {
            xlm_pool,
            nft_enabled,
            nft_contract,
            max_winners,
            claimed_count: 0,
            nft_rarity,
            nft_tier,
        }
    }

    /// The pool shared equally among the winners, rounded toward zero; 0 when
    /// the hunt has no winners.
    pub fn reward_per_winner(&self) -> (res: i128)
        ensures
            self.max_winners == 0 ==> res == 0,
            self.max_winners != 0 ==> res == div_toward_zero(
                self.xlm_pool as int,
                self.max_winners as int,
            ),
    {
        if self.max_winners == 0 {
            0
        } else {
            let w = self.max_winners as i128;
            self.xlm_pool / w
        }
    }
}

/// A treasure hunt.
#[derive(Debug)]
pub struct Hunt {
    pub hunt_id: u64,
    pub creator: Address,
    pub title: Vec<u8>,
    pub description: Vec<u8>,
    pub status: HuntStatus,
    pub created_at: u64,
    pub activated_at: u64,
    pub start_time: u64,
    pub end_time: u64,
    pub reward_config: RewardConfig,
    pub total_clues: u32,
    pub required_clues: u32,
    pub max_attempts_per_clue: u32,
}

/// What a `Hunt` holds.
pub struct HuntModel {
    pub hunt_id: u64,
    pub creator: Seq<u8>,
    pub title: Seq<u8>,
    pub description: Seq<u8>,
    pub status: HuntStatus,
    pub created_at: u64,
    pub activated_at: u64,
    pub start_time: u64,
    pub end_time: u64,
    pub reward_config: RewardConfigModel,
    pub total_clues: u32,
    pub required_clues: u32,
    pub max_attempts_per_clue: u32,
}

impl View for Hunt {
    type V = HuntModel;

    open spec fn view(&self) -> HuntModel {
        HuntModel {
            hunt_id: self.hunt_id,
            creator: self.creator@,
            title: self.title@,
            description: self.description@,
            status: self.status,
            created_at: self.created_at,
            activated_at: self.activated_at,
            start_time: self.start_time,
            end_time: self.end_time,
            reward_config: self.reward_config@,
            total_clues: self.total_clues,
            required_clues: self.required_clues,
            max_attempts_per_clue: self.max_attempts_per_clue,
        }
    }
}

/// Whether a hunt with this status and window accepts play at `now`: it is
/// active, has started (a start time of 0 means no start bound) and has not
/// ended (an end time of 0 means no end bound).
pub open spec fn hunt_open_at(status: HuntStatus, start_time: u64, end_time: u64, now: u64) -> bool {
    &&& status == HuntStatus::Active
    &&& (start_time == 0 || now >= start_time)
    &&& (end_time == 0 || now < end_time)
}

/// A hunt accepts play exactly when it is active, its start time is 0 or
/// not after `now`, and its end time is 0 or after `now`. In particular an
/// active hunt with no end bound is open at every time from its start on,
/// whatever its start time; a hunt in any other status is never open; a
/// hunt is closed from its (nonzero) end time on and before its (nonzero)
/// start time.
pub proof fn law_hunt_open_window(status: HuntStatus, start_time: u64, end_time: u64, now: u64)
    ensures
        hunt_open_at(status, start_time, end_time, now) <==> (status is Active && (start_time == 0
            || start_time <= now) && (end_time == 0 || now < end_time)),
        status is Active && end_time == 0 && start_time <= now ==> hunt_open_at(
            status,
            start_time,
            end_time,
            now,
        ),
        status is Active && start_time <= now && now < end_time ==> hunt_open_at(
            status,
            start_time,
            end_time,
            now,
        ),
        !(status is Active) ==> !hunt_open_at(status, start_time, end_time, now),
        end_time != 0 && now >= end_time ==> !hunt_open_at(status, start_time, end_time, now),
        start_time != 0 && now < start_time ==> !hunt_open_at(status, start_time, end_time, now),
{
}

impl Hunt {
    pub fn is_active(&self, current_time: u64) -> (res: bool)
        ensures
            res == hunt_open_at(self.status, self.start_time, self.end_time, current_time),
    {
        self.status == HuntStatus::Active && (self.start_time == 0 || current_time
            >= self.start_time) && (self.end_time == 0 || current_time < self.end_time)
    }

    pub fn has_rewards_available(&self) -> (res: bool)
        ensures
            res == (self.reward_config.claimed_count < self.reward_config.max_winners),
    {
        self.reward_config.claimed_count < self.reward_config.max_winners
    }
}

/// Stored clue with SHA256 answer hashes (supports multiple acceptable answers).
/// Hashes are never exposed via get_clue/list_clues or events.
#[derive(Debug)]
pub struct Clue {
    pub clue_id: u32,
    pub question: Vec<u8>,
    /// The 32-byte SHA256 digests of the accepted answers.
    pub answer_hashes: Vec<Vec<u8>>,
    pub points: u32,
    pub is_required: bool,
    /// Difficulty multiplier (1-10). Points earned = points * difficulty.
    pub difficulty: u8,
}

/// What a `Clue` holds.
pub struct ClueModel {
    pub clue_id: u32,
    pub question: Seq<u8>,
    pub answer_hashes: Seq<Seq<u8>>,
    pub points: u32,
    pub is_required: bool,
    pub difficulty: u8,
}

impl View for Clue {
    type V = ClueModel;

    open spec fn view(&self) -> ClueModel {
        ClueModel {
            clue_id: self.clue_id,
            question: self.question@,
            answer_hashes: crate::codec::views(self.answer_hashes@),
            points: self.points,
            is_required: self.is_required,
            difficulty: self.difficulty,
        }
    }
}

/// Clue info returned by get_clue/list_clues. Excludes answer hash.
#[derive(Debug)]
pub struct ClueInfo {
    pub clue_id: u32,
    pub question: Vec<u8>,
    pub points: u32,
    pub is_required: bool,
    /// Difficulty multiplier (1-10).
    pub difficulty: u8,
}

#[derive(Clone, Copy, Debug, PartialEq, Eq, Structural)]
pub struct HuntCancelledEvent {
    pub hunt_id: u64,
}

#[derive(Clone, Copy, Debug, PartialEq, Eq, Structural)]
pub struct HuntDeactivatedEvent {
    pub hunt_id: u64,
}

#[derive(Clone, Copy, Debug, PartialEq, Eq, Structural)]
pub struct HuntActivatedEvent {
    pub hunt_id: u64,
    pub activated_at: u64,
}

/// A point on the map with a radius around it.
#[derive(Clone, Copy, Debug, PartialEq, Eq, Structural)]
pub struct Location {
    /// Degrees * 1_000_000
    pub latitude: i64,
    /// Degrees * 1_000_000
    pub longitude: i64,
    pub radius: u32,
}

impl Default for Location {
    fn default() -> (res: Self)
        ensures
            res.latitude == 0,
            res.longitude == 0,
            res.radius == 0,
    {
        Location { latitude: 0, longitude: 0, radius: 0 }
    }
}

#[derive(Debug)]
pub struct HuntCreatedEvent {
    pub hunt_id: u64,
    pub creator: Address,
    pub title: Vec<u8>,
}

#[derive(Clone, Copy, Debug, PartialEq, Eq, Structural)]
pub struct HuntStatusChangedEvent {
    pub hunt_id: u64,
    pub old_status: HuntStatus,
    pub new_status: HuntStatus,
}

#[derive(Debug)]
pub struct ClueCompletedEvent {
    pub hunt_id: u64,
    pub player: Address,
    pub clue_id: u32,
    pub points_earned: u32,
}

#[derive(Debug)]
pub struct HuntCompletedEvent {
    pub hunt_id: u64,
    pub player: Address,
    pub total_score: u32,
    pub completion_time: u64,
}

#[derive(Debug)]
pub struct RewardClaimedEvent {
    pub hunt_id: u64,
    pub player: Address,
    pub xlm_amount: i128,
    pub nft_awarded: bool,
}

#[derive(Debug)]
pub struct RewardManagerSetEvent {
    pub old_address: Option<Address>,
    pub new_address: Address,
}

/// Emitted when a clue is added. Does not expose the answer hash.
#[derive(Debug)]
pub struct ClueAddedEvent {
    pub hunt_id: u64,
    pub clue_id: u32,
    pub creator: Address,
    pub points: u32,
    pub is_required: bool,
    /// Difficulty multiplier (1-10).
    pub difficulty: u8,
}

/// Emitted when a player registers for an active hunt.
#[derive(Debug)]
pub struct PlayerRegisteredEvent {
    pub hunt_id: u64,
    pub player: Address,
}

#[derive(Debug)]
pub struct AnswerIncorrectEvent {
    pub hunt_id: u64,
    pub player: Address,
    pub clue_id: u32,
    pub timestamp: u64,
    pub attempt_number: u32,
}

/// Leaderboard entry for a single player in a hunt (read-only query result).
/// `queried_at` is the ledger timestamp at the moment the leaderboard was fetched,
/// giving frontend caches a reliable "last refreshed" anchor distinct from
/// the per-player `completed_at`.
#[derive(Debug)]
pub struct LeaderboardEntry {
    pub rank: u32,
    pub player: Address,
    pub score: u32,
    pub completed_at: u64,
    pub is_completed: bool,
    pub queried_at: u64,
}

/// Lightweight row returned when scanning a window of players. Includes the
/// player's index in the player list so callers can merge/paginate results client-side.
#[derive(Debug)]
pub struct LeaderboardRow {
    pub index: u32,
    pub player: Address,
    pub score: u32,
    pub completed_at: u64,
    pub is_completed: bool,
}

/// Result of a single leaderboard scan window. Clients may call repeatedly
/// with `next_index` until `finished` is true, merging `entries` off-chain to
/// produce a global top-N leaderboard without requiring a single large on-chain
/// scan (which would be expensive in gas).
#[derive(Debug)]
pub struct LeaderboardWindow {
    pub entries: Vec<LeaderboardRow>,
    pub next_index: u32,
    pub finished: bool,
    pub queried_at: u64,
}

/// Aggregate statistics for a hunt (read-only query result).
#[derive(Clone, Copy, Debug, PartialEq, Eq, Structural)]
pub struct HuntStatistics {
    pub total_players: u32,
    pub completed_count: u32,
    pub completion_rate_percent: u32,
    pub total_score_sum: u64,
    pub average_score: u32,
}

/// An NFT awarded for completing a hunt.
#[derive(Debug)]
pub struct NftData {
    pub nft_id: u64,
    pub hunt_id: u64,
    pub owner: Address,
    pub title: Vec<u8>,
    pub description: Vec<u8>,
    pub image_uri: Vec<u8>,
    /// 0 = default, 1-5 = common to legendary.
    pub rarity: u32,
    pub tier: u32,
    pub minted_at: u64,
}

/// What an `NftData` holds.
pub struct NftModel {
    pub nft_id: u64,
    pub hunt_id: u64,
    pub owner: Seq<u8>,
    pub title: Seq<u8>,
    pub description: Seq<u8>,
    pub image_uri: Seq<u8>,
    pub rarity: u32,
    pub tier: u32,
    pub minted_at: u64,
}

impl View for NftData {
    type V = NftModel;

    open spec fn view(&self) -> NftModel {
        NftModel {
            nft_id: self.nft_id,
            hunt_id: self.hunt_id,
            owner: self.owner@,
            title: self.title@,
            description: self.description@,
            image_uri: self.image_uri@,
            rarity: self.rarity,
            tier: self.tier,
            minted_at: self.minted_at,
        }
    }
}

/// The errors of the hunt storage lookups.
#[derive(Clone, Copy, Debug, PartialEq, Eq, Structural)]
pub enum HuntError {
    HuntNotFound { hunt_id: u64 },
    ClueNotFound { hunt_id: u64 },
    PlayerNotRegistered { hunt_id: u64 },
}

} // verus!

//! A player's progress through one hunt: solved clues, attempts per clue and
//! score.
use crate::collections::{
    u32_items, u32_map_clone, u32_map_entries, u32_map_get, u32_map_new, u32_map_set,
    u32_map_typed, u32_vec_clone, u32_vec_get, u32_vec_len, u32_vec_new, u32_vec_push,
    u32_vec_typed,
};
use crate::types::Address;
use soroban_sdk::Env;
use vstd::prelude::*;

verus! {

/// Internal storage representation of player progress.
/// Does not store `player` or `hunt_id` — those are already the storage key.
pub struct StoredPlayerProgress {
    pub completed_clues: soroban_sdk::Vec<u32>,
    pub clue_attempts: soroban_sdk::Map<u32, u32>,
    pub total_score: u32,
    pub started_at: u64,
    pub completed_at: u64,
    pub is_completed: bool,
    pub reward_claimed: bool,
}

impl StoredPlayerProgress {
    /// Its solved clues are all `u32` values, and so are the keys and values
    /// of its attempt counts.
    pub open spec fn wf(&self) -> bool {
        u32_vec_typed(self.completed_clues) && u32_map_typed(self.clue_attempts)
    }
}

/// What a `StoredPlayerProgress` holds.
pub struct StoredProgressModel {
    pub completed_clues: Seq<u32>,
    pub clue_attempts: Map<u32, u32>,
    pub total_score: u32,
    pub started_at: u64,
    pub completed_at: u64,
    pub is_completed: bool,
    pub reward_claimed: bool,
}

impl View for StoredPlayerProgress {
    type V = StoredProgressModel;

    open spec fn view(&self) -> StoredProgressModel {
        StoredProgressModel {
            completed_clues: u32_items(self.completed_clues),
            clue_attempts: u32_map_entries(self.clue_attempts),
            total_score: self.total_score,
            started_at: self.started_at,
            completed_at: self.completed_at,
            is_completed: self.is_completed,
            reward_claimed: self.reward_claimed,
        }
    }
}

/// Public view of player progress, with `player` and `hunt_id` reconstructed from the key.
pub struct PlayerProgress {
    pub player: Address,
    pub hunt_id: u64,
    pub completed_clues: soroban_sdk::Vec<u32>,
    pub clue_attempts: soroban_sdk::Map<u32, u32>,
    pub total_score: u32,
    pub started_at: u64,
    pub completed_at: u64,
    pub is_completed: bool,
    pub reward_claimed: bool,
}

/// What a `PlayerProgress` holds.
pub struct PlayerProgressModel {
    pub player: Seq<u8>,
    pub hunt_id: u64,
    pub completed_clues: Seq<u32>,
    pub clue_attempts: Map<u32, u32>,
    pub total_score: u32,
    pub started_at: u64,
    pub completed_at: u64,
    pub is_completed: bool,
    pub reward_claimed: bool,
}

impl View for PlayerProgress {
    type V = PlayerProgressModel;

    open spec fn view(&self) -> PlayerProgressModel {
        PlayerProgressModel {
            player: self.player@,
            hunt_id: self.hunt_id,
            completed_clues: u32_items(self.completed_clues),
            clue_attempts: u32_map_entries(self.clue_attempts),
            total_score: self.total_score,
            started_at: self.started_at,
            completed_at: self.completed_at,
            is_completed: self.is_completed,
            reward_claimed: self.reward_claimed,
        }
    }
}

/// The part of a player's progress that storage keeps.
pub open spec fn stored_part(p: PlayerProgressModel) -> StoredProgressModel {
    StoredProgressModel {
        completed_clues: p.completed_clues,
        clue_attempts: p.clue_attempts,
        total_score: p.total_score,
        started_at: p.started_at,
        completed_at: p.completed_at,
        is_completed: p.is_completed,
        reward_claimed: p.reward_claimed,
    }
}

/// A player's progress rebuilt from its stored part and its key.
pub open spec fn with_key(s: StoredProgressModel, player: Seq<u8>, hunt_id: u64) -> PlayerProgressModel {
    PlayerProgressModel {
        player,
        hunt_id,
        completed_clues: s.completed_clues,
        clue_attempts: s.clue_attempts,
        total_score: s.total_score,
        started_at: s.started_at,
        completed_at: s.completed_at,
        is_completed: s.is_completed,
        reward_claimed: s.reward_claimed,
    }
}

/// The attempts recorded for `clue_id`: the map's value, or 0 when absent.
pub open spec fn attempts_of(m: Map<u32, u32>, clue_id: u32) -> u32 {
    if m.contains_key(clue_id) {
        m[clue_id]
    } else {
        0
    }
}

/// The progress after `clue_id` is solved for `points`: the clue is
/// appended to the solved ones and its points added, unless it was solved
/// before, in which case nothing changes.
pub open spec fn clue_completed(p: PlayerProgressModel, clue_id: u32, points: u32) -> PlayerProgressModel {
    if p.completed_clues.contains(clue_id) {
        p
    } else {
        PlayerProgressModel {
            completed_clues: p.completed_clues.push(clue_id),
            total_score: (p.total_score + points) as u32,
            ..p
        }
    }
}

/// Rebuilding a progress from the part that storage keeps and its key gives
/// the progress back.
pub proof fn law_from_stored_undoes_to_stored(p: PlayerProgressModel)
    ensures
        with_key(stored_part(p), p.player, p.hunt_id) == p,
{
}

/// Solving a clue a second time changes nothing, whatever points it is
/// offered for.
pub proof fn law_complete_clue_idempotent(p: PlayerProgressModel, clue_id: u32, points: u32, again: u32)
    ensures
        clue_completed(clue_completed(p, clue_id, points), clue_id, again) == clue_completed(
            p,
            clue_id,
            points,
        ),
        clue_completed(p, clue_id, points).completed_clues.contains(clue_id),
{
    if !p.completed_clues.contains(clue_id) {
        let q = clue_completed(p, clue_id, points);
        assert(q.completed_clues[q.completed_clues.len() - 1] == clue_id);
    }
}

/// Each clue counts once. Completing a clue that already stands anywhere
/// among the solved ones leaves the progress exactly as it was; completing
/// one that does not appends it after the others and adds exactly its points
/// to the score, and nothing else changes.
pub proof fn law_complete_clue_counts_each_clue_once(p: PlayerProgressModel, clue_id: u32, points: u32)
    ensures
        forall|i: int|
            0 <= i < p.completed_clues.len() && #[trigger] p.completed_clues[i] == clue_id
                ==> clue_completed(p, clue_id, points) == p,
        (forall|i: int| 0 <= i < p.completed_clues.len() ==> #[trigger] p.completed_clues[i] != clue_id)
            && p.total_score + points <= u32::MAX ==> {
            let q = clue_completed(p, clue_id, points);
            &&& q.completed_clues.len() == p.completed_clues.len() + 1
            &&& q.completed_clues.subrange(0, p.completed_clues.len() as int) == p.completed_clues
            &&& q.completed_clues[p.completed_clues.len() as int] == clue_id
            &&& q.total_score == p.total_score + points
            &&& q.player == p.player
            &&& q.hunt_id == p.hunt_id
            &&& q.clue_attempts == p.clue_attempts
            &&& q.started_at == p.started_at
            &&& q.completed_at == p.completed_at
            &&& q.is_completed == p.is_completed
            &&& q.reward_claimed == p.reward_claimed
        },
{
    assert forall|i: int|
        0 <= i < p.completed_clues.len() && #[trigger] p.completed_clues[i] == clue_id implies clue_completed(
            p,
            clue_id,
            points,
        ) == p by {
        assert(p.completed_clues.contains(clue_id));
    }
    if forall|i: int| 0 <= i < p.completed_clues.len() ==> #[trigger] p.completed_clues[i] != clue_id {
        assert(!p.completed_clues.contains(clue_id));
        let q = clue_completed(p, clue_id, points);
        assert(q.completed_clues.subrange(0, p.completed_clues.len() as int) =~= p.completed_clues);
    }
}

/// Recording an attempt at a clue raises the count read back for it by one
/// and leaves the counts of other clues alone.
pub proof fn law_record_attempt_counts_up(m: Map<u32, u32>, clue_id: u32, other: u32)
    requires
        attempts_of(m, clue_id) < u32::MAX,
        other != clue_id,
    ensures
        attempts_of(m.insert(clue_id, (attempts_of(m, clue_id) + 1) as u32), clue_id) == attempts_of(
            m,
            clue_id,
        ) + 1,
        attempts_of(m.insert(clue_id, (attempts_of(m, clue_id) + 1) as u32), other) == attempts_of(
            m,
            other,
        ),
{
}

impl PlayerProgress {
    /// Its solved clues are all `u32` values, and so are the keys and values
    /// of its attempt counts.
    pub open spec fn wf(&self) -> bool {
        u32_vec_typed(self.completed_clues) && u32_map_typed(self.clue_attempts)
    }

    /// Progress of a player who has just joined `hunt_id` at `current_time`.
    pub fn new(env: &Env, player: Address, hunt_id: u64, current_time: u64) -> (res: Self)
        ensures
            res@ == (PlayerProgressModel {
                player: player@,
                hunt_id,
                completed_clues: Seq::empty(),
                clue_attempts: Map::empty(),
                total_score: 0,
                started_at: current_time,
                completed_at: 0,
                is_completed: false,
                reward_claimed: false,
            }),
            res.wf(),
    {
        let completed_clues = u32_vec_new(env);
        let clue_attempts = u32_map_new(env);
        let res = Self {
            player,
            hunt_id,
            completed_clues,
            clue_attempts,
            total_score: 0,
            started_at: current_time,
            completed_at: 0,
            is_completed: false,
            reward_claimed: false,
        };
        assert(u32_map_entries(res.clue_attempts) =~= Map::empty());
        res
    }

    /// Convert to the compact form stored on-chain (drops redundant key fields).
    pub fn to_stored(&self) -> (res: StoredPlayerProgress)
        ensures
            res@ == stored_part(self@),
            res.wf() == self.wf(),
    {
        StoredPlayerProgress {
            completed_clues: u32_vec_clone(&self.completed_clues),
            clue_attempts: u32_map_clone(&self.clue_attempts),
            total_score: self.total_score,
            started_at: self.started_at,
            completed_at: self.completed_at,
            is_completed: self.is_completed,
            reward_claimed: self.reward_claimed,
        }
    }

    /// Reconstruct from stored form plus the key fields.
    pub fn from_stored(stored: StoredPlayerProgress, player: Address, hunt_id: u64) -> (res: Self)
        ensures
            res@ == with_key(stored@, player@, hunt_id),
            res.wf() == stored.wf(),
    {
        Self {
            player,
            hunt_id,
            completed_clues: stored.completed_clues,
            clue_attempts: stored.clue_attempts,
            total_score: stored.total_score,
            started_at: stored.started_at,
            completed_at: stored.completed_at,
            is_completed: stored.is_completed,
            reward_claimed: stored.reward_claimed,
        }
    }

    pub fn has_completed_clue(&self, clue_id: u32) -> (res: bool)
        requires
            self.wf(),
        ensures
            res == self@.completed_clues.contains(clue_id),
    {
        let n = u32_vec_len(&self.completed_clues);
        let ghost items = u32_items(self.completed_clues);
        for i in 0..n
            invariant
                n == items.len(),
                items == u32_items(self.completed_clues),
                self.wf(),
                forall|j: int| 0 <= j < i ==> items[j] != clue_id,
        {
            if u32_vec_get(&self.completed_clues, i) == Some(clue_id) {
                return true;
            }
        }
        false
    }

    pub fn failed_attempts_for_clue(&self, clue_id: u32) -> (res: u32)
        requires
            self.wf(),
        ensures
            res == attempts_of(self@.clue_attempts, clue_id),
    {
        match u32_map_get(&self.clue_attempts, clue_id) {
            Some(v) => v,
            None => 0,
        }
    }

    /// Counts one more failed attempt at `clue_id`.
    pub fn record_failed_attempt(&mut self, clue_id: u32)
        requires
            old(self).wf(),
            attempts_of(old(self)@.clue_attempts, clue_id) < u32::MAX,
        ensures
            final(self)@ == (PlayerProgressModel {
                clue_attempts: old(self)@.clue_attempts.insert(
                    clue_id,
                    (attempts_of(old(self)@.clue_attempts, clue_id) + 1) as u32,
                ),
                ..old(self)@
            }),
            final(self).wf(),
    {
        let current = self.failed_attempts_for_clue(clue_id);
        u32_map_set(&mut self.clue_attempts, clue_id, current + 1);
    }

    /// Marks `clue_id` solved and adds its points, unless it was solved before.
    pub fn complete_clue(&mut self, _env: &Env, clue_id: u32, points: u32)
        requires
            old(self).wf(),
            !old(self)@.completed_clues.contains(clue_id) ==> {
                &&& old(self).total_score + points <= u32::MAX
                &&& old(self)@.completed_clues.len() < u32::MAX
            },
        ensures
            final(self)@ == clue_completed(old(self)@, clue_id, points),
            final(self).wf(),
    {
        if !self.has_completed_clue(clue_id) {
            u32_vec_push(&mut self.completed_clues, clue_id);
            self.total_score = self.total_score + points;
        }
    }

    /// Increments the attempt counter for a clue and returns the new attempt number.
    pub fn record_attempt(&mut self, clue_id: u32) -> (res: u32)
        requires
            old(self).wf(),
            attempts_of(old(self)@.clue_attempts, clue_id) < u32::MAX,
        ensures
            res == attempts_of(old(self)@.clue_attempts, clue_id) + 1,
            final(self).wf(),
            final(self)@ == (PlayerProgressModel {
                clue_attempts: old(self)@.clue_attempts.insert(clue_id, res),
                ..old(self)@
            }),
    {
        let current = match u32_map_get(&self.clue_attempts, clue_id) {
            Some(v) => v,
            None => 0,
        };
        let next = current + 1;
        u32_map_set(&mut self.clue_attempts, clue_id, next);
        next
    }
}

} // verus!

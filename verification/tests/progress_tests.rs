use hunty::progress::PlayerProgress;
use hunty::types::Address;
use soroban_sdk::Env;

fn player() -> Address {
    Address::new(b"GPLAYER".to_vec())
}

fn solved(p: &PlayerProgress) -> Vec<u32> {
    p.completed_clues.iter().collect()
}

#[test]
fn new_progress_is_empty() {
    let env = Env::default();
    let p = PlayerProgress::new(&env, player(), 9, 1234);
    assert_eq!(p.player.strkey, b"GPLAYER".to_vec());
    assert_eq!(p.hunt_id, 9);
    assert_eq!(p.completed_clues.len(), 0);
    assert_eq!(p.clue_attempts.len(), 0);
    assert_eq!(p.total_score, 0);
    assert_eq!(p.started_at, 1234);
    assert_eq!(p.completed_at, 0);
    assert!(!p.is_completed);
    assert!(!p.reward_claimed);
}

#[test]
fn complete_clue_adds_points_once() {
    let env = Env::default();
    let mut p = PlayerProgress::new(&env, player(), 1, 0);
    p.complete_clue(&env, 4, 10);
    assert!(p.has_completed_clue(4));
    assert!(!p.has_completed_clue(5));
    assert_eq!(p.total_score, 10);
    p.complete_clue(&env, 4, 99);
    assert_eq!(p.total_score, 10);
    assert_eq!(solved(&p), vec![4]);
    p.complete_clue(&env, 2, 5);
    assert_eq!(solved(&p), vec![4, 2]);
    assert_eq!(p.total_score, 15);
}

#[test]
fn failed_attempts_count_per_clue() {
    let env = Env::default();
    let mut p = PlayerProgress::new(&env, player(), 1, 0);
    assert_eq!(p.failed_attempts_for_clue(3), 0);
    p.record_failed_attempt(3);
    p.record_failed_attempt(3);
    p.record_failed_attempt(8);
    assert_eq!(p.failed_attempts_for_clue(3), 2);
    assert_eq!(p.failed_attempts_for_clue(8), 1);
    assert_eq!(p.failed_attempts_for_clue(1), 0);
}

#[test]
fn record_attempt_returns_new_count() {
    let env = Env::default();
    let mut p = PlayerProgress::new(&env, player(), 1, 0);
    assert_eq!(p.record_attempt(6), 1);
    assert_eq!(p.record_attempt(6), 2);
    assert_eq!(p.record_attempt(7), 1);
    assert_eq!(p.failed_attempts_for_clue(6), 2);
}

#[test]
fn stored_form_round_trips() {
    let env = Env::default();
    let mut p = PlayerProgress::new(&env, player(), 5, 77);
    p.complete_clue(&env, 1, 3);
    p.record_attempt(2);
    p.completed_at = 90;
    p.is_completed = true;
    let stored = p.to_stored();
    assert_eq!(stored.total_score, 3);
    let back = PlayerProgress::from_stored(stored, player(), 5);
    assert_eq!(back.hunt_id, 5);
    assert_eq!(back.player.strkey, p.player.strkey);
    assert_eq!(solved(&back), vec![1]);
    assert_eq!(back.failed_attempts_for_clue(2), 1);
    assert_eq!(back.total_score, 3);
    assert_eq!(back.started_at, 77);
    assert_eq!(back.completed_at, 90);
    assert!(back.is_completed);
    assert!(!back.reward_claimed);
}

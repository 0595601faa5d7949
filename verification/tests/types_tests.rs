use hunty::types::{Address, Hunt, HuntStatus, Location, RewardConfig};

fn hunt_with(status: HuntStatus, start: u64, end: u64, claimed: u32, max: u32) -> Hunt {
    let mut reward = RewardConfig::new(1_000, false, None, max, 0, 0);
    reward.claimed_count = claimed;
    Hunt {
        hunt_id: 7,
        creator: Address::new(b"GCREATOR".to_vec()),
        title: b"Hunt".to_vec(),
        description: b"Desc".to_vec(),
        status,
        created_at: 1,
        activated_at: 2,
        start_time: start,
        end_time: end,
        reward_config: reward,
        total_clues: 3,
        required_clues: 3,
        max_attempts_per_clue: 0,
    }
}

#[test]
fn location_default_is_origin() {
    let l = Location::default();
    assert_eq!(l, Location { latitude: 0, longitude: 0, radius: 0 });
}

#[test]
fn reward_config_new_starts_unclaimed() {
    let owner = Address::new(b"CNFT".to_vec());
    let r = RewardConfig::new(500, true, Some(owner), 4, 3, 2);
    assert_eq!(r.xlm_pool, 500);
    assert!(r.nft_enabled);
    assert_eq!(r.nft_contract.as_ref().map(|a| a.strkey.clone()), Some(b"CNFT".to_vec()));
    assert_eq!(r.max_winners, 4);
    assert_eq!(r.claimed_count, 0);
    assert_eq!(r.nft_rarity, 3);
    assert_eq!(r.nft_tier, 2);
}

#[test]
fn reward_per_winner_splits_the_pool() {
    assert_eq!(RewardConfig::new(1_000, false, None, 4, 0, 0).reward_per_winner(), 250);
    assert_eq!(RewardConfig::new(10, false, None, 3, 0, 0).reward_per_winner(), 3);
}

#[test]
fn reward_per_winner_is_zero_without_winners() {
    assert_eq!(RewardConfig::new(1_000, false, None, 0, 0, 0).reward_per_winner(), 0);
}

#[test]
fn reward_per_winner_rounds_negative_pool_toward_zero() {
    assert_eq!(RewardConfig::new(-7, false, None, 2, 0, 0).reward_per_winner(), -3);
    assert_eq!(RewardConfig::new(i128::MIN, false, None, 1, 0, 0).reward_per_winner(), i128::MIN);
}

#[test]
fn hunt_is_active_only_when_active_and_in_window() {
    let open = hunt_with(HuntStatus::Active, 0, 0, 0, 1);
    assert!(open.is_active(0));
    assert!(open.is_active(u64::MAX));
    let windowed = hunt_with(HuntStatus::Active, 100, 200, 0, 1);
    assert!(!windowed.is_active(99));
    assert!(windowed.is_active(100));
    assert!(windowed.is_active(199));
    assert!(!windowed.is_active(200));
    for status in [HuntStatus::Draft, HuntStatus::Completed, HuntStatus::Cancelled, HuntStatus::Paused] {
        assert!(!hunt_with(status, 0, 0, 0, 1).is_active(150));
    }
}

#[test]
fn hunt_has_rewards_until_all_claimed() {
    assert!(hunt_with(HuntStatus::Active, 0, 0, 0, 2).has_rewards_available());
    assert!(hunt_with(HuntStatus::Active, 0, 0, 1, 2).has_rewards_available());
    assert!(!hunt_with(HuntStatus::Active, 0, 0, 2, 2).has_rewards_available());
    assert!(!hunt_with(HuntStatus::Active, 0, 0, 0, 0).has_rewards_available());
}

#[test]
fn address_clone_keeps_strkey() {
    let a = Address::new(b"GABC".to_vec());
    let b = a.clone();
    assert_eq!(a.strkey, b.strkey);
}

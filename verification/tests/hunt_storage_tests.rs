use hunty::hunt_storage::Storage;
use hunty::progress::PlayerProgress;
use hunty::types::{Address, Clue, Hunt, HuntError, HuntStatus, RewardConfig};
use soroban_sdk::testutils::Address as _;
use soroban_sdk::testutils::EnvTestConfig;
use soroban_sdk::Env;

fn in_contract<T>(f: impl FnOnce(&mut Env) -> T) -> T {
    let env = Env::new_with_config(EnvTestConfig { capture_snapshot_at_drop: false });
    env.mock_all_auths();
    let issuer = soroban_sdk::Address::generate(&env);
    let sac = env.register_stellar_asset_contract_v2(issuer);
    let id = sac.address();
    let mut inner = env.clone();
    env.as_contract(&id, move || f(&mut inner))
}

fn some_address(env: &Env) -> Address {
    let a = soroban_sdk::Address::generate(env);
    let s = a.to_string();
    let mut bytes = vec![0u8; s.len() as usize];
    s.copy_into_slice(&mut bytes);
    Address::new(bytes)
}

fn clue(id: u32, points: u32) -> Clue {
    Clue {
        clue_id: id,
        question: format!("question {}", id).into_bytes(),
        answer_hashes: vec![vec![id as u8; 32], vec![0xAB; 32]],
        points,
        is_required: id % 2 == 0,
        difficulty: 3,
    }
}

fn clue_ids(env: &Env, hunt_id: u64) -> Vec<u32> {
    Storage::list_clues_for_hunt(env, hunt_id).iter().map(|c| c.clue_id).collect()
}

#[test]
fn hunt_round_trips_through_storage() {
    in_contract(|env| {
        let creator = some_address(env);
        let h = Hunt {
            hunt_id: 3,
            creator: creator.clone(),
            title: b"Old Town".to_vec(),
            description: b"Walk the walls".to_vec(),
            status: HuntStatus::Paused,
            created_at: 11,
            activated_at: 12,
            start_time: 13,
            end_time: 14,
            reward_config: RewardConfig::new(-5, true, Some(creator.clone()), 2, 4, 1),
            total_clues: 6,
            required_clues: 5,
            max_attempts_per_clue: 9,
        };
        assert!(Storage::get_hunt(env, 3).is_none());
        Storage::save_hunt(env, &h);
        let back = Storage::get_hunt(env, 3).unwrap();
        assert_eq!(back.hunt_id, 3);
        assert_eq!(back.creator.strkey, creator.strkey);
        assert_eq!(back.title, b"Old Town".to_vec());
        assert_eq!(back.description, b"Walk the walls".to_vec());
        assert_eq!(back.status, HuntStatus::Paused);
        assert_eq!((back.created_at, back.activated_at, back.start_time, back.end_time), (11, 12, 13, 14));
        assert_eq!(back.reward_config.xlm_pool, -5);
        assert!(back.reward_config.nft_enabled);
        assert_eq!(back.reward_config.nft_contract.unwrap().strkey, creator.strkey);
        assert_eq!(back.reward_config.max_winners, 2);
        assert_eq!(back.reward_config.nft_rarity, 4);
        assert_eq!(back.reward_config.nft_tier, 1);
        assert_eq!((back.total_clues, back.required_clues, back.max_attempts_per_clue), (6, 5, 9));
    });
}

#[test]
fn missing_hunt_is_an_error() {
    in_contract(|env| {
        assert_eq!(Storage::get_hunt_or_error(env, 42).err(), Some(HuntError::HuntNotFound { hunt_id: 42 }));
    });
}

#[test]
fn counters_start_at_one_and_count_up() {
    in_contract(|env| {
        assert_eq!(Storage::get_hunt_counter(env), 0);
        assert_eq!(Storage::next_hunt_id(env), 1);
        assert_eq!(Storage::next_hunt_id(env), 2);
        assert_eq!(Storage::get_hunt_counter(env), 2);
        assert_eq!(Storage::get_clue_counter(env, 1), 0);
        assert_eq!(Storage::next_clue_id(env, 1), 1);
        assert_eq!(Storage::next_clue_id(env, 1), 2);
        assert_eq!(Storage::next_clue_id(env, 2), 1);
        assert_eq!(Storage::get_clue_counter(env, 1), 2);
    });
}

#[test]
fn reward_manager_is_kept() {
    in_contract(|env| {
        assert!(Storage::get_reward_manager(env).is_none());
        let a = some_address(env);
        Storage::set_reward_manager(env, &a);
        assert_eq!(Storage::get_reward_manager(env).unwrap().strkey, a.strkey);
    });
}

#[test]
fn clue_round_trips_and_is_listed() {
    in_contract(|env| {
        Storage::save_clue(env, 1, &clue(5, 20));
        let c = Storage::get_clue(env, 1, 5).unwrap();
        assert_eq!(c.clue_id, 5);
        assert_eq!(c.question, b"question 5".to_vec());
        assert_eq!(c.answer_hashes, vec![vec![5u8; 32], vec![0xAB; 32]]);
        assert_eq!(c.points, 20);
        assert!(!c.is_required);
        assert_eq!(c.difficulty, 3);
        assert_eq!(clue_ids(env, 1), vec![5]);
        assert!(clue_ids(env, 2).is_empty());
        assert_eq!(Storage::get_clue_or_error(env, 1, 6).err(), Some(HuntError::ClueNotFound { hunt_id: 1 }));
    });
}

#[test]
fn saving_a_clue_again_does_not_list_it_twice() {
    in_contract(|env| {
        Storage::save_clue(env, 1, &clue(1, 10));
        Storage::save_clue(env, 1, &clue(2, 10));
        Storage::save_clue(env, 1, &clue(1, 30));
        assert_eq!(clue_ids(env, 1), vec![1, 2]);
        assert_eq!(Storage::get_clue(env, 1, 1).unwrap().points, 30);
    });
}

#[test]
fn clues_are_listed_in_clue_id_order() {
    in_contract(|env| {
        Storage::save_clue(env, 3, &clue(2, 10));
        Storage::save_clue(env, 3, &clue(1, 10));
        Storage::save_clue(env, 3, &clue(9, 10));
        Storage::save_clue(env, 3, &clue(4, 10));
        assert_eq!(clue_ids(env, 3), vec![1, 2, 4, 9]);
        Storage::remove_clue(env, 3, 4);
        assert_eq!(clue_ids(env, 3), vec![1, 2, 9]);
    });
}

#[test]
fn removing_a_clue_keeps_the_order_of_the_rest() {
    in_contract(|env| {
        for id in [1, 2, 3, 4] {
            Storage::save_clue(env, 7, &clue(id, 10));
        }
        Storage::remove_clue(env, 7, 2);
        assert_eq!(clue_ids(env, 7), vec![1, 3, 4]);
        assert!(Storage::get_clue(env, 7, 2).is_none());
        Storage::remove_clue(env, 7, 4);
        assert_eq!(clue_ids(env, 7), vec![1, 3]);
        Storage::remove_clue(env, 7, 9);
        assert_eq!(clue_ids(env, 7), vec![1, 3]);
        Storage::save_clue(env, 7, &clue(2, 10));
        assert_eq!(clue_ids(env, 7), vec![1, 2, 3]);
    });
}

#[test]
fn player_progress_round_trips() {
    in_contract(|env| {
        let player = some_address(env);
        assert_eq!(
            Storage::get_player_progress_or_error(env, 4, &player).err(),
            Some(HuntError::PlayerNotRegistered { hunt_id: 4 })
        );
        let mut p = PlayerProgress::new(env, player.clone(), 4, 100);
        p.complete_clue(env, 2, 15);
        p.record_failed_attempt(3);
        Storage::save_player_progress(env, &p);
        let back = Storage::get_player_progress(env, 4, &player).unwrap();
        assert_eq!(back.player.strkey, player.strkey);
        assert_eq!(back.hunt_id, 4);
        assert_eq!(back.completed_clues.iter().collect::<Vec<u32>>(), vec![2]);
        assert_eq!(back.failed_attempts_for_clue(3), 1);
        assert_eq!(back.total_score, 15);
        assert_eq!(back.started_at, 100);
        assert!(Storage::get_player_progress(env, 5, &player).is_none());
    });
}

#[test]
fn players_are_listed_once_in_join_order() {
    in_contract(|env| {
        let a = some_address(env);
        let b = some_address(env);
        let pa = PlayerProgress::new(env, a.clone(), 1, 1);
        let pb = PlayerProgress::new(env, b.clone(), 1, 2);
        Storage::save_player_progress(env, &pa);
        Storage::save_player_progress(env, &pb);
        let mut pa2 = PlayerProgress::new(env, a.clone(), 1, 1);
        pa2.complete_clue(env, 1, 8);
        Storage::save_player_progress(env, &pa2);
        let players = Storage::get_hunt_players(env, 1);
        assert_eq!(players.len(), 2);
        assert_eq!(players[0].player.strkey, a.strkey);
        assert_eq!(players[0].total_score, 8);
        assert_eq!(players[1].player.strkey, b.strkey);
        assert!(Storage::get_hunt_players(env, 2).is_empty());
    });
}

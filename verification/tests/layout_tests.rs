use hunty::hunt_storage::Storage;
use hunty::migration::MigrationFramework;
use hunty::nft_storage::Storage as NftStorage;
use hunty::types::Clue;
use soroban_sdk::testutils::Address as _;
use soroban_sdk::testutils::EnvTestConfig;
use soroban_sdk::{Env, Symbol};

fn in_contract<T>(f: impl FnOnce(&mut Env) -> T) -> T {
    let env = Env::new_with_config(EnvTestConfig { capture_snapshot_at_drop: false });
    env.mock_all_auths();
    let issuer = soroban_sdk::Address::generate(&env);
    let sac = env.register_stellar_asset_contract_v2(issuer);
    let id = sac.address();
    let mut inner = env.clone();
    env.as_contract(&id, move || f(&mut inner))
}

fn clue(id: u32) -> Clue {
    Clue {
        clue_id: id,
        question: b"q".to_vec(),
        answer_hashes: vec![vec![1u8; 32]],
        points: 5,
        is_required: true,
        difficulty: 1,
    }
}

#[test]
fn schema_version_is_the_shared_symbol_entry() {
    in_contract(|env| {
        let key = Symbol::new(env, "SCHEMA");
        env.storage().instance().set(&key, &1u32);
        assert_eq!(MigrationFramework::detect_version(env), 1);
        MigrationFramework::set_version(env, 2);
        assert_eq!(env.storage().instance().get::<Symbol, u32>(&key), Some(2));
        MigrationFramework::save_rollback_point(env, 1);
        let rb = Symbol::new(env, "RBKVER");
        assert_eq!(env.storage().instance().get::<Symbol, u32>(&rb), Some(1));
        MigrationFramework::clear_rollback(env);
        assert!(!env.storage().instance().has(&rb));
    });
}

#[test]
fn counters_are_the_symbol_entries() {
    in_contract(|env| {
        env.storage().instance().set(&Symbol::new(env, "CNTR"), &41u64);
        assert_eq!(Storage::next_hunt_id(env), 42);
        let ccnt = (Symbol::new(env, "CCNT"), 7u64);
        env.storage().instance().set(&ccnt, &3u32);
        assert_eq!(Storage::next_clue_id(env, 7), 4);
        assert_eq!(env.storage().instance().get::<_, u32>(&ccnt), Some(4));
        env.storage().persistent().set(&Symbol::new(env, "CNTR"), &9u64);
        assert_eq!(NftStorage::next_nft_id(env), 10);
    });
}

#[test]
fn clue_index_uses_tuple_keys() {
    in_contract(|env| {
        Storage::save_clue(env, 5, &clue(8));
        let count = (Symbol::new(env, "CLCT"), 5u64);
        let entry = (Symbol::new(env, "CLST"), 5u64, 0u32);
        let exists = (Symbol::new(env, "CLEX"), 5u64, 8u32);
        assert_eq!(env.storage().instance().get::<_, u32>(&count), Some(1));
        assert_eq!(env.storage().instance().get::<_, u32>(&entry), Some(8));
        assert!(env.storage().instance().has(&exists));
    });
}

#[test]
fn hunt_nft_index_and_supply_use_the_contract_keys() {
    in_contract(|env| {
        NftStorage::add_nft_to_hunt(env, 2, 77);
        let count = (Symbol::new(env, "HNFC"), 2u64);
        let entry = (Symbol::new(env, "HNFT"), 2u64, 0u32);
        assert_eq!(env.storage().persistent().get::<_, u32>(&count), Some(1));
        assert_eq!(env.storage().persistent().get::<_, u64>(&entry), Some(77));
        NftStorage::set_max_supply(env, Some(500));
        let maxs = Symbol::new(env, "MAXS");
        assert_eq!(env.storage().persistent().get::<_, Option<u64>>(&maxs), Some(Some(500)));
        NftStorage::set_max_supply(env, None);
        assert_eq!(env.storage().persistent().get::<_, Option<u64>>(&maxs), Some(None));
        assert_eq!(NftStorage::get_max_supply(env), None);
        assert_eq!(env.storage().persistent().get::<_, bool>(&Symbol::new(env, "INIT")), Some(true));
        env.storage().instance().set(&Symbol::new(env, "CVER"), &6u32);
        assert_eq!(NftStorage::get_contract_version(env), Some(6));
    });
}

#[test]
fn player_count_is_the_tuple_entry() {
    in_contract(|env| {
        let p = hunty::progress::PlayerProgress::new(env, hunty::types::Address::new(b"GPLAYER".to_vec()), 4, 1);
        Storage::save_player_progress(env, &p);
        let count = (Symbol::new(env, "PLCT"), 4u64);
        assert_eq!(env.storage().persistent().get::<_, u32>(&count), Some(1));
    });
}

use hunty::nft_storage::Storage;
use hunty::types::{Address, NftData};
use soroban_sdk::testutils::Address as _;
use soroban_sdk::testutils::EnvTestConfig;
use soroban_sdk::Env;

fn in_contract<T>(f: impl FnOnce(&mut Env) -> T) -> T {
    let env = Env::new_with_config(EnvTestConfig { capture_snapshot_at_drop: false });
    env.mock_all_auths();
    let issuer = soroban_sdk::Address::generate(&env);
    let sac = env.register_stellar_asset_contract_v2(issuer);
    let id = sac.address();
    let mut inner = env.clone();
    env.as_contract(&id, move || f(&mut inner))
}

fn some_address(env: &Env) -> Address {
    let a = soroban_sdk::Address::generate(env);
    let s = a.to_string();
    let mut bytes = vec![0u8; s.len() as usize];
    s.copy_into_slice(&mut bytes);
    Address::new(bytes)
}

fn nft(env: &Env, id: u64, hunt_id: u64) -> NftData {
    NftData {
        nft_id: id,
        hunt_id,
        owner: some_address(env),
        title: b"Finisher".to_vec(),
        description: b"Completed the hunt".to_vec(),
        image_uri: b"ipfs://abc".to_vec(),
        rarity: 2,
        tier: 1,
        minted_at: 500,
    }
}

fn page(env: &Env, hunt_id: u64, offset: u32, limit: u32) -> Vec<u64> {
    Storage::get_hunt_nfts(env, hunt_id, offset, limit).iter().collect()
}

#[test]
fn nft_round_trips_and_is_removed() {
    in_contract(|env| {
        let n = nft(env, 4, 9);
        let owner = n.owner.strkey.clone();
        Storage::save_nft(env, &n);
        let back = Storage::get_nft(env, 4).unwrap();
        assert_eq!(back.nft_id, 4);
        assert_eq!(back.hunt_id, 9);
        assert_eq!(back.owner.strkey, owner);
        assert_eq!(back.title, b"Finisher".to_vec());
        assert_eq!(back.description, b"Completed the hunt".to_vec());
        assert_eq!(back.image_uri, b"ipfs://abc".to_vec());
        assert_eq!((back.rarity, back.tier, back.minted_at), (2, 1, 500));
        Storage::remove_nft(env, 4);
        assert!(Storage::get_nft(env, 4).is_none());
    });
}

#[test]
fn nft_ids_count_up_and_all_ids_skip_removed() {
    in_contract(|env| {
        assert_eq!(Storage::get_nft_counter(env), 0);
        for _ in 0..3 {
            let id = Storage::next_nft_id(env);
            Storage::save_nft(env, &nft(env, id, 1));
        }
        assert_eq!(Storage::get_nft_counter(env), 3);
        Storage::remove_nft(env, 2);
        let all: Vec<u64> = Storage::get_all_nft_ids(env).iter().collect();
        assert_eq!(all, vec![1, 3]);
    });
}

#[test]
fn admin_minter_and_reward_manager_are_kept() {
    in_contract(|env| {
        assert!(Storage::get_admin(env).is_none());
        let admin = some_address(env);
        Storage::save_admin(env, &admin);
        assert_eq!(Storage::get_admin(env).unwrap().strkey, admin.strkey);
        let m = some_address(env);
        assert!(!Storage::is_minter(env, &m));
        Storage::add_minter(env, &m);
        assert!(Storage::is_minter(env, &m));
        Storage::remove_minter(env, &m);
        assert!(!Storage::is_minter(env, &m));
        let rm = some_address(env);
        assert!(Storage::get_reward_manager(env).is_none());
        Storage::save_reward_manager(env, &rm);
        assert_eq!(Storage::get_reward_manager(env).unwrap().strkey, rm.strkey);
        let rm2 = some_address(env);
        Storage::set_reward_manager(env, &rm2);
        assert_eq!(Storage::get_reward_manager(env).unwrap().strkey, rm2.strkey);
    });
}

#[test]
fn max_supply_marks_initialized() {
    in_contract(|env| {
        assert!(!Storage::is_initialized(env));
        assert_eq!(Storage::get_max_supply(env), None);
        Storage::set_max_supply(env, Some(100));
        assert!(Storage::is_initialized(env));
        assert_eq!(Storage::get_max_supply(env), Some(100));
        Storage::set_max_supply(env, None);
        assert!(Storage::is_initialized(env));
        assert_eq!(Storage::get_max_supply(env), None);
    });
}

#[test]
fn operators_are_per_owner() {
    in_contract(|env| {
        let owner = some_address(env);
        let other = some_address(env);
        let op = some_address(env);
        assert!(!Storage::is_operator(env, &owner, &op));
        Storage::set_operator(env, &owner, &op);
        assert!(Storage::is_operator(env, &owner, &op));
        assert!(!Storage::is_operator(env, &other, &op));
        Storage::remove_operator(env, &owner, &op);
        assert!(!Storage::is_operator(env, &owner, &op));
    });
}

#[test]
fn contract_version_is_kept() {
    in_contract(|env| {
        assert_eq!(Storage::get_contract_version(env), None);
        Storage::set_contract_version(env, 3);
        assert_eq!(Storage::get_contract_version(env), Some(3));
    });
}

#[test]
fn owner_list_appends_each_id_once() {
    in_contract(|env| {
        let owner = some_address(env);
        assert!(Storage::get_owner_nfts(env, &owner).is_empty());
        Storage::add_nft_to_owner(env, &owner, 7);
        Storage::add_nft_to_owner(env, &owner, 3);
        Storage::add_nft_to_owner(env, &owner, 7);
        let ids: Vec<u64> = Storage::get_owner_nfts(env, &owner).iter().collect();
        assert_eq!(ids, vec![7, 3]);
    });
}

#[test]
fn hunt_list_appends_each_id_once() {
    in_contract(|env| {
        Storage::add_nft_to_hunt(env, 1, 10);
        Storage::add_nft_to_hunt(env, 1, 11);
        Storage::add_nft_to_hunt(env, 1, 10);
        assert_eq!(Storage::get_hunt_nft_count(env, 1), 2);
        assert_eq!(page(env, 1, 0, 10), vec![10, 11]);
        assert_eq!(Storage::get_hunt_nft_count(env, 2), 0);
    });
}

#[test]
fn removing_from_hunt_moves_the_last_id_into_place() {
    in_contract(|env| {
        for id in [10, 11, 12, 13] {
            Storage::add_nft_to_hunt(env, 1, id);
        }
        Storage::remove_nft_from_hunt(env, 1, 11);
        assert_eq!(page(env, 1, 0, 10), vec![10, 13, 12]);
        Storage::remove_nft_from_hunt(env, 1, 12);
        assert_eq!(page(env, 1, 0, 10), vec![10, 13]);
        Storage::remove_nft_from_hunt(env, 1, 99);
        assert_eq!(page(env, 1, 0, 10), vec![10, 13]);
        assert_eq!(Storage::get_hunt_nft_count(env, 1), 2);
        Storage::add_nft_to_hunt(env, 1, 11);
        assert_eq!(page(env, 1, 0, 10), vec![10, 13, 11]);
    });
}

#[test]
fn hunt_pages_are_windows_of_the_list() {
    in_contract(|env| {
        for id in 1..=5u64 {
            Storage::add_nft_to_hunt(env, 2, id * 100);
        }
        assert_eq!(page(env, 2, 0, 2), vec![100, 200]);
        assert_eq!(page(env, 2, 2, 2), vec![300, 400]);
        assert_eq!(page(env, 2, 4, 2), vec![500]);
        assert_eq!(page(env, 2, 5, 2), Vec::<u64>::new());
        assert_eq!(page(env, 2, 1, 0), Vec::<u64>::new());
        assert_eq!(page(env, 2, 3, u32::MAX), vec![400, 500]);
    });
}

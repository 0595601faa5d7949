use hunty::hunt_storage::Storage;
use hunty::hunty_migration::HuntyCoreMigration;
use hunty::migration::{MigrationFramework, CURRENT_SCHEMA_VERSION};
use hunty::reward_migration::RewardManagerMigration;
use hunty::types::{Address, Hunt, HuntStatus, RewardConfig};
use soroban_sdk::testutils::Address as _;
use soroban_sdk::testutils::EnvTestConfig;
use soroban_sdk::Env;

fn in_contract<T>(f: impl FnOnce(&mut Env) -> T) -> T {
    let env = Env::new_with_config(EnvTestConfig { capture_snapshot_at_drop: false });
    env.mock_all_auths();
    let issuer = soroban_sdk::Address::generate(&env);
    let sac = env.register_stellar_asset_contract_v2(issuer);
    let id = sac.address();
    let mut inner = env.clone();
    env.as_contract(&id, move || f(&mut inner))
}

fn some_address(env: &Env) -> Address {
    let a = soroban_sdk::Address::generate(env);
    let s = a.to_string();
    let mut bytes = vec![0u8; s.len() as usize];
    s.copy_into_slice(&mut bytes);
    Address::new(bytes)
}

fn hunt(env: &Env, id: u64, total: u32, required: u32) -> Hunt {
    Hunt {
        hunt_id: id,
        creator: some_address(env),
        title: b"Treasure".to_vec(),
        description: b"Find it".to_vec(),
        status: HuntStatus::Draft,
        created_at: 10,
        activated_at: 0,
        start_time: 0,
        end_time: 0,
        reward_config: RewardConfig::new(1000, false, None, 5, 0, 0),
        total_clues: total,
        required_clues: required,
        max_attempts_per_clue: 3,
    }
}

#[test]
fn detect_version_defaults_to_zero() {
    in_contract(|env| {
        assert_eq!(MigrationFramework::detect_version(env), 0);
        assert_eq!(MigrationFramework::rollback_version(env), None);
    });
}

#[test]
fn init_version_sets_current_once() {
    in_contract(|env| {
        MigrationFramework::init_version_on_deploy(env);
        assert_eq!(MigrationFramework::detect_version(env), CURRENT_SCHEMA_VERSION);
        MigrationFramework::set_version(env, 1);
        MigrationFramework::init_version_on_deploy(env);
        assert_eq!(MigrationFramework::detect_version(env), 1);
    });
}

#[test]
fn migration_from_zero_backfills_required_clues() {
    in_contract(|env| {
        let id1 = Storage::next_hunt_id(env);
        let id2 = Storage::next_hunt_id(env);
        assert_eq!((id1, id2), (1, 2));
        Storage::save_hunt(env, &hunt(env, 1, 4, 0));
        Storage::save_hunt(env, &hunt(env, 2, 4, 2));
        let report = HuntyCoreMigration::run_migration(env, 2, false);
        assert!(report.succeeded);
        assert_eq!(report.steps_applied, 2);
        assert_eq!(report.from_version, 2);
        assert_eq!(report.to_version, 2);
        assert_eq!(report.message, "migration complete");
        assert_eq!(HuntyCoreMigration::get_schema_version(env), 2);
        assert_eq!(MigrationFramework::rollback_version(env), Some(0));
        assert_eq!(Storage::get_hunt(env, 1).unwrap().required_clues, 4);
        assert_eq!(Storage::get_hunt(env, 2).unwrap().required_clues, 2);
    });
}

#[test]
fn dry_run_changes_nothing() {
    in_contract(|env| {
        Storage::next_hunt_id(env);
        Storage::save_hunt(env, &hunt(env, 1, 4, 0));
        let report = HuntyCoreMigration::run_migration(env, 2, true);
        assert!(report.succeeded);
        assert!(report.dry_run);
        assert_eq!(report.steps_applied, 2);
        assert_eq!(report.from_version, 0);
        assert_eq!(HuntyCoreMigration::get_schema_version(env), 0);
        assert_eq!(MigrationFramework::rollback_version(env), None);
        assert_eq!(Storage::get_hunt(env, 1).unwrap().required_clues, 0);
    });
}

#[test]
fn already_at_target_reports_no_steps() {
    in_contract(|env| {
        MigrationFramework::set_version(env, 2);
        let report = HuntyCoreMigration::run_migration(env, 1, false);
        assert!(report.succeeded);
        assert_eq!(report.steps_applied, 0);
        assert_eq!(report.from_version, 2);
        assert_eq!(report.message, "already at target");
        assert_eq!(MigrationFramework::rollback_version(env), None);
    });
}

#[test]
fn unknown_target_fails_without_setting_version() {
    in_contract(|env| {
        MigrationFramework::set_version(env, 1);
        let report = HuntyCoreMigration::run_migration(env, 5, false);
        assert!(!report.succeeded);
        assert_eq!(report.steps_applied, 2);
        assert_eq!(report.from_version, 1);
        assert_eq!(report.message, "unsupported version step");
        assert_eq!(HuntyCoreMigration::get_schema_version(env), 1);
        assert_eq!(MigrationFramework::rollback_version(env), Some(1));
    });
}

#[test]
fn rollback_restores_previous_version() {
    in_contract(|env| {
        // Each call authorizes a different admin: the host lets one address
        // authorize a contract frame only once.
        let admin = soroban_sdk::Address::generate(env);
        assert!(HuntyCoreMigration::rollback_migration(env, &admin).is_none());
        let admin = soroban_sdk::Address::generate(env);
        HuntyCoreMigration::run_migration(env, 1, false);
        assert_eq!(HuntyCoreMigration::get_schema_version(env), 1);
        let report = HuntyCoreMigration::rollback_migration(env, &admin).unwrap();
        assert_eq!(report.from_version, 1);
        assert_eq!(report.to_version, 0);
        assert_eq!(report.steps_applied, 1);
        assert_eq!(report.message, "rolled back");
        assert_eq!(HuntyCoreMigration::get_schema_version(env), 0);
        let admin = soroban_sdk::Address::generate(env);
        assert!(HuntyCoreMigration::rollback_migration(env, &admin).is_none());
    });
}

#[test]
fn reward_manager_migration_jumps_to_current() {
    in_contract(|env| {
        let report = RewardManagerMigration::run_migration(env, 1, false);
        assert!(report.succeeded);
        assert_eq!(report.steps_applied, 1);
        assert_eq!(report.from_version, 0);
        assert_eq!(report.message, "reward-manager migration complete");
        assert_eq!(RewardManagerMigration::get_schema_version(env), CURRENT_SCHEMA_VERSION);
        let admin = soroban_sdk::Address::generate(env);
        let back = RewardManagerMigration::rollback_migration(env, &admin).unwrap();
        assert_eq!(back.to_version, 0);
        assert_eq!(RewardManagerMigration::get_schema_version(env), 0);
    });
}

#[test]
fn reward_manager_dry_run_writes_nothing() {
    in_contract(|env| {
        RewardManagerMigration::initialize_schema(env);
        MigrationFramework::set_version(env, 0);
        let report = RewardManagerMigration::run_migration(env, 2, true);
        assert!(report.dry_run);
        assert_eq!(report.steps_applied, 1);
        assert_eq!(RewardManagerMigration::get_schema_version(env), 0);
        assert_eq!(MigrationFramework::rollback_version(env), None);
    });
}

#[test]
fn running_migration_twice_is_a_no_op() {
    in_contract(|env| {
        Storage::next_hunt_id(env);
        Storage::save_hunt(env, &hunt(env, 1, 3, 0));
        Storage::save_hunt(env, &hunt(env, 2, 5, 0));
        let first = HuntyCoreMigration::run_migration(env, 2, false);
        assert!(first.succeeded);
        assert_eq!(Storage::get_hunt(env, 1).unwrap().required_clues, 3);
        assert_eq!(Storage::get_hunt(env, 2).unwrap().required_clues, 0);
        let second = HuntyCoreMigration::run_migration(env, 2, false);
        assert!(second.succeeded);
        assert_eq!(second.steps_applied, 0);
        assert_eq!(second.message, "already at target");
        assert_eq!(MigrationFramework::rollback_version(env), Some(0));
    });
}

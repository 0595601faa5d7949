//! Schema migration for the reward-manager contract, whose storage has no
//! per-version steps: a migration moves straight to the current version.
use crate::ledger::{instance_entries, persistent_entries};
use crate::migration::{
    report, rollback, rollback_point, rolled_back, schema_version, with_rollback_point, with_version,
    MigrationFramework, MigrationReport, ReportModel, CURRENT_SCHEMA_VERSION,
};
use soroban_sdk::Env;
use vstd::prelude::*;

verus! {

/// The instance entries after the reward manager's `run_migration`, and its
/// report: nothing to do when the stored version is already at or past the
/// target; otherwise one step, which (unless it is a dry run) saves the
/// version found as the rollback point and sets the current schema version,
/// whatever the target.
pub open spec fn reward_migrated(e: Map<Seq<u8>, Seq<u8>>, target: u32, dry_run: bool) -> (
    Map<Seq<u8>, Seq<u8>>,
    ReportModel,
) {
    let c = schema_version(e);
    if c >= target {
        (e, report(c, target, 0, dry_run, true, "already at target"@))
    } else if dry_run {
        (e, report(c, target, 1, dry_run, true, "reward-manager migration complete"@))
    } else {
        (
            with_version(with_rollback_point(e, c), CURRENT_SCHEMA_VERSION),
            report(c, target, 1, dry_run, true, "reward-manager migration complete"@),
        )
    }
}

pub struct RewardManagerMigration;

impl RewardManagerMigration {
    pub fn get_schema_version(env: &Env) -> (res: u32)
        ensures
            res == schema_version(instance_entries(*env)),
    {
        MigrationFramework::detect_version(env)
    }

    pub fn initialize_schema(env: &mut Env)
        ensures
            instance_entries(*final(env)) == crate::migration::schema_initialized(
                instance_entries(*old(env)),
            ),
            persistent_entries(*final(env)) == persistent_entries(*old(env)),
    {
        MigrationFramework::init_version_on_deploy(env);
    }

    pub fn run_migration(env: &mut Env, target_version: u32, dry_run: bool) -> (res: MigrationReport)
        ensures
            instance_entries(*final(env)) == reward_migrated(
                instance_entries(*old(env)),
                target_version,
                dry_run,
            ).0,
            res@ == reward_migrated(instance_entries(*old(env)), target_version, dry_run).1,
            persistent_entries(*final(env)) == persistent_entries(*old(env)),
    {
        let current = MigrationFramework::detect_version(env);
        if current >= target_version {
            return MigrationFramework::build_report(
                env,
                current,
                target_version,
                0,
                dry_run,
                true,
                "already at target",
            );
        }
        if !dry_run {
            MigrationFramework::save_rollback_point(env, current);
            MigrationFramework::set_version(env, CURRENT_SCHEMA_VERSION);
        }
        MigrationFramework::build_report(
            env,
            current,
            target_version,
            1,
            dry_run,
            true,
            "reward-manager migration complete",
        )
    }

    /// Restores the schema version saved before the last migration.
    ///
    /// Aborts the contract call, through the host's `Address::require_auth`,
    /// unless `admin` has authorized it: this is the rollback's access control,
    /// and the one way in which it does not return.
    pub fn rollback_migration(env: &mut Env, admin: &soroban_sdk::Address) -> (res: Option<MigrationReport>)
        ensures
            instance_entries(*final(env)) == rolled_back(instance_entries(*old(env))).0,
            persistent_entries(*final(env)) == persistent_entries(*old(env)),
            match res {
                Some(r) => rolled_back(instance_entries(*old(env))).1 == Some(r@),
                None => rolled_back(instance_entries(*old(env))).1 is None,
            },
    {
        rollback(env, admin)
    }
}

/// Asking for a version at or below the stored one changes nothing, writes
/// no rollback point, and reports success with no step applied and the
/// message "already at target".
pub proof fn law_reward_already_at_target(e: Map<Seq<u8>, Seq<u8>>, target: u32, dry_run: bool)
    requires
        schema_version(e) >= target,
    ensures
        reward_migrated(e, target, dry_run).0 == e,
        reward_migrated(e, target, dry_run).1.succeeded,
        reward_migrated(e, target, dry_run).1.steps_applied == 0,
        reward_migrated(e, target, dry_run).1.from_version == schema_version(e),
        reward_migrated(e, target, dry_run).1.message == "already at target"@,
{
}

/// A dry run writes nothing and reports what the real run would.
pub proof fn law_reward_dry_run_writes_nothing(e: Map<Seq<u8>, Seq<u8>>, target: u32)
    ensures
        reward_migrated(e, target, true).0 == e,
        reward_migrated(e, target, true).1.steps_applied == reward_migrated(
            e,
            target,
            false,
        ).1.steps_applied,
{
}

/// A migration from below any target leaves the current schema version
/// stored, whatever the target, and keeps the version it started from as the
/// rollback point.
pub proof fn law_reward_migration_sets_current(e: Map<Seq<u8>, Seq<u8>>, target: u32)
    requires
        schema_version(e) < target,
    ensures
        schema_version(reward_migrated(e, target, false).0) == CURRENT_SCHEMA_VERSION,
        rollback_point(reward_migrated(e, target, false).0) == Some(schema_version(e)),
        reward_migrated(e, target, false).1.succeeded,
        reward_migrated(e, target, false).1.steps_applied == 1,
{
    crate::codec::lemma_u32_roundtrip(schema_version(e));
    crate::codec::lemma_u32_roundtrip(CURRENT_SCHEMA_VERSION);
    crate::keys::lemma_schema_rollback_distinct();
}

/// Rolling back right after a migration that had work to do restores the
/// schema version the migration started from.
pub proof fn law_reward_rollback_undoes_migration(e: Map<Seq<u8>, Seq<u8>>, target: u32)
    requires
        schema_version(e) < target,
    ensures
        rolled_back(reward_migrated(e, target, false).0).1 is Some,
        schema_version(rolled_back(reward_migrated(e, target, false).0).0) == schema_version(e),
{
    law_reward_migration_sets_current(e, target);
    crate::migration::law_rollback_restores_saved_version(
        reward_migrated(e, target, false).0,
        schema_version(e),
    );
}

} // verus!

//! Per-contract migration steps for the hunt contract's storage layouts.
use crate::hunt_storage::{hunt_counter, stored_hunt, Storage};
use crate::keys::{hunt_key, lemma_hunt_key_distinct, lemma_hunt_key_injective, rollback_key, schema_key};
use crate::ledger::{instance_entries, persistent_entries};
use crate::migration::{
    report, rollback, rollback_point, rolled_back, schema_version, with_rollback_point, with_version,
    MigrationFramework, MigrationReport, ReportModel,
};
use crate::records::{hunt_bytes, hunt_storable, lemma_hunt_read_back};
use crate::types::HuntModel;
use soroban_sdk::Env;
use vstd::prelude::*;

verus! {

/// Whether a hunt from before schema version 1 lacks its required clue count.
pub open spec fn needs_backfill(h: HuntModel) -> bool {
    h.required_clues == 0 && h.total_clues > 0
}

/// The hunt with its required clue count taken from its total.
pub open spec fn backfill(h: HuntModel) -> HuntModel {
    HuntModel { required_clues: h.total_clues, ..h }
}

/// The instance entries after the hunt kept under `hunt_id` was looked at:
/// a hunt that needs it is saved back with its required clue count filled in.
pub open spec fn backfill_one(e: Map<Seq<u8>, Seq<u8>>, hunt_id: u64) -> Map<Seq<u8>, Seq<u8>> {
    match stored_hunt(e, hunt_id) {
        Some(h) => if needs_backfill(h) {
            e.insert(hunt_key(h.hunt_id), hunt_bytes(backfill(h)))
        } else {
            e
        },
        None => e,
    }
}

/// The instance entries after the hunts under ids 1 to `n` were looked at,
/// in that order.
pub open spec fn backfill_upto(e: Map<Seq<u8>, Seq<u8>>, n: nat) -> Map<Seq<u8>, Seq<u8>>
    decreases n,
{
    if n == 0 {
        e
    } else {
        backfill_one(backfill_upto(e, (n - 1) as nat), n as u64)
    }
}

/// The instance entries after the step from schema version 0 to 1: every
/// hunt handed out so far looked at once.
pub open spec fn backfilled(e: Map<Seq<u8>, Seq<u8>>) -> Map<Seq<u8>, Seq<u8>> {
    backfill_upto(e, hunt_counter(e) as nat)
}

/// The instance entries after `run_migration`, and its report. Versions 0
/// to 2 are known: the step from 0 to 1 backfills the hunts, the step from 1
/// to 2 changes nothing, and any later step is unsupported. A dry run writes
/// nothing; otherwise the version found is saved as the rollback point first,
/// and the version reached is saved when every step succeeded.
pub open spec fn hunty_migrated(e: Map<Seq<u8>, Seq<u8>>, target: u32, dry_run: bool) -> (
    Map<Seq<u8>, Seq<u8>>,
    ReportModel,
) {
    let c = schema_version(e);
    if c >= target {
        (e, report(c, target, 0, dry_run, true, "already at target"@))
    } else {
        let e1 = if dry_run {
            e
        } else {
            with_rollback_point(e, c)
        };
        if c >= 2 {
            (e1, report(schema_version(e1), target, 1, dry_run, false, "unsupported version step"@))
        } else {
            let e2 = if !dry_run && c == 0 {
                backfilled(e1)
            } else {
                e1
            };
            if target <= 2 {
                let e3 = if dry_run {
                    e2
                } else {
                    with_version(e2, target)
                };
                (
                    e3,
                    report(
                        schema_version(e3),
                        target,
                        (target - c) as u32,
                        dry_run,
                        true,
                        "migration complete"@,
                    ),
                )
            } else {
                (
                    e2,
                    report(
                        schema_version(e2),
                        target,
                        (3 - c) as u32,
                        dry_run,
                        false,
                        "unsupported version step"@,
                    ),
                )
            }
        }
    }
}

/// Per-contract migration steps for HuntyCore storage layouts.
pub struct HuntyCoreMigration;

impl HuntyCoreMigration {
    pub fn get_schema_version(env: &Env) -> (res: u32)
        ensures
            res == schema_version(instance_entries(*env)),
    {
        MigrationFramework::detect_version(env)
    }

    pub fn initialize_schema(env: &mut Env)
        ensures
            instance_entries(*final(env)) == crate::migration::schema_initialized(
                instance_entries(*old(env)),
            ),
            persistent_entries(*final(env)) == persistent_entries(*old(env)),
    {
        MigrationFramework::init_version_on_deploy(env);
    }

    /// Runs migrations up to `target_version`. When `dry_run` is true, no storage writes occur.
    pub fn run_migration(env: &mut Env, target_version: u32, dry_run: bool) -> (res: MigrationReport)
        ensures
            instance_entries(*final(env)) == hunty_migrated(
                instance_entries(*old(env)),
                target_version,
                dry_run,
            ).0,
            res@ == hunty_migrated(instance_entries(*old(env)), target_version, dry_run).1,
            persistent_entries(*final(env)) == persistent_entries(*old(env)),
    {
        let ghost e0 = instance_entries(*env);
        let mut current = MigrationFramework::detect_version(env);
        if current >= target_version {
            return MigrationFramework::build_report(
                env,
                current,
                target_version,
                0,
                dry_run,
                true,
                "already at target",
            );
        }
        if !dry_run {
            MigrationFramework::save_rollback_point(env, current);
        }
        let ghost c = current;
        let ghost e1 = instance_entries(*env);
        let mut steps: u32 = 0;
        while current < target_version
            invariant
                e0 == instance_entries(*old(env)),
                c == schema_version(e0),
                c < target_version,
                e1 == (if dry_run {
                    e0
                } else {
                    with_rollback_point(e0, c)
                }),
                c <= current <= target_version,
                steps == current - c,
                c >= 2 ==> current == c,
                c < 2 ==> current <= 2,
                instance_entries(*env) == (if !dry_run && c == 0 && current >= 1 {
                    backfilled(e1)
                } else {
                    e1
                }),
                persistent_entries(*env) == persistent_entries(*old(env)),
            decreases target_version - current,
        {
            steps = steps + 1;
            match current {
                0 => {
                    if !dry_run {
                        Self::migrate_v0_to_v1(env);
                    }
                    current = 1;
                },
                1 => {
                    if !dry_run {
                        Self::migrate_v1_to_v2(env);
                    }
                    current = 2;
                },
                _ => {
                    let from = MigrationFramework::detect_version(env);
                    return MigrationFramework::build_report(
                        env,
                        from,
                        target_version,
                        steps,
                        dry_run,
                        false,
                        "unsupported version step",
                    );
                },
            }
        }
        if !dry_run {
            MigrationFramework::set_version(env, current);
        }
        let from = MigrationFramework::detect_version(env);
        MigrationFramework::build_report(
            env,
            from,
            target_version,
            steps,
            dry_run,
            true,
            "migration complete",
        )
    }

    /// Restores the schema version saved before the last migration.
    ///
    /// Aborts the contract call, through the host's `Address::require_auth`,
    /// unless `admin` has authorized it: this is the rollback's access control,
    /// and the one way in which it does not return.
    pub fn rollback_migration(env: &mut Env, admin: &soroban_sdk::Address) -> (res: Option<MigrationReport>)
        ensures
            instance_entries(*final(env)) == rolled_back(instance_entries(*old(env))).0,
            persistent_entries(*final(env)) == persistent_entries(*old(env)),
            match res {
                Some(r) => rolled_back(instance_entries(*old(env))).1 == Some(r@),
                None => rolled_back(instance_entries(*old(env))).1 is None,
            },
    {
        rollback(env, admin)
    }

    /// v0 -> v1: ensure `required_clues` is populated for legacy hunts.
    fn migrate_v0_to_v1(env: &mut Env)
        ensures
            instance_entries(*final(env)) == backfilled(instance_entries(*old(env))),
            persistent_entries(*final(env)) == persistent_entries(*old(env)),
    {
        let ghost e0 = instance_entries(*env);
        let hunt_count = Storage::get_hunt_counter(env);
        let mut i: u64 = 0;
        while i < hunt_count
            invariant
                i <= hunt_count,
                hunt_count == hunt_counter(e0),
                instance_entries(*env) == backfill_upto(e0, i as nat),
                persistent_entries(*env) == persistent_entries(*old(env)),
            decreases hunt_count - i,
        {
            i = i + 1;
            if let Some(mut hunt) = Storage::get_hunt(env, i) {
                if hunt.required_clues == 0 && hunt.total_clues > 0 {
                    hunt.required_clues = hunt.total_clues;
                    Storage::save_hunt(env, &hunt);
                }
            }
        }
    }

    /// v1 -> v2: placeholder for future layout changes (no-op for now).
    fn migrate_v1_to_v2(_env: &Env) {
    }
}

/// The backfill step rewrites only hunt entries: an entry under a key that is
/// no hunt's key stays as it was.
pub proof fn lemma_backfill_keeps(e: Map<Seq<u8>, Seq<u8>>, n: nat, k: Seq<u8>)
    requires
        forall|id: u64| k != #[trigger] hunt_key(id),
    ensures
        backfill_upto(e, n).contains_key(k) == e.contains_key(k),
        e.contains_key(k) ==> backfill_upto(e, n)[k] == e[k],
    decreases n,
{
    if n > 0 {
        lemma_backfill_keeps(e, (n - 1) as nat, k);
    }
}

proof fn lemma_backfill_keeps_versions(e: Map<Seq<u8>, Seq<u8>>)
    ensures
        schema_version(backfilled(e)) == schema_version(e),
        rollback_point(backfilled(e)) == rollback_point(e),
{
    assert forall|id: u64| schema_key() != #[trigger] hunt_key(id) by {
        lemma_hunt_key_distinct(id);
    }
    assert forall|id: u64| rollback_key() != #[trigger] hunt_key(id) by {
        lemma_hunt_key_distinct(id);
    }
    lemma_backfill_keeps(e, hunt_counter(e) as nat, schema_key());
    lemma_backfill_keeps(e, hunt_counter(e) as nat, rollback_key());
}

/// A dry run writes nothing, and reports the same number of steps and the
/// same outcome as the real run would.
pub proof fn law_dry_run_writes_nothing(e: Map<Seq<u8>, Seq<u8>>, target: u32)
    ensures
        hunty_migrated(e, target, true).0 == e,
        hunty_migrated(e, target, true).1.steps_applied == hunty_migrated(
            e,
            target,
            false,
        ).1.steps_applied,
        hunty_migrated(e, target, true).1.succeeded == hunty_migrated(e, target, false).1.succeeded,
{
}

/// Asking for a version at or below the stored one changes nothing and
/// succeeds with no step applied.
pub proof fn law_already_at_target(e: Map<Seq<u8>, Seq<u8>>, target: u32, dry_run: bool)
    requires
        schema_version(e) >= target,
    ensures
        hunty_migrated(e, target, dry_run).0 == e,
        hunty_migrated(e, target, dry_run).1.succeeded,
        hunty_migrated(e, target, dry_run).1.steps_applied == 0,
{
}

/// A migration from below to a known version succeeds: it applies one step
/// per version, leaves the target as the stored schema version, reports it
/// as `from_version`, and keeps the version it started from as the rollback
/// point.
pub proof fn law_migration_reaches_target(e: Map<Seq<u8>, Seq<u8>>, target: u32)
    requires
        schema_version(e) < target <= 2,
    ensures
        schema_version(hunty_migrated(e, target, false).0) == target,
        rollback_point(hunty_migrated(e, target, false).0) == Some(schema_version(e)),
        hunty_migrated(e, target, false).1.succeeded,
        hunty_migrated(e, target, false).1.steps_applied == target - schema_version(e),
        hunty_migrated(e, target, false).1.from_version == target,
{
    let c = schema_version(e);
    let e1 = crate::migration::with_rollback_point(e, c);
    crate::codec::lemma_u32_roundtrip(c);
    crate::codec::lemma_u32_roundtrip(target);
    crate::keys::lemma_schema_rollback_distinct();
    lemma_backfill_keeps_versions(e1);
}

/// A migration past the known versions fails with an unsupported step and
/// leaves the stored schema version as it was.
pub proof fn law_unknown_target_fails(e: Map<Seq<u8>, Seq<u8>>, target: u32, dry_run: bool)
    requires
        target > 2,
        schema_version(e) < target,
    ensures
        !hunty_migrated(e, target, dry_run).1.succeeded,
        schema_version(hunty_migrated(e, target, dry_run).0) == schema_version(e),
{
    let c = schema_version(e);
    crate::keys::lemma_schema_rollback_distinct();
    lemma_backfill_keeps_versions(crate::migration::with_rollback_point(e, c));
}

/// Rolling back right after a migration that had work to do restores the
/// schema version the migration started from, and clears the rollback point.
pub proof fn law_rollback_undoes_migration(e: Map<Seq<u8>, Seq<u8>>, target: u32)
    requires
        schema_version(e) < target,
    ensures
        rolled_back(hunty_migrated(e, target, false).0).1 is Some,
        schema_version(rolled_back(hunty_migrated(e, target, false).0).0) == schema_version(e),
        rollback_point(rolled_back(hunty_migrated(e, target, false).0).0) is None,
{
    let c = schema_version(e);
    let e1 = crate::migration::with_rollback_point(e, c);
    crate::codec::lemma_u32_roundtrip(c);
    crate::keys::lemma_schema_rollback_distinct();
    lemma_backfill_keeps_versions(e1);
    let e2 = hunty_migrated(e, target, false).0;
    assert(rollback_point(e2) == Some(c));
    crate::migration::law_rollback_restores_saved_version(e2, c);
}

/// Once a migration to a known version has succeeded, running it again finds
/// the schema already at the target and changes nothing.
pub proof fn law_migration_idempotent(e: Map<Seq<u8>, Seq<u8>>, target: u32)
    requires
        schema_version(e) < target <= 2,
    ensures
        hunty_migrated(hunty_migrated(e, target, false).0, target, false).0 == hunty_migrated(
            e,
            target,
            false,
        ).0,
        hunty_migrated(hunty_migrated(e, target, false).0, target, false).1.steps_applied == 0,
{
    law_migration_reaches_target(e, target);
}

/// Hunts are kept under their own id.
pub open spec fn hunts_keyed_by_id(e: Map<Seq<u8>, Seq<u8>>) -> bool {
    forall|j: u64| #[trigger] stored_hunt(e, j) matches Some(g) ==> g.hunt_id == j
}

/// Looking at the hunts under ids 1 to `n` changes the entry of hunt `id`
/// only when `id` is among them and its hunt needs the backfill; then the
/// entry holds the backfilled hunt.
proof fn lemma_backfill_entry(e: Map<Seq<u8>, Seq<u8>>, n: nat, id: u64)
    requires
        hunts_keyed_by_id(e),
        n <= u64::MAX,
    ensures
        ({
            let e2 = backfill_upto(e, n);
            let k = hunt_key(id);
            if 1 <= id <= n && stored_hunt(e, id) is Some && needs_backfill(stored_hunt(e, id)->0) {
                e2.contains_key(k) && e2[k] == hunt_bytes(backfill(stored_hunt(e, id)->0))
            } else {
                e2.contains_key(k) == e.contains_key(k) && (e.contains_key(k) ==> e2[k] == e[k])
            }
        }),
    decreases n,
{
    if n > 0 {
        let m = (n - 1) as nat;
        lemma_backfill_entry(e, m, id);
        lemma_backfill_entry(e, m, n as u64);
        let prev = backfill_upto(e, m);
        assert(stored_hunt(prev, n as u64) == stored_hunt(e, n as u64));
        lemma_hunt_key_injective(n as u64, id);
        if let Some(g) = stored_hunt(e, n as u64) {
            assert(g.hunt_id == n as u64);
        }
    }
}

/// The step from schema version 0 to 1 fills in the required clue count of
/// every hunt handed out so far that lacks it, from its total, and leaves
/// every other hunt as it was.
pub proof fn law_backfill_fills_required_clues(e: Map<Seq<u8>, Seq<u8>>, id: u64)
    requires
        hunts_keyed_by_id(e),
        stored_hunt(e, id) matches Some(h) ==> hunt_storable(h),
    ensures
        stored_hunt(backfilled(e), id) == (if 1 <= id <= hunt_counter(e) {
            match stored_hunt(e, id) {
                Some(h) => Some(
                    if needs_backfill(h) {
                        backfill(h)
                    } else {
                        h
                    },
                ),
                None => None,
            }
        } else {
            stored_hunt(e, id)
        }),
{
    lemma_backfill_entry(e, hunt_counter(e) as nat, id);
    if let Some(h) = stored_hunt(e, id) {
        if 1 <= id <= hunt_counter(e) && needs_backfill(h) {
            assert(hunt_storable(backfill(h))) by {
                let fs = crate::records::hunt_fields(h);
                let gs = crate::records::hunt_fields(backfill(h));
                assert forall|i: int| 0 <= i < gs.len() implies #[trigger] gs[i].len() <= u64::MAX by {
                    if i != 11 {
                        assert(gs[i] == fs[i]);
                    } else {
                        crate::codec::lemma_u32_roundtrip(h.total_clues);
                    }
                }
            }
            lemma_hunt_read_back(backfill(h));
        }
    }
}

/// A real migration from schema version 0 to either known version runs the
/// step from 0 to 1 on its way, whichever the target: every hunt handed out
/// so far (ids 1 to the hunt counter) that has no required clue count but
/// has clues comes out with its required clue count equal to its total, and
/// every other hunt comes out as it was.
pub proof fn law_migration_from_v0_backfills_hunts(e: Map<Seq<u8>, Seq<u8>>, target: u32, id: u64)
    requires
        schema_version(e) == 0,
        1 <= target <= 2,
        hunts_keyed_by_id(e),
        stored_hunt(e, id) matches Some(h) ==> hunt_storable(h),
    ensures
        stored_hunt(hunty_migrated(e, target, false).0, id) == (if 1 <= id <= hunt_counter(e) {
            match stored_hunt(e, id) {
                Some(h) => Some(
                    if h.required_clues == 0 && h.total_clues > 0 {
                        HuntModel { required_clues: h.total_clues, ..h }
                    } else {
                        h
                    },
                ),
                None => None,
            }
        } else {
            stored_hunt(e, id)
        }),
{
    let e1 = with_rollback_point(e, 0);
    assert forall|j: u64| #[trigger] stored_hunt(e1, j) == stored_hunt(e, j) by {
        lemma_hunt_key_distinct(j);
    }
    assert(hunts_keyed_by_id(e1)) by {
        assert forall|j: u64| (#[trigger] stored_hunt(e1, j)) is Some implies stored_hunt(e1, j)->0.hunt_id == j by {
            assert(stored_hunt(e1, j) == stored_hunt(e, j));
        }
    }
    crate::keys::lemma_counter_key_distinct();
    assert(hunt_counter(e1) == hunt_counter(e));
    law_backfill_fills_required_clues(e1, id);
    let e2 = backfilled(e1);
    lemma_hunt_key_distinct(id);
    assert(stored_hunt(with_version(e2, target), id) == stored_hunt(e2, id));
    assert(hunty_migrated(e, target, false).0 == with_version(e2, target));
}

/// A migration that starts from schema version 1 or later has no backfill
/// to run: whatever the target, every hunt comes out as it was.
pub proof fn law_migration_past_v0_keeps_hunts(e: Map<Seq<u8>, Seq<u8>>, target: u32, dry_run: bool, id: u64)
    requires
        schema_version(e) >= 1,
    ensures
        stored_hunt(hunty_migrated(e, target, dry_run).0, id) == stored_hunt(e, id),
{
    lemma_hunt_key_distinct(id);
}

/// Saving a hunt writes that hunt alone: every hunt kept under another id
/// reads back as it was.
pub proof fn law_save_hunt_keeps_other_hunts(e: Map<Seq<u8>, Seq<u8>>, h: HuntModel, id: u64)
    requires
        id != h.hunt_id,
    ensures
        stored_hunt(e.insert(hunt_key(h.hunt_id), hunt_bytes(h)), id) == stored_hunt(e, id),
{
    lemma_hunt_key_injective(id, h.hunt_id);
}

/// Saving a storable hunt keeps hunts kept under their own id.
pub proof fn law_save_hunt_keeps_hunts_keyed_by_id(e: Map<Seq<u8>, Seq<u8>>, h: HuntModel)
    requires
        hunts_keyed_by_id(e),
        hunt_storable(h),
    ensures
        hunts_keyed_by_id(e.insert(hunt_key(h.hunt_id), hunt_bytes(h))),
{
    let e2 = e.insert(hunt_key(h.hunt_id), hunt_bytes(h));
    lemma_hunt_read_back(h);
    assert forall|j: u64| (#[trigger] stored_hunt(e2, j)) is Some implies stored_hunt(e2, j)->0.hunt_id == j by {
        lemma_hunt_key_injective(j, h.hunt_id);
        if j != h.hunt_id {
            assert(stored_hunt(e2, j) == stored_hunt(e, j));
        }
    }
}

} // verus!

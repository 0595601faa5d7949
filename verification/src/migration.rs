//! Shared migration utilities used by all Hunty contracts: the schema version
//! kept in instance storage, the rollback point saved before a migration, and
//! the report a migration returns.
use crate::keys::{rollback_key, rollback_key_slot, schema_key, schema_key_slot};
use crate::ledger::{instance_entries, persistent_entries};
use crate::store::{stored_u32, u32_or_zero};
use crate::codec::u32_bytes;
use soroban_sdk::Env;
use crate::ledger::{instance_slot_has, instance_slot_remove, instance_slot_u32};
use crate::store::{set_instance_slot_u32};
use vstd::prelude::*;

verus! {

/// Current schema version for Hunty contract storage layouts.
pub const CURRENT_SCHEMA_VERSION: u32 = 2;

/// What a migration or a rollback did.
#[derive(Clone, Debug, PartialEq, Eq)]
pub struct MigrationReport {
    pub from_version: u32,
    pub to_version: u32,
    pub steps_applied: u32,
    pub dry_run: bool,
    pub succeeded: bool,
    pub message: String,
}

/// What a `MigrationReport` holds.
pub struct ReportModel {
    pub from_version: u32,
    pub to_version: u32,
    pub steps_applied: u32,
    pub dry_run: bool,
    pub succeeded: bool,
    pub message: Seq<char>,
}

impl View for MigrationReport {
    type V = ReportModel;

    open spec fn view(&self) -> ReportModel {
        ReportModel {
            from_version: self.from_version,
            to_version: self.to_version,
            steps_applied: self.steps_applied,
            dry_run: self.dry_run,
            succeeded: self.succeeded,
            message: self.message@,
        }
    }
}

/// The stored schema version, 0 when uninitialized.
pub open spec fn schema_version(e: Map<Seq<u8>, Seq<u8>>) -> u32 {
    u32_or_zero(stored_u32(e, schema_key()))
}

/// The schema version saved before the last migration, if any.
pub open spec fn rollback_point(e: Map<Seq<u8>, Seq<u8>>) -> Option<u32> {
    stored_u32(e, rollback_key())
}

/// The instance entries with the schema version set to `v`.
pub open spec fn with_version(e: Map<Seq<u8>, Seq<u8>>, v: u32) -> Map<Seq<u8>, Seq<u8>> {
    e.insert(schema_key(), u32_bytes(v))
}

/// The instance entries with the rollback point set to `v`.
pub open spec fn with_rollback_point(e: Map<Seq<u8>, Seq<u8>>, v: u32) -> Map<Seq<u8>, Seq<u8>> {
    e.insert(rollback_key(), u32_bytes(v))
}

pub open spec fn report(
    from: u32,
    to: u32,
    steps: u32,
    dry_run: bool,
    succeeded: bool,
    message: Seq<char>,
) -> ReportModel {
    ReportModel {
        from_version: from,
        to_version: to,
        steps_applied: steps,
        dry_run,
        succeeded,
        message,
    }
}

/// The instance entries after the schema version is set on deploy: unchanged
/// when a version is already stored, else with the current version.
pub open spec fn schema_initialized(e: Map<Seq<u8>, Seq<u8>>) -> Map<Seq<u8>, Seq<u8>> {
    if e.contains_key(schema_key()) {
        e
    } else {
        with_version(e, CURRENT_SCHEMA_VERSION)
    }
}

/// The instance entries after a rollback, and its report: `None`, with
/// nothing changed, when no rollback point is saved; otherwise the schema
/// version is set back to the saved one and the rollback point is cleared.
pub open spec fn rolled_back(e: Map<Seq<u8>, Seq<u8>>) -> (Map<Seq<u8>, Seq<u8>>, Option<ReportModel>) {
    match rollback_point(e) {
        None => (e, None),
        Some(p) => (
            with_version(e, p).remove(rollback_key()),
            Some(report(schema_version(e), p, 1, false, true, "rolled back"@)),
        ),
    }
}

/// Shared migration utilities used by all Hunty contracts.
pub struct MigrationFramework;

impl MigrationFramework {
    /// Reads the stored schema version, defaulting to 0 when uninitialized.
    pub fn detect_version(env: &Env) -> (res: u32)
        ensures
            res == schema_version(instance_entries(*env)),
    {
        let key = schema_key_slot();
        match instance_slot_u32(env, &key) {
            Some(v) => v,
            None => 0,
        }
    }

    /// Sets the schema version on first initialization.
    pub fn init_version_on_deploy(env: &mut Env)
        ensures
            instance_entries(*final(env)) == schema_initialized(instance_entries(*old(env))),
            persistent_entries(*final(env)) == persistent_entries(*old(env)),
    {
        let key = schema_key_slot();
        if !instance_slot_has(env, &key) {
            set_instance_slot_u32(env, &key, CURRENT_SCHEMA_VERSION);
        }
    }

    pub fn set_version(env: &mut Env, version: u32)
        ensures
            instance_entries(*final(env)) == with_version(instance_entries(*old(env)), version),
            persistent_entries(*final(env)) == persistent_entries(*old(env)),
    {
        let key = schema_key_slot();
        set_instance_slot_u32(env, &key, version);
    }

    pub fn save_rollback_point(env: &mut Env, version: u32)
        ensures
            instance_entries(*final(env)) == with_rollback_point(
                instance_entries(*old(env)),
                version,
            ),
            persistent_entries(*final(env)) == persistent_entries(*old(env)),
    {
        let key = rollback_key_slot();
        set_instance_slot_u32(env, &key, version);
    }

    pub fn rollback_version(env: &Env) -> (res: Option<u32>)
        ensures
            res == rollback_point(instance_entries(*env)),
    {
        let key = rollback_key_slot();
        instance_slot_u32(env, &key)
    }

    pub fn clear_rollback(env: &mut Env)
        ensures
            instance_entries(*final(env)) == instance_entries(*old(env)).remove(rollback_key()),
            persistent_entries(*final(env)) == persistent_entries(*old(env)),
    {
        let key = rollback_key_slot();
        instance_slot_remove(env, &key);
    }

    pub fn build_report(
        _env: &Env,
        from: u32,
        to: u32,
        steps: u32,
        dry_run: bool,
        succeeded: bool,
        message: &str,
    ) -> (res: MigrationReport)
        ensures
            res@ == report(from, to, steps, dry_run, succeeded, message@),
    {
        MigrationReport {
            from_version: from,
            to_version: to,
            steps_applied: steps,
            dry_run,
            succeeded,
            message: message.to_owned(),
        }
    }
}

/// Restores the schema version saved before the last migration, once
/// `admin` has authorized the call.
///
/// Aborts the contract call, through the host's `Address::require_auth`,
/// unless `admin` has authorized it: this is the rollback's access control,
/// and the one way in which it does not return.
pub(crate) fn rollback(env: &mut Env, admin: &soroban_sdk::Address) -> (res: Option<MigrationReport>)
    ensures
        instance_entries(*final(env)) == rolled_back(instance_entries(*old(env))).0,
        persistent_entries(*final(env)) == persistent_entries(*old(env)),
        match res {
            Some(r) => rolled_back(instance_entries(*old(env))).1 == Some(r@),
            None => rolled_back(instance_entries(*old(env))).1 is None,
        },
{
    crate::ledger::require_auth(admin);
    let previous = match MigrationFramework::rollback_version(env) {
        Some(p) => p,
        None => return None,
    };
    let current = MigrationFramework::detect_version(env);
    MigrationFramework::set_version(env, previous);
    MigrationFramework::clear_rollback(env);
    Some(MigrationFramework::build_report(env, current, previous, 1, false, true, "rolled back"))
}

/// Setting the schema version on deploy a second time changes nothing.
pub proof fn law_initialize_idempotent(e: Map<Seq<u8>, Seq<u8>>)
    ensures
        schema_initialized(schema_initialized(e)) == schema_initialized(e),
{
}

/// Right after deploy, the stored schema version is the one found, or the
/// current version when none was stored.
pub proof fn law_initialize_sets_current(e: Map<Seq<u8>, Seq<u8>>)
    ensures
        !e.contains_key(schema_key()) ==> schema_version(schema_initialized(e))
            == CURRENT_SCHEMA_VERSION,
        e.contains_key(schema_key()) ==> schema_version(schema_initialized(e)) == schema_version(e),
{
    crate::codec::lemma_u32_roundtrip(CURRENT_SCHEMA_VERSION);
}

/// After a rollback, a second rollback finds no rollback point: it reports
/// nothing and changes nothing.
pub proof fn law_second_rollback_is_noop(e: Map<Seq<u8>, Seq<u8>>)
    ensures
        rolled_back(rolled_back(e).0).1 is None,
        rolled_back(rolled_back(e).0).0 == rolled_back(e).0,
{
    if rollback_point(e) is Some {
        crate::keys::lemma_schema_rollback_distinct();
        assert(!rolled_back(e).0.contains_key(rollback_key()));
    }
}

/// A rollback sets the schema version back to the saved rollback point.
pub proof fn law_rollback_restores_saved_version(e: Map<Seq<u8>, Seq<u8>>, p: u32)
    requires
        rollback_point(e) == Some(p),
    ensures
        schema_version(rolled_back(e).0) == p,
        rollback_point(rolled_back(e).0) is None,
{
    crate::keys::lemma_schema_rollback_distinct();
    crate::codec::lemma_u32_roundtrip(p);
}

} // verus!

use migratable::{
    BatchMigration, DryRunError, MigrateResult, MigrateSequence, Migration, MigrationError, MigrationStore,
    NoopMigration, RuntimeDbWeight, SubstrateWeight, UpgradeError, UpgradeOutcome, Weight, WeightInfo,
};

const BASE_REF_TIME: u64 = 13_100_000;
const BASE_PROOF_SIZE: u64 = 3631;

fn weights() -> SubstrateWeight {
    SubstrateWeight::new(RuntimeDbWeight { read: 0, write: 0 })
}

fn with_base(extra: u64) -> Weight {
    Weight::from_parts(BASE_REF_TIME + extra, BASE_PROOF_SIZE)
}

fn two_step_migration() -> Migration<BatchMigration> {
    let per_call = Weight::from_parts(10, 0);
    let q = MigrateSequence::new(vec![
        BatchMigration::new(2, 3, 1, per_call),
        BatchMigration::new(3, 2, 1, per_call),
    ])
    .unwrap();
    Migration::new(q, 3, weights())
}

#[test]
fn migrates_from_one_to_three_with_budget_25() {
    let m = two_step_migration();
    let mut store = MigrationStore::new(1);
    let (outcome, _) = m.trigger_upgrade(&mut store);
    assert_eq!(outcome, Ok(UpgradeOutcome::Started));
    assert!(store.in_progress());

    let (first, used) = m.migrate(&mut store, with_base(25));
    assert_eq!(first, MigrateResult::InProgress { steps_done: 2 });
    assert_eq!(used, with_base(20));
    assert!(with_base(25).all_gte(&used));

    let mut rounds = 0;
    let last = loop {
        let (r, used) = m.migrate(&mut store, with_base(25));
        assert!(with_base(25).all_gte(&used));
        rounds += 1;
        assert!(rounds < 10);
        if r == MigrateResult::Completed {
            break r;
        }
    };
    assert_eq!(last, MigrateResult::Completed);
    assert_eq!(store.version, 3);
    assert!(store.cursor.is_none());
    assert!(!store.in_progress());
}

#[test]
fn finishing_a_step_moves_to_the_next_version() {
    let m = two_step_migration();
    let mut store = MigrationStore::new(1);
    m.trigger_upgrade(&mut store);
    let (r, _) = m.migrate(&mut store, with_base(1000));
    assert_eq!(r, MigrateResult::InProgress { steps_done: 3 });
    assert_eq!(store.version, 2);
    assert_eq!(store.cursor.as_ref().unwrap().as_bytes(), &[0u8, 0, 0, 0][..]);
    let (r, used) = m.migrate(&mut store, with_base(1000));
    assert_eq!(r, MigrateResult::Completed);
    assert_eq!(used, with_base(20));
    assert_eq!(store.version, 3);
}

#[test]
fn trigger_at_target_version_is_a_noop() {
    let m = two_step_migration();
    let mut store = MigrationStore::new(3);
    let (outcome, w) = m.trigger_upgrade(&mut store);
    assert_eq!(outcome, Ok(UpgradeOutcome::NoUpgradeNeeded));
    assert_eq!(w, weights().on_runtime_upgrade_noop());
    assert!(store.cursor.is_none());
    assert_eq!(store.version, 3);
}

#[test]
fn trigger_while_in_progress_is_rejected_without_change() {
    let m = two_step_migration();
    let mut store = MigrationStore::new(1);
    m.trigger_upgrade(&mut store);
    m.migrate(&mut store, with_base(10));
    let before = store.cursor.as_ref().unwrap().as_bytes().to_vec();
    let (outcome, w) = m.trigger_upgrade(&mut store);
    assert_eq!(outcome, Err(UpgradeError::MigrationInProgress));
    assert_eq!(w, weights().on_runtime_upgrade_in_progress());
    assert_eq!(store.version, 1);
    assert_eq!(store.cursor.as_ref().unwrap().as_bytes(), &before[..]);
    assert_eq!(before, vec![1, 0, 0, 0]);
}

#[test]
fn trigger_with_unsupported_versions_is_rejected() {
    let m = two_step_migration();
    let mut store = MigrationStore::new(0);
    let (outcome, _) = m.trigger_upgrade(&mut store);
    assert_eq!(outcome, Err(UpgradeError::UnsupportedUpgrade));
    assert!(store.cursor.is_none());

    let q = MigrateSequence::new(vec![NoopMigration::new(2), NoopMigration::new(3)]).unwrap();
    let wrong_target = Migration::new(q, 4, weights());
    let mut store = MigrationStore::new(1);
    let (outcome, _) = wrong_target.trigger_upgrade(&mut store);
    assert_eq!(outcome, Err(UpgradeError::UnsupportedUpgrade));
    assert!(store.cursor.is_none());
}

#[test]
fn budget_below_fixed_cost_performs_nothing() {
    let m = two_step_migration();
    let mut store = MigrationStore::new(1);
    m.trigger_upgrade(&mut store);
    let (r, used) = m.migrate(&mut store, Weight::from_parts(BASE_REF_TIME - 1, BASE_PROOF_SIZE));
    assert_eq!(r, MigrateResult::NoMigrationPerformed);
    assert_eq!(used, Weight::zero());
    assert_eq!(store.cursor.as_ref().unwrap().as_bytes(), &[0u8, 0, 0, 0][..]);
}

#[test]
fn no_migration_in_progress_costs_the_noop_weight() {
    let m = two_step_migration();
    let mut store = MigrationStore::new(3);
    let (r, used) = m.migrate(&mut store, with_base(100));
    assert_eq!(r, MigrateResult::NoMigrationInProgress);
    assert_eq!(used, weights().migration_noop());
    assert_eq!(used, Weight::from_parts(3_489_000, 1627));
}

#[test]
fn zero_progress_leaves_store_unchanged() {
    let m = two_step_migration();
    let mut store = MigrationStore::new(1);
    m.trigger_upgrade(&mut store);
    m.migrate(&mut store, with_base(10));
    let before = store.cursor.as_ref().unwrap().as_bytes().to_vec();
    let (r, used) = m.migrate(&mut store, with_base(9));
    assert_eq!(r, MigrateResult::InProgress { steps_done: 0 });
    assert_eq!(used, with_base(0));
    assert_eq!(store.version, 1);
    assert_eq!(store.cursor.as_ref().unwrap().as_bytes(), &before[..]);
}

#[test]
fn on_idle_drains_budget_across_versions() {
    let m = two_step_migration();
    let mut store = MigrationStore::new(1);
    m.trigger_upgrade(&mut store);
    let budget = Weight::from_parts(10 * BASE_REF_TIME, 10 * BASE_PROOF_SIZE);
    let (last, used) = m.on_idle(&mut store, budget);
    assert_eq!(last, MigrateResult::Completed);
    assert_eq!(store.version, 3);
    assert!(store.cursor.is_none());
    assert_eq!(used, Weight::from_parts(2 * BASE_REF_TIME + 50, 2 * BASE_PROOF_SIZE));
}

#[test]
fn on_idle_stops_at_zero_progress() {
    let m = two_step_migration();
    let mut store = MigrationStore::new(1);
    m.trigger_upgrade(&mut store);
    let (last, used) = m.on_idle(&mut store, with_base(15));
    assert_eq!(last, MigrateResult::NoMigrationPerformed);
    assert_eq!(used, with_base(10));
    assert_eq!(store.version, 1);
    assert_eq!(store.cursor.as_ref().unwrap().as_bytes(), &[1u8, 0, 0, 0][..]);
}

#[test]
fn on_idle_with_too_little_weight_does_nothing() {
    let m = two_step_migration();
    let mut store = MigrationStore::new(1);
    m.trigger_upgrade(&mut store);
    let (last, used) = m.on_idle(&mut store, Weight::from_parts(5, 5));
    assert_eq!(last, MigrateResult::NoMigrationPerformed);
    assert_eq!(used, Weight::zero());
    assert_eq!(store.cursor.as_ref().unwrap().as_bytes(), &[0u8, 0, 0, 0][..]);
}

#[test]
fn run_all_steps_completes_the_migration() {
    let m = two_step_migration();
    let mut store = MigrationStore::new(1);
    m.trigger_upgrade(&mut store);
    let total = m.run_all_steps(&mut store, 10).unwrap();
    assert_eq!(total, Weight::from_parts(2 * BASE_REF_TIME + 50, 2 * BASE_PROOF_SIZE));
    assert_eq!(store.version, 3);
    assert!(store.cursor.is_none());
}

#[test]
fn run_all_steps_without_migration_fails() {
    let m = two_step_migration();
    let mut store = MigrationStore::new(3);
    assert_eq!(m.run_all_steps(&mut store, 10), Err(DryRunError::NoMigrationInProgress));
}

#[test]
fn run_all_steps_reports_unfinished_after_round_limit() {
    let m = two_step_migration();
    let mut store = MigrationStore::new(1);
    m.trigger_upgrade(&mut store);
    assert_eq!(m.run_all_steps(&mut store, 1), Err(DryRunError::Unfinished));
    assert_eq!(store.version, 2);
}

#[test]
fn ensure_not_in_progress_reflects_cursor() {
    let m = two_step_migration();
    let mut store = MigrationStore::new(1);
    assert_eq!(store.ensure_not_in_progress(), Ok(()));
    m.trigger_upgrade(&mut store);
    assert_eq!(store.ensure_not_in_progress(), Err(MigrationError::MigrationInProgress));
}

#[test]
fn on_idle_stops_when_a_call_makes_no_progress() {
    let m = two_step_migration();
    let mut store = MigrationStore::new(1);
    m.trigger_upgrade(&mut store);
    let (last, used) = m.on_idle(&mut store, with_base(5));
    assert_eq!(last, MigrateResult::InProgress { steps_done: 0 });
    assert_eq!(used, with_base(0));
    assert_eq!(store.cursor.as_ref().unwrap().as_bytes(), &[0u8, 0, 0, 0][..]);
}

#[test]
fn on_idle_without_migration_reports_it() {
    let m = two_step_migration();
    let mut store = MigrationStore::new(3);
    let (last, used) = m.on_idle(&mut store, with_base(5));
    assert_eq!(last, MigrateResult::NoMigrationInProgress);
    assert_eq!(used, Weight::from_parts(3_489_000, 1627));
}

#[test]
fn dry_run_round_makes_one_unlimited_call() {
    let m = two_step_migration();
    let mut store = MigrationStore::new(1);
    m.trigger_upgrade(&mut store);
    let (r, used) = m.dry_run_round(&mut store).unwrap();
    assert_eq!(r, MigrateResult::InProgress { steps_done: 3 });
    assert_eq!(used, with_base(30));
    assert_eq!(store.version, 2);
    let (r, _) = m.dry_run_round(&mut store).unwrap();
    assert_eq!(r, MigrateResult::Completed);
    assert_eq!(store.version, 3);
}

#[test]
fn sequence_hooks_of_library_steps_pass() {
    let q = MigrateSequence::new(vec![NoopMigration::new(2), NoopMigration::new(3)]).unwrap();
    assert_eq!(q.pre_upgrade_step(3), Ok(Vec::new()));
    assert_eq!(q.post_upgrade_step(2, vec![1, 2]), Ok(()));
}

#[test]
fn consistency_check_on_stores_read_back() {
    let m = two_step_migration();
    assert!(m.is_consistent(&MigrationStore::new(0)));
    let mut store = MigrationStore::new(1);
    m.trigger_upgrade(&mut store);
    assert!(m.is_consistent(&store));
    let bad_bytes = MigrationStore { version: 1, cursor: migratable::Cursor::from_bytes(vec![1, 2]) };
    assert!(!m.is_consistent(&bad_bytes));
    let bad_version = MigrationStore { version: 3, cursor: migratable::Cursor::from_bytes(vec![0, 0, 0, 0]) };
    assert!(!m.is_consistent(&bad_version));
}

#[test]
fn dry_run_stops_at_round_limit_after_passing_rounds() {
    let per_call = Weight::from_parts(10, 0);
    let q = MigrateSequence::new(vec![BatchMigration::new(2, 3, 1, per_call)]).unwrap();
    let m = Migration::new(q, 2, weights());
    let mut store = MigrationStore::new(1);
    m.trigger_upgrade(&mut store);
    assert_eq!(m.run_all_steps(&mut store, 0), Err(DryRunError::Unfinished));
    assert_eq!(m.run_all_steps(&mut store, 1), Ok(with_base(30)));
    assert_eq!(store.version, 2);
}

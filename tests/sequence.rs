use migratable::{
    BatchMigration, Cursor, IntegrityError, IsFinished, MigrateSequence, MigrationStep, NoopMigration,
    SequenceError, StepResult, Weight, MAX_CURSOR_LEN,
};

fn batch(version: u16, total: u32, per_call: u64) -> BatchMigration {
    BatchMigration::new(version, total, 1, Weight::from_parts(per_call, 0))
}

#[test]
fn gap_in_versions_is_rejected() {
    let r = MigrateSequence::new(vec![NoopMigration::new(1), NoopMigration::new(3)]);
    assert!(matches!(r, Err(SequenceError::NotContiguous { index: 1 })));
}

#[test]
fn duplicate_versions_are_rejected() {
    let r = MigrateSequence::new(vec![NoopMigration::new(2), NoopMigration::new(3), NoopMigration::new(3)]);
    assert!(matches!(r, Err(SequenceError::NotContiguous { index: 2 })));
}

#[test]
fn descending_versions_are_rejected() {
    let r = MigrateSequence::new(vec![NoopMigration::new(3), NoopMigration::new(2)]);
    assert!(matches!(r, Err(SequenceError::NotContiguous { index: 1 })));
}

#[test]
fn empty_sequence_is_rejected() {
    let r = MigrateSequence::<NoopMigration>::new(Vec::new());
    assert!(matches!(r, Err(SequenceError::Empty)));
}

#[test]
fn version_range_of_contiguous_sequence() {
    let q = MigrateSequence::new(vec![NoopMigration::new(4), NoopMigration::new(5), NoopMigration::new(6)])
        .unwrap();
    assert_eq!(q.version_range(), (4, 6));
    let single = MigrateSequence::new(vec![NoopMigration::new(9)]).unwrap();
    assert_eq!(single.version_range(), (9, 9));
}

#[test]
fn upgrade_supported_only_from_version_below_low_to_high() {
    let q = MigrateSequence::new(vec![batch(2, 5, 10), batch(3, 5, 10)]).unwrap();
    assert!(q.is_upgrade_supported(1, 3));
    assert!(!q.is_upgrade_supported(0, 3));
    assert!(!q.is_upgrade_supported(1, 2));
    assert!(!q.is_upgrade_supported(2, 3));
}

#[test]
fn upgrade_from_highest_stored_version_is_unsupported() {
    let q = MigrateSequence::new(vec![NoopMigration::new(0)]).unwrap();
    assert!(!q.is_upgrade_supported(u16::MAX, 0));
}

#[test]
fn new_cursor_encodes_default_state() {
    let q = MigrateSequence::new(vec![batch(2, 5, 10), batch(3, 5, 10)]).unwrap();
    assert_eq!(q.new_cursor(3).as_bytes(), &[0u8, 0, 0, 0][..]);
    let noop = MigrateSequence::new(vec![NoopMigration::new(7)]).unwrap();
    assert_eq!(noop.new_cursor(7).len(), 0);
}

#[test]
fn budget_of_25_with_cost_10_makes_two_calls() {
    let q = MigrateSequence::new(vec![batch(2, 5, 10), batch(3, 5, 10)]).unwrap();
    let c = q.new_cursor(2);
    let mut left = Weight::from_parts(25, 0);
    let r = q.steps(2, &c, &mut left);
    let expected = Cursor::from_bytes(vec![2, 0, 0, 0]).unwrap();
    assert_eq!(r, StepResult::InProgress { cursor: expected, steps_done: 2 });
    assert_eq!(left, Weight::from_parts(5, 0));
}

#[test]
fn budget_equal_to_ceiling_pays_one_call() {
    let q = MigrateSequence::new(vec![batch(2, 5, 10)]).unwrap();
    let c = q.new_cursor(2);
    let mut left = Weight::from_parts(10, 0);
    let r = q.steps(2, &c, &mut left);
    assert!(matches!(r, StepResult::InProgress { steps_done: 1, .. }));
    assert_eq!(left, Weight::zero());
}

#[test]
fn budget_below_ceiling_makes_no_call() {
    let q = MigrateSequence::new(vec![batch(2, 5, 10)]).unwrap();
    let c = q.new_cursor(2);
    let mut left = Weight::from_parts(9, 100);
    let r = q.steps(2, &c, &mut left);
    let expected = Cursor::from_bytes(vec![0, 0, 0, 0]).unwrap();
    assert_eq!(r, StepResult::InProgress { cursor: expected, steps_done: 0 });
    assert_eq!(left, Weight::from_parts(9, 100));
}

#[test]
fn both_dimensions_must_cover_ceiling() {
    let step = BatchMigration::new(2, 5, 1, Weight::from_parts(10, 10));
    let q = MigrateSequence::new(vec![step]).unwrap();
    let c = q.new_cursor(2);
    let mut left = Weight::from_parts(1000, 5);
    let r = q.steps(2, &c, &mut left);
    assert!(matches!(r, StepResult::InProgress { steps_done: 0, .. }));
}

#[test]
fn step_completes_when_budget_suffices() {
    let q = MigrateSequence::new(vec![batch(2, 5, 10)]).unwrap();
    let c = q.new_cursor(2);
    let mut left = Weight::from_parts(100, 0);
    let r = q.steps(2, &c, &mut left);
    assert_eq!(r, StepResult::Completed { steps_done: 5 });
    assert_eq!(left, Weight::from_parts(50, 0));
}

#[test]
fn step_resumes_from_cursor() {
    let q = MigrateSequence::new(vec![batch(2, 5, 10)]).unwrap();
    let c = Cursor::from_bytes(vec![3, 0, 0, 0]).unwrap();
    let mut left = Weight::from_parts(100, 0);
    let r = q.steps(2, &c, &mut left);
    assert_eq!(r, StepResult::Completed { steps_done: 2 });
}

#[test]
fn small_budgets_make_the_same_number_of_calls_as_one_large() {
    let q = MigrateSequence::new(vec![batch(2, 7, 10)]).unwrap();
    let mut one = Weight::from_parts(1000, 0);
    let whole = q.steps(2, &q.new_cursor(2), &mut one);
    assert_eq!(whole, StepResult::Completed { steps_done: 7 });

    let mut cursor = q.new_cursor(2);
    let mut calls: u32 = 0;
    loop {
        let mut left = Weight::from_parts(25, 0);
        match q.steps(2, &cursor, &mut left) {
            StepResult::InProgress { cursor: c, steps_done } => {
                calls += steps_done;
                cursor = c;
            }
            StepResult::Completed { steps_done } => {
                calls += steps_done;
                break;
            }
        }
    }
    assert_eq!(calls, 7);
}

#[test]
fn noop_step_completes_in_one_call_for_free() {
    let q = MigrateSequence::new(vec![NoopMigration::new(1)]).unwrap();
    let c = q.new_cursor(1);
    let mut left = Weight::zero();
    let r = q.steps(1, &c, &mut left);
    assert_eq!(r, StepResult::Completed { steps_done: 1 });
    assert_eq!(left, Weight::zero());
}

#[test]
fn integrity_test_names_first_step_over_ceiling() {
    let q = MigrateSequence::new(vec![batch(2, 5, 10), batch(3, 5, 30), batch(4, 5, 40)]).unwrap();
    assert_eq!(q.integrity_test(Weight::from_parts(40, 0)), Ok(()));
    assert_eq!(q.integrity_test(Weight::from_parts(20, 0)), Err(IntegrityError::StepWeightTooHigh { version: 3 }));
    let proof_heavy = MigrateSequence::new(vec![BatchMigration::new(2, 5, 1, Weight::from_parts(1, 2))]).unwrap();
    assert_eq!(
        proof_heavy.integrity_test(Weight::from_parts(100, 1)),
        Err(IntegrityError::StepWeightTooHigh { version: 2 })
    );
}

#[test]
fn batch_state_round_trips_through_cursor_bytes() {
    let mut s = BatchMigration::new(2, u32::MAX, 0x1234_5678, Weight::from_parts(1, 1));
    let (done, cost) = s.step();
    assert_eq!(done, IsFinished::No);
    assert_eq!(cost, Weight::from_parts(1, 1));
    let bytes = s.encode();
    assert_eq!(bytes, vec![0x78, 0x56, 0x34, 0x12]);
    assert!(bytes.len() <= MAX_CURSOR_LEN);
    let template = BatchMigration::new(2, u32::MAX, 0x1234_5678, Weight::from_parts(1, 1));
    assert_eq!(template.decode(&bytes), Some(s));
    assert_eq!(template.decode(&[1, 2, 3]), None);
}

#[test]
fn batch_step_walks_in_batches() {
    let mut s = BatchMigration::new(5, 10, 4, Weight::from_parts(3, 0));
    assert_eq!(s.step().0, IsFinished::No);
    assert_eq!(s.next, 4);
    assert_eq!(s.step().0, IsFinished::No);
    assert_eq!(s.next, 8);
    assert_eq!(s.step().0, IsFinished::Yes);
    assert_eq!(s.next, 10);
}

#[test]
fn noop_state_round_trips() {
    let s = NoopMigration::new(4);
    let bytes = s.encode();
    assert!(bytes.is_empty());
    assert_eq!(s.decode(&bytes), Some(s));
}

#[test]
fn cursor_longer_than_bound_is_refused() {
    assert!(Cursor::from_bytes(vec![0u8; MAX_CURSOR_LEN]).is_some());
    assert!(Cursor::from_bytes(vec![0u8; MAX_CURSOR_LEN + 1]).is_none());
}

#[test]
fn step_integrity_test_checks_ceiling() {
    let s = batch(2, 5, 10);
    assert_eq!(s.integrity_test(Weight::from_parts(10, 0)), Ok(()));
    assert_eq!(s.integrity_test(Weight::from_parts(9, 0)), Err(IntegrityError::StepWeightTooHigh { version: 2 }));
    assert_eq!(NoopMigration::new(8).integrity_test(Weight::zero()), Ok(()));
}

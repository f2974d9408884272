use migratable::{RuntimeDbWeight, SubstrateWeight, Weight, WeightInfo};

fn rocks_db() -> SubstrateWeight {
    SubstrateWeight::new(RuntimeDbWeight { read: 25_000_000, write: 100_000_000 })
}

#[test]
fn benchmarked_weights_with_database_costs() {
    let w = rocks_db();
    assert_eq!(w.migration_noop(), Weight::from_parts(3_489_000 + 25_000_000 + 100_000_000, 1627));
    assert_eq!(w.migrate(), Weight::from_parts(13_100_000 + 50_000_000 + 200_000_000, 3631));
    assert_eq!(w.on_runtime_upgrade_noop(), Weight::from_parts(4_994_000 + 25_000_000, 3607));
    assert_eq!(w.on_runtime_upgrade_in_progress(), Weight::from_parts(6_945_000 + 50_000_000, 3632));
    assert_eq!(w.on_runtime_upgrade(), Weight::from_parts(7_372_000 + 50_000_000 + 100_000_000, 3607));
}

#[test]
fn database_weights_saturate() {
    let db = RuntimeDbWeight { read: u64::MAX / 2 + 1, write: 3 };
    assert_eq!(db.reads(2), Weight::from_parts(u64::MAX, 0));
    assert_eq!(db.writes(5), Weight::from_parts(15, 0));
    assert_eq!(db.reads(0), Weight::zero());
}

#[test]
fn weight_arithmetic_saturates() {
    let a = Weight::from_parts(5, 100);
    let b = Weight::from_parts(7, 40);
    assert_eq!(a.saturating_sub(&b), Weight::from_parts(0, 60));
    assert_eq!(Weight::max_value().saturating_add(&a), Weight::max_value());
    assert_eq!(a.saturating_add(&b), Weight::from_parts(12, 140));
    let mut c = a;
    c.saturating_reduce(&b);
    assert_eq!(c, Weight::from_parts(0, 60));
}

#[test]
fn weight_comparisons_are_component_wise() {
    let a = Weight::from_parts(5, 100);
    let b = Weight::from_parts(7, 40);
    assert!(!a.all_gte(&b));
    assert!(!b.all_gte(&a));
    assert!(a.any_gt(&b));
    assert!(b.any_gt(&a));
    assert!(a.all_gte(&a));
    assert!(!a.any_gt(&a));
}

#[test]
fn checked_reduce_only_when_it_fits() {
    let mut a = Weight::from_parts(10, 10);
    assert!(a.checked_reduce(&Weight::from_parts(4, 10)));
    assert_eq!(a, Weight::from_parts(6, 0));
    assert!(!a.checked_reduce(&Weight::from_parts(1, 1)));
    assert_eq!(a, Weight::from_parts(6, 0));
    assert_eq!(a.checked_sub(&Weight::from_parts(7, 0)), None);
}

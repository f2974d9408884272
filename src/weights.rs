use vstd::prelude::*;
use crate::weight::{RuntimeDbWeight, Weight};

verus! {

/// The weights charged for the engine's own bookkeeping.
pub trait WeightInfo {
    spec fn spec_migration_noop(&self) -> Weight;

    spec fn spec_migrate(&self) -> Weight;

    spec fn spec_on_runtime_upgrade_noop(&self) -> Weight;

    spec fn spec_on_runtime_upgrade_in_progress(&self) -> Weight;

    spec fn spec_on_runtime_upgrade(&self) -> Weight;

    /// A migration call that found no migration in progress.
    fn migration_noop(&self) -> (r: Weight)
        ensures
            r == self.spec_migration_noop(),
    ;

    /// The fixed part of a migration call that runs a step.
    fn migrate(&self) -> (r: Weight)
        ensures
            r == self.spec_migrate(),
    ;

    /// An upgrade trigger that found nothing to do.
    fn on_runtime_upgrade_noop(&self) -> (r: Weight)
        ensures
            r == self.spec_on_runtime_upgrade_noop(),
    ;

    /// An upgrade trigger that found a migration in progress.
    fn on_runtime_upgrade_in_progress(&self) -> (r: Weight)
        ensures
            r == self.spec_on_runtime_upgrade_in_progress(),
    ;

    /// An upgrade trigger that started a migration.
    fn on_runtime_upgrade(&self) -> (r: Weight)
        ensures
            r == self.spec_on_runtime_upgrade(),
    ;
}

/// Benchmarked weights, priced with the host's database read and write
/// weights.
#[derive(Clone, Copy, Debug, PartialEq, Eq, Structural)]
pub struct SubstrateWeight {
    pub db: RuntimeDbWeight,
}

impl SubstrateWeight {
    pub fn new(db: RuntimeDbWeight) -> (r: SubstrateWeight)
        ensures
            r.db == db,
    {
        SubstrateWeight { db }
    }

    /// The fixed cost of a migration call covers that of a call that finds
    /// nothing to do, and takes some computation time.
    pub proof fn lemma_migrate_covers_noop(&self)
        ensures
            self.spec_migrate().spec_all_gte(self.spec_migration_noop()),
            self.spec_migrate().ref_time > 0,
    {
    }
}

impl WeightInfo for SubstrateWeight {
    open spec fn spec_migration_noop(&self) -> Weight {
        Weight { ref_time: 3_489_000, proof_size: 1627 }.spec_saturating_add(
            self.db.spec_reads(1),
        ).spec_saturating_add(self.db.spec_writes(1))
    }

    open spec fn spec_migrate(&self) -> Weight {
        Weight { ref_time: 13_100_000, proof_size: 3631 }.spec_saturating_add(
            self.db.spec_reads(2),
        ).spec_saturating_add(self.db.spec_writes(2))
    }

    open spec fn spec_on_runtime_upgrade_noop(&self) -> Weight {
        Weight { ref_time: 4_994_000, proof_size: 3607 }.spec_saturating_add(self.db.spec_reads(1))
    }

    open spec fn spec_on_runtime_upgrade_in_progress(&self) -> Weight {
        Weight { ref_time: 6_945_000, proof_size: 3632 }.spec_saturating_add(self.db.spec_reads(2))
    }

    open spec fn spec_on_runtime_upgrade(&self) -> Weight {
        Weight { ref_time: 7_372_000, proof_size: 3607 }.spec_saturating_add(
            self.db.spec_reads(2),
        ).spec_saturating_add(self.db.spec_writes(1))
    }

    fn migration_noop(&self) -> (r: Weight) {
        Weight::from_parts(3_489_000, 1627).saturating_add(&self.db.reads(1)).saturating_add(
            &self.db.writes(1),
        )
    }

    fn migrate(&self) -> (r: Weight) {
        Weight::from_parts(13_100_000, 3631).saturating_add(&self.db.reads(2)).saturating_add(
            &self.db.writes(2),
        )
    }

    fn on_runtime_upgrade_noop(&self) -> (r: Weight) {
        Weight::from_parts(4_994_000, 3607).saturating_add(&self.db.reads(1))
    }

    fn on_runtime_upgrade_in_progress(&self) -> (r: Weight) {
        Weight::from_parts(6_945_000, 3632).saturating_add(&self.db.reads(2))
    }

    fn on_runtime_upgrade(&self) -> (r: Weight) {
        Weight::from_parts(7_372_000, 3607).saturating_add(&self.db.reads(2)).saturating_add(
            &self.db.writes(1),
        )
    }
}

} // verus!

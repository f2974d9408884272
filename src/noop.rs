use vstd::prelude::*;
use crate::step::{IsFinished, MigrationStep};
use crate::weight::Weight;

verus! {

/// A step that does nothing: it holds the slot of a version that needs no
/// data migration, so that a sequence stays contiguous.
#[derive(Clone, Copy, Debug, PartialEq, Eq, Structural)]
pub struct NoopMigration {
    pub version: u16,
}

impl NoopMigration {
    pub fn new(version: u16) -> (r: NoopMigration)
        ensures
            r.version == version,
    {
        NoopMigration { version }
    }
}

impl MigrationStep for NoopMigration {
    open spec fn spec_version(&self) -> u16 {
        self.version
    }

    open spec fn spec_max_step_weight(&self) -> Weight {
        Weight::spec_zero()
    }

    open spec fn spec_max_encoded_len(&self) -> nat {
        0
    }

    open spec fn spec_step(&self) -> (bool, Weight, Self) {
        (true, Weight::spec_zero(), *self)
    }

    open spec fn spec_encode(&self) -> Seq<u8> {
        Seq::empty()
    }

    open spec fn spec_decode(&self, bytes: Seq<u8>) -> Option<Self> {
        Some(*self)
    }

    open spec fn spec_default(&self) -> Self {
        *self
    }

    proof fn lemma_default(&self) {
    }

    proof fn lemma_step(&self) {
    }

    proof fn lemma_round_trip(&self, template: Self) {
    }

    proof fn lemma_decode(&self, bytes: Seq<u8>) {
    }

    fn default_state(&self) -> (r: Self) {
        NoopMigration { version: self.version }
    }

    fn version(&self) -> (r: u16) {
        self.version
    }

    fn max_step_weight(&self) -> (r: Weight) {
        Weight::zero()
    }

    fn max_encoded_len(&self) -> (r: usize) {
        0
    }

    fn step(&mut self) -> (r: (IsFinished, Weight)) {
        (IsFinished::Yes, Weight::zero())
    }

    open spec fn spec_pre_upgrade(&self) -> Result<Seq<u8>, Seq<char>> {
        Ok(Seq::empty())
    }

    open spec fn spec_post_upgrade(&self, state: Seq<u8>) -> Result<(), Seq<char>> {
        Ok(())
    }

    fn pre_upgrade_step(&self) -> (r: Result<Vec<u8>, String>) {
        Ok(Vec::new())
    }

    fn post_upgrade_step(&self, state: Vec<u8>) -> (r: Result<(), String>) {
        Ok(())
    }

    fn encode(&self) -> (r: Vec<u8>) {
        Vec::new()
    }

    fn decode(&self, bytes: &[u8]) -> (r: Option<Self>) {
        Some(NoopMigration { version: self.version })
    }
}

} // verus!

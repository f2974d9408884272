//! Multi-block migrations.
//!
//! A store is moved from one schema version to the next through an ordered,
//! gap-free sequence of migration steps. Each step runs in bounded calls that
//! are paid for out of a per-invocation weight budget; between invocations the
//! in-progress state of the running step is kept as a bounded cursor.
pub mod batch;
pub mod cursor;
pub mod migration;
pub mod noop;
pub mod sequence;
pub mod step;
pub mod weight;
pub mod weights;

pub use batch::BatchMigration;
pub use cursor::{Cursor, MAX_CURSOR_LEN};
pub use migration::{
    DryRunError, MigrateResult, Migration, MigrationError, MigrationStore, UpgradeError, UpgradeOutcome,
};
pub use noop::NoopMigration;
pub use sequence::{MigrateSequence, SequenceError, StepResult};
pub use step::{IntegrityError, IsFinished, MigrationStep};
pub use weight::{RuntimeDbWeight, Weight};
pub use weights::{SubstrateWeight, WeightInfo};

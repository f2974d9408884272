use vstd::prelude::*;
use crate::cursor::Cursor;
use crate::sequence::{MigrateSequence, StepResult, can_pay};
use crate::step::{
    MigrationStep, completes_in, finishes_at, iterate, lemma_completes_unique, lemma_extend_completes,
    lemma_resume_completes, lemma_spent_nonneg, spent_proof_size,
    spent_ref_time, unfinished_for,
};
use crate::weight::Weight;
use crate::weights::{SubstrateWeight, WeightInfo};

verus! {

/// The result of one migration call.
#[derive(Clone, Copy, Debug, PartialEq, Eq, Structural)]
pub enum MigrateResult {
    /// The budget did not cover the call's own fixed cost; nothing was done.
    NoMigrationPerformed,
    /// No migration is in progress.
    NoMigrationInProgress,
    /// A migration is in progress; `steps_done` calls of the running step
    /// were made. Zero means no progress could be made with this budget.
    InProgress { steps_done: u32 },
    /// The last step of the sequence finished.
    Completed,
}

/// What an upgrade trigger did.
#[derive(Clone, Copy, Debug, PartialEq, Eq, Structural)]
pub enum UpgradeOutcome {
    /// The store is already at the target version.
    NoUpgradeNeeded,
    /// A migration to the target version was started.
    Started,
}

/// Why an upgrade trigger was rejected.
#[derive(Clone, Copy, Debug, PartialEq, Eq, Structural)]
pub enum UpgradeError {
    /// A migration is already in progress.
    MigrationInProgress,
    /// The sequence does not migrate from the stored version to the target.
    UnsupportedUpgrade,
}

/// A store operation was refused because a migration is in progress.
#[derive(Clone, Copy, Debug, PartialEq, Eq, Structural)]
pub enum MigrationError {
    MigrationInProgress,
}

/// Why a dry run stopped before the migration completed.
#[derive(Debug, PartialEq, Eq)]
pub enum DryRunError {
    /// No migration was in progress when a round began.
    NoMigrationInProgress,
    /// A step's checks before it ran failed.
    PreUpgrade(String),
    /// A step's checks after it ran failed.
    PostUpgrade(String),
    /// The migration did not complete within the allowed rounds.
    Unfinished,
}

/// The persisted state the engine reads and writes: the store's schema
/// version and the cursor of the migration in progress, if any.
#[derive(Debug, PartialEq, Eq)]
pub struct MigrationStore {
    pub version: u16,
    pub cursor: Option<Cursor>,
}

impl MigrationStore {
    pub fn new(version: u16) -> (r: MigrationStore)
        ensures
            r.version == version,
            r.cursor is None,
    {
        MigrationStore { version, cursor: None }
    }

    /// Whether a migration is in progress.
    pub fn in_progress(&self) -> (r: bool)
        ensures
            r == self.cursor is Some,
    {
        self.cursor.is_some()
    }

    /// Fails exactly when a migration is in progress.
    pub fn ensure_not_in_progress(&self) -> (r: Result<(), MigrationError>)
        ensures
            r is Err <==> self.cursor is Some,
            r matches Err(e) ==> e == MigrationError::MigrationInProgress,
    {
        if self.in_progress() {
            Err(MigrationError::MigrationInProgress)
        } else {
            Ok(())
        }
    }
}

/// Whether a migration call that returned `m` made progress.
pub open spec fn makes_progress(m: MigrateResult) -> bool {
    m matches MigrateResult::InProgress { steps_done } && steps_done > 0
}

/// Computation time consumed by the first `k` of the migration calls `calls`.
pub open spec fn calls_ref_time(calls: Seq<(MigrateResult, Weight)>, k: nat) -> int
    decreases k,
{
    if k == 0 {
        0
    } else {
        calls_ref_time(calls, (k - 1) as nat) + calls[k - 1].1.ref_time
    }
}

/// Proof size consumed by the first `k` of the migration calls `calls`.
pub open spec fn calls_proof_size(calls: Seq<(MigrateResult, Weight)>, k: nat) -> int
    decreases k,
{
    if k == 0 {
        0
    } else {
        calls_proof_size(calls, (k - 1) as nat) + calls[k - 1].1.proof_size
    }
}

/// What is left of `budget` after the first `k` of the migration calls
/// `calls`.
pub open spec fn budget_left(budget: Weight, calls: Seq<(MigrateResult, Weight)>, k: nat) -> Weight {
    Weight {
        ref_time: (budget.ref_time - calls_ref_time(calls, k)) as u64,
        proof_size: (budget.proof_size - calls_proof_size(calls, k)) as u64,
    }
}

/// Appending a call leaves the sums over the earlier calls as they were.
pub proof fn lemma_calls_prefix(calls: Seq<(MigrateResult, Weight)>, x: (MigrateResult, Weight), k: nat)
    requires
        k <= calls.len(),
    ensures
        calls_ref_time(calls.push(x), k) == calls_ref_time(calls, k),
        calls_proof_size(calls.push(x), k) == calls_proof_size(calls, k),
    decreases k,
{
    if k > 0 {
        lemma_calls_prefix(calls, x, (k - 1) as nat);
        assert(calls.push(x)[k - 1] == calls[k - 1]);
    }
}

/// Whether a dry-run round that returned `r` passed its checks without
/// completing the migration.
pub open spec fn round_continues(r: Result<(MigrateResult, Weight), DryRunError>) -> bool {
    r matches Ok(m) && !(m.0 is Completed)
}

/// The weight consumed by the first `k` of the dry-run rounds `rounds`, added
/// with saturation.
pub open spec fn rounds_total(rounds: Seq<Result<(MigrateResult, Weight), DryRunError>>, k: nat) -> Weight
    decreases k,
{
    if k == 0 {
        Weight::spec_zero()
    } else {
        rounds_total(rounds, (k - 1) as nat).spec_saturating_add(rounds[k - 1]->Ok_0.1)
    }
}

/// Appending a round leaves the total over the earlier rounds as it was.
pub proof fn lemma_rounds_prefix(
    rounds: Seq<Result<(MigrateResult, Weight), DryRunError>>,
    x: Result<(MigrateResult, Weight), DryRunError>,
    k: nat,
)
    requires
        k <= rounds.len(),
    ensures
        rounds_total(rounds.push(x), k) == rounds_total(rounds, k),
    decreases k,
{
    if k > 0 {
        lemma_rounds_prefix(rounds, x, (k - 1) as nat);
        assert(rounds.push(x)[k - 1] == rounds[k - 1]);
    }
}

/// Drives one sequence of steps towards the target schema version.
pub struct Migration<S> {
    pub sequence: MigrateSequence<S>,
    pub target: u16,
    pub weights: SubstrateWeight,
}

impl<S: MigrationStep> Migration<S> {
    pub open spec fn wf(&self) -> bool {
        self.sequence.wf()
    }

    /// Whether `store` is in a state this engine leaves behind: a cursor
    /// exists only while the store is on its way to the target along the
    /// sequence, and it decodes as a state of the step for the next version.
    pub open spec fn consistent(&self, store: MigrationStore) -> bool {
        store.cursor matches Some(c) ==> {
            &&& self.target == self.sequence.spec_high()
            &&& self.sequence.spec_has_version((store.version + 1) as u16)
            &&& store.version < u16::MAX
            &&& self.sequence.spec_decodes((store.version + 1) as u16, c@)
        }
    }

    /// Checks a store read back from persistence for the consistency that
    /// `migrate`, `trigger_upgrade`, `on_idle` and `run_all_steps` require.
    pub fn is_consistent(&self, store: &MigrationStore) -> (r: bool)
        requires
            self.wf(),
        ensures
            r == self.consistent(*store),
    {
        match &store.cursor {
            None => true,
            Some(c) => {
                let (low, high) = self.sequence.version_range();
                if self.target != high || store.version == u16::MAX {
                    return false;
                }
                let v = store.version + 1;
                if v < low || v > high {
                    return false;
                }
                self.sequence.decodes(v, c.as_bytes())
            },
        }
    }

    /// The state of the running step that `store`'s cursor holds.
    pub open spec fn spec_running(&self, store: MigrationStore) -> S {
        self.sequence.spec_decoded((store.version + 1) as u16, store.cursor->Some_0@)
    }

    pub fn new(sequence: MigrateSequence<S>, target: u16, weights: SubstrateWeight) -> (r: Migration<S>)
        ensures
            r.sequence == sequence,
            r.target == target,
            r.weights == weights,
    {
        Migration { sequence, target, weights }
    }

    /// Starts a migration to the target version: does nothing when the
    /// store is already there, and is rejected without any change when a
    /// migration is in progress or when the sequence does not lead from the
    /// stored version to the target. Otherwise it writes the default cursor
    /// of the step for the next version.
    pub fn trigger_upgrade(&self, store: &mut MigrationStore) -> (r: (
        Result<UpgradeOutcome, UpgradeError>,
        Weight,
    ))
        requires
            self.wf(),
            self.consistent(*old(store)),
        ensures
            self.consistent(*final(store)),
            old(store).version == self.target ==> r == (
                Ok::<UpgradeOutcome, UpgradeError>(UpgradeOutcome::NoUpgradeNeeded),
                self.weights.spec_on_runtime_upgrade_noop(),
            ),
            old(store).version != self.target && old(store).cursor is Some ==> r == (
                Err::<UpgradeOutcome, UpgradeError>(UpgradeError::MigrationInProgress),
                self.weights.spec_on_runtime_upgrade_in_progress(),
            ),
            old(store).version != self.target && old(store).cursor is None && !self.sequence.spec_supports(
                old(store).version,
                self.target,
            ) ==> r == (
                Err::<UpgradeOutcome, UpgradeError>(UpgradeError::UnsupportedUpgrade),
                self.weights.spec_on_runtime_upgrade_noop(),
            ),
            old(store).version != self.target && old(store).cursor is None && self.sequence.spec_supports(
                old(store).version,
                self.target,
            ) ==> {
                &&& r == (
                    Ok::<UpgradeOutcome, UpgradeError>(UpgradeOutcome::Started),
                    self.weights.spec_on_runtime_upgrade(),
                )
                &&& final(store).version == old(store).version
                &&& final(store).cursor is Some
                &&& final(store).cursor->Some_0@ == self.sequence.spec_step_for(
                    self.sequence.spec_low(),
                ).spec_default().spec_encode()
                &&& self.spec_running(*final(store)) == self.sequence.spec_step_for(
                    self.sequence.spec_low(),
                ).spec_default()
            },
            r.0 != Ok::<UpgradeOutcome, UpgradeError>(UpgradeOutcome::Started) ==> *final(store)
                == *old(store),
            old(store).cursor is Some ==> {
                &&& r.0 == Err::<UpgradeOutcome, UpgradeError>(UpgradeError::MigrationInProgress)
                &&& *final(store) == *old(store)
            },
    {
        if store.version == self.target {
            return (Ok(UpgradeOutcome::NoUpgradeNeeded), self.weights.on_runtime_upgrade_noop());
        }
        if store.in_progress() {
            return (Err(UpgradeError::MigrationInProgress), self.weights.on_runtime_upgrade_in_progress());
        }
        if !self.sequence.is_upgrade_supported(store.version, self.target) {
            return (Err(UpgradeError::UnsupportedUpgrade), self.weights.on_runtime_upgrade_noop());
        }
        proof {
            self.sequence.lemma_positions(0);
        }
        let cursor = self.sequence.new_cursor(store.version + 1);
        store.cursor = Some(cursor);
        (Ok(UpgradeOutcome::Started), self.weights.on_runtime_upgrade())
    }

    /// Advances the migration in progress with at most `weight_limit`:
    /// reserves the call's fixed cost, runs the step for the version after
    /// the stored one, and records where it stopped. When that step finishes
    /// the stored version advances and the next step's default cursor is
    /// written, or the cursor is cleared when the target is reached. A call
    /// that makes no progress leaves the store unchanged. Returns the result
    /// and the weight consumed.
    pub fn migrate(&self, store: &mut MigrationStore, weight_limit: Weight) -> (r: (MigrateResult, Weight))
        requires
            self.wf(),
            self.consistent(*old(store)),
        ensures
            self.consistent(*final(store)),
            self.spec_migrate_post(*old(store), *final(store), weight_limit, r),
    {
        let mut weight_left = weight_limit;
        let base = self.weights.migrate();
        if !weight_left.checked_reduce(&base) {
            return (MigrateResult::NoMigrationPerformed, Weight::zero());
        }
        proof {
            self.weights.lemma_migrate_covers_noop();
        }
        let in_progress_version: u16;
        let result = match &store.cursor {
            None => {
                return (MigrateResult::NoMigrationInProgress, self.weights.migration_noop());
            },
            Some(c) => {
                in_progress_version = store.version + 1;
                self.sequence.steps(in_progress_version, c, &mut weight_left)
            },
        };
        let ghost s0 = self.spec_running(*store);
        proof {
            lemma_spent_nonneg(s0, result.spec_steps_done() as nat);
        }
        let r = match result {
            StepResult::InProgress { cursor, steps_done } => {
                if steps_done > 0 {
                    store.cursor = Some(cursor);
                }
                MigrateResult::InProgress { steps_done }
            },
            StepResult::Completed { steps_done } => {
                store.version = in_progress_version;
                if in_progress_version != self.target {
                    proof {
                        self.sequence.lemma_positions(self.sequence@.len() - 1);
                    }
                    store.cursor = Some(self.sequence.new_cursor(in_progress_version + 1));
                    MigrateResult::InProgress { steps_done }
                } else {
                    store.cursor = None;
                    proof {
                        assert(completes_in(s0, self.spec_total_calls(*old(store))));
                    }
                    MigrateResult::Completed
                }
            },
        };
        (r, weight_limit.saturating_sub(&weight_left))
    }

    /// What a migration call with `weight_limit` that turned `before` into
    /// `after` and returned `r` has done.
    ///
    /// Below the fixed cost nothing happens; with no migration in progress
    /// only the lookup is charged. Otherwise the running step was called
    /// while the budget left after the fixed cost covered its ceiling, and
    /// `r.1` is the fixed cost plus what those calls consumed. A step that did
    /// not finish stopped only because the budget no longer covered a call
    /// (or the call count reached `u32::MAX`), and its cursor holds the state
    /// reached, unless no call was made, in which case nothing changed. A step
    /// that finished advanced the stored version and either installed the
    /// next step's default cursor or, at the target, cleared the cursor.
    pub open spec fn spec_migrate_post(
        &self,
        before: MigrationStore,
        after: MigrationStore,
        weight_limit: Weight,
        r: (MigrateResult, Weight),
    ) -> bool {
        let base = self.weights.spec_migrate();
        let budget = weight_limit.spec_saturating_sub(base);
        let s0 = self.spec_running(before);
        let v = (before.version + 1) as u16;
        &&& weight_limit.spec_all_gte(r.1)
        &&& !weight_limit.spec_all_gte(base) ==> {
            &&& r == (MigrateResult::NoMigrationPerformed, Weight::spec_zero())
            &&& after == before
        }
        &&& weight_limit.spec_all_gte(base) && before.cursor is None ==> {
            &&& r == (MigrateResult::NoMigrationInProgress, self.weights.spec_migration_noop())
            &&& after == before
        }
        &&& weight_limit.spec_all_gte(base) && before.cursor is Some ==> {
            &&& r.0 is InProgress || r.0 is Completed
            &&& r.1.spec_all_gte(base)
        }
        &&& r.0 is Completed ==> {
            &&& before.cursor is Some
            &&& completes_in(s0, self.spec_total_calls(before))
            &&& self.spec_ran(before, weight_limit, r.1, self.spec_total_calls(before))
            &&& v == self.target
            &&& after.version == v
            &&& after.cursor is None
        }
        &&& r.0 matches MigrateResult::InProgress { steps_done } ==> {
            &&& before.cursor is Some
            &&& after.cursor is Some
            &&& self.spec_ran(before, weight_limit, r.1, steps_done as nat)
            &&& if completes_in(s0, steps_done as nat) {
                &&& after.version == v
                &&& v != self.target
                &&& after.cursor->Some_0@ == self.sequence.spec_step_for((v + 1) as u16).spec_default().spec_encode()
                &&& self.spec_running(after) == self.sequence.spec_step_for((v + 1) as u16).spec_default()
            } else {
                &&& unfinished_for(s0, steps_done as nat)
                &&& steps_done == u32::MAX || !can_pay(budget, s0, steps_done as nat)
                &&& after.version == before.version
                &&& steps_done == 0 ==> after == before
                &&& steps_done > 0 ==> after.cursor->Some_0@ == iterate(s0, steps_done as nat).spec_encode()
                &&& steps_done > 0 ==> self.spec_running(after) == iterate(s0, steps_done as nat)
            }
        }
    }

    /// Whether migration call number `i` of `calls` took `stores[i]` to
    /// `stores[i + 1]` and was handed what the earlier calls left of
    /// `budget`.
    pub open spec fn drain_call(
        &self,
        stores: Seq<MigrationStore>,
        calls: Seq<(MigrateResult, Weight)>,
        budget: Weight,
        i: int,
    ) -> bool {
        self.spec_migrate_post(stores[i], stores[i + 1], budget_left(budget, calls, i as nat), calls[i])
    }

    /// Whether the migration calls `calls`, through the stores `stores`,
    /// drain `budget`: each call is handed what the earlier ones left, every
    /// call but the last made progress, and the last one did not.
    pub open spec fn spec_drain(
        &self,
        stores: Seq<MigrationStore>,
        calls: Seq<(MigrateResult, Weight)>,
        budget: Weight,
    ) -> bool {
        &&& calls.len() > 0
        &&& stores.len() == calls.len() + 1
        &&& forall|i: int| 0 <= i < calls.len() ==> #[trigger] self.drain_call(stores, calls, budget, i)
        &&& forall|i: int| 0 <= i < calls.len() - 1 ==> makes_progress(#[trigger] calls[i].0)
        &&& !makes_progress(calls.last().0)
    }

    /// What a dry-run round that turned `before` into `after` and returned
    /// `r` has done: a failing check before the step ends it with that
    /// message and no change; otherwise one migration call with an unlimited
    /// budget was made, and the checks after the step, handed what the checks
    /// before it returned, decide between the call's result and their
    /// message.
    pub open spec fn spec_round_post(
        &self,
        before: MigrationStore,
        after: MigrationStore,
        r: Result<(MigrateResult, Weight), DryRunError>,
    ) -> bool {
        let step = self.sequence.spec_step_for((before.version + 1) as u16);
        &&& step.spec_pre_upgrade() is Err ==> {
            &&& after == before
            &&& r matches Err(DryRunError::PreUpgrade(e)) && step.spec_pre_upgrade() == Err::<
                Seq<u8>,
                Seq<char>,
            >(e@)
        }
        &&& step.spec_pre_upgrade() matches Ok(state) ==> exists|m: (MigrateResult, Weight)|
            {
                &&& #[trigger] self.spec_migrate_post(before, after, Weight::spec_max(), m)
                &&& step.spec_post_upgrade(state) is Ok ==> r == Ok::<(MigrateResult, Weight), DryRunError>(m)
                &&& step.spec_post_upgrade(state) is Err ==> (r matches Err(DryRunError::PostUpgrade(e))
                    && step.spec_post_upgrade(state) == Err::<(), Seq<char>>(e@))
            }
    }

    /// Whether dry-run round number `i` of `rounds` took `stores[i]` to
    /// `stores[i + 1]`.
    pub open spec fn round_step(
        &self,
        stores: Seq<MigrationStore>,
        rounds: Seq<Result<(MigrateResult, Weight), DryRunError>>,
        i: int,
    ) -> bool {
        self.spec_round_post(stores[i], stores[i + 1], rounds[i])
    }

    /// Whether the dry-run rounds `rounds` ran one after another through the
    /// stores `stores`, each but the last passing its checks without
    /// completing the migration.
    pub open spec fn spec_rounds(
        &self,
        stores: Seq<MigrationStore>,
        rounds: Seq<Result<(MigrateResult, Weight), DryRunError>>,
    ) -> bool {
        &&& stores.len() == rounds.len() + 1
        &&& forall|i: int| 0 <= i < rounds.len() ==> #[trigger] self.round_step(stores, rounds, i)
        &&& forall|i: int| 0 <= i < rounds.len() - 1 ==> round_continues(#[trigger] rounds[i])
    }

    /// Whether a migration call on `store` with `weight_limit` that made
    /// `n` calls of the running step consumed `cost`: the fixed cost plus
    /// exactly what those calls consumed, each call started only while the
    /// budget left covered the step's ceiling.
    pub open spec fn spec_ran(&self, store: MigrationStore, weight_limit: Weight, cost: Weight, n: nat) -> bool {
        let s0 = self.spec_running(store);
        let base = self.weights.spec_migrate();
        let budget = weight_limit.spec_saturating_sub(base);
        &&& cost.ref_time == base.ref_time + spent_ref_time(s0, n)
        &&& cost.proof_size == base.proof_size + spent_proof_size(s0, n)
        &&& forall|i: nat| i < n ==> #[trigger] can_pay(budget, s0, i)
    }

    /// The number of calls in which the running step of `store` completes,
    /// where there is one.
    pub open spec fn spec_total_calls(&self, store: MigrationStore) -> nat {
        choose|n: nat| completes_in(self.spec_running(store), n)
    }

    /// Spends what it can of `remaining_weight` on the migration in
    /// progress: calls `migrate` again after every call that made progress,
    /// and stops at the first call that could do nothing, made no progress,
    /// found no migration in progress or completed it. When it stops on a
    /// call without progress, what is left does not pay for one call of the
    /// running step. Returns the result of that last call and the weight
    /// consumed in all.
    pub fn on_idle(&self, store: &mut MigrationStore, remaining_weight: Weight) -> (r: (MigrateResult, Weight))
        requires
            self.wf(),
            self.consistent(*old(store)),
        ensures
            self.consistent(*final(store)),
            remaining_weight.spec_all_gte(r.1),
            !remaining_weight.spec_all_gte(self.weights.spec_migrate()) ==> {
                &&& r == (MigrateResult::NoMigrationPerformed, Weight::spec_zero())
                &&& *final(store) == *old(store)
            },
            remaining_weight.spec_all_gte(self.weights.spec_migrate()) && old(store).cursor is None ==> {
                &&& r == (MigrateResult::NoMigrationInProgress, self.weights.spec_migration_noop())
                &&& *final(store) == *old(store)
            },
            remaining_weight.spec_all_gte(self.weights.spec_migrate()) && old(store).cursor is Some
                && !can_pay(
                remaining_weight.spec_saturating_sub(self.weights.spec_migrate()),
                self.spec_running(*old(store)),
                0,
            ) ==> {
                &&& r == (MigrateResult::InProgress { steps_done: 0 }, self.weights.spec_migrate())
                &&& *final(store) == *old(store)
            },
            r.0 matches MigrateResult::InProgress { steps_done } ==> {
                &&& steps_done == 0
                &&& final(store).cursor is Some
                &&& !can_pay(remaining_weight.spec_saturating_sub(r.1), self.spec_running(*final(store)), 0)
            },
            r.0 is NoMigrationPerformed ==> !remaining_weight.spec_saturating_sub(r.1).spec_all_gte(
                self.weights.spec_migrate(),
            ),
            r.0 is Completed ==> final(store).cursor is None && final(store).version == self.target,
            r.0 is NoMigrationInProgress ==> final(store).cursor is None,
            exists|stores: Seq<MigrationStore>, calls: Seq<(MigrateResult, Weight)>|
                {
                    &&& #[trigger] self.spec_drain(stores, calls, remaining_weight)
                    &&& stores[0] == *old(store)
                    &&& stores.last() == *final(store)
                    &&& r.0 == calls.last().0
                    &&& r.1.ref_time == calls_ref_time(calls, calls.len())
                    &&& r.1.proof_size == calls_proof_size(calls, calls.len())
                },
    {
        let mut remaining = remaining_weight;
        proof {
            self.weights.lemma_migrate_covers_noop();
        }
        let (first, first_used) = self.migrate(store, remaining);
        remaining.saturating_reduce(&first_used);
        let mut last = first;
        let mut done = match first {
            MigrateResult::InProgress { steps_done } => steps_done == 0,
            _ => true,
        };
        let ghost after_first = *store;
        let ghost first_done = done;
        let ghost mut stores: Seq<MigrationStore> = seq![*old(store), *store];
        let ghost mut calls: Seq<(MigrateResult, Weight)> = seq![(first, first_used)];
        proof {
            assert(self.drain_call(stores, calls, remaining_weight, 0));
        }
        while !done
            invariant
                calls.len() > 0,
                stores.len() == calls.len() + 1,
                stores[0] == *old(store),
                stores.last() == *store,
                forall|i: int| 0 <= i < calls.len() ==> #[trigger] self.drain_call(stores, calls, remaining_weight, i),
                forall|i: int| 0 <= i < calls.len() - 1 ==> makes_progress(#[trigger] calls[i].0),
                last == calls.last().0,
                done == !makes_progress(last),
                remaining.ref_time == remaining_weight.ref_time - calls_ref_time(calls, calls.len()),
                remaining.proof_size == remaining_weight.proof_size - calls_proof_size(calls, calls.len()),
                self.wf(),
                self.consistent(*store),
                remaining_weight.spec_all_gte(remaining),
                self.weights.spec_migrate().ref_time > 0,
                first_done ==> done && *store == after_first && last == first && remaining
                    == remaining_weight.spec_saturating_sub(first_used),
                done ==> {
                    &&& last matches MigrateResult::InProgress { steps_done } ==> {
                        &&& steps_done == 0
                        &&& store.cursor is Some
                        &&& !can_pay(remaining, self.spec_running(*store), 0)
                    }
                    &&& last is NoMigrationPerformed ==> !remaining.spec_all_gte(self.weights.spec_migrate())
                    &&& last is Completed ==> store.cursor is None && store.version == self.target
                    &&& last is NoMigrationInProgress ==> store.cursor is None
                },
            decreases remaining.ref_time, (if done { 0int } else { 1int }),
        {
            let ghost before = *store;
            let (result, used) = self.migrate(store, remaining);
            proof {
                let x = (result, used);
                lemma_calls_prefix(calls, x, calls.len());
                assert forall|k: nat| k <= calls.len() implies calls_ref_time(calls.push(x), k)
                    == calls_ref_time(calls, k) && calls_proof_size(calls.push(x), k) == calls_proof_size(
                    calls,
                    k,
                ) by {
                    lemma_calls_prefix(calls, x, k);
                }
                let stores2 = stores.push(*store);
                let calls2 = calls.push(x);
                assert forall|i: int| 0 <= i < calls2.len() implies #[trigger] self.drain_call(
                    stores2,
                    calls2,
                    remaining_weight,
                    i,
                ) by {
                    if i < calls.len() {
                        assert(self.drain_call(stores, calls, remaining_weight, i));
                        assert(stores2[i] == stores[i]);
                        assert(stores2[i + 1] == stores[i + 1]);
                        assert(calls2[i] == calls[i]);
                    } else {
                        assert(budget_left(remaining_weight, calls2, i as nat) == remaining);
                    }
                }
                assert forall|i: int| 0 <= i < calls2.len() - 1 implies makes_progress(#[trigger] calls2[i].0) by {
                    assert(calls2[i] == calls[i]);
                }
                stores = stores2;
                calls = calls2;
            }
            remaining.saturating_reduce(&used);
            last = result;
            match result {
                MigrateResult::InProgress { steps_done } => {
                    if steps_done == 0 {
                        done = true;
                    }
                },
                _ => {
                    done = true;
                },
            }
        }
        let used = remaining_weight.saturating_sub(&remaining);
        proof {
            assert(self.spec_drain(stores, calls, remaining_weight));
            assert(used.ref_time == calls_ref_time(calls, calls.len()));
            assert(used.proof_size == calls_proof_size(calls, calls.len()));
        }
        (last, used)
    }

    /// The calls of the running step made by a migration call on `before`
    /// that returned `m`.
    pub open spec fn calls_made(&self, before: MigrationStore, m: MigrateResult) -> nat {
        match m {
            MigrateResult::InProgress { steps_done } => steps_done as nat,
            MigrateResult::Completed => self.spec_total_calls(before),
            _ => 0,
        }
    }

    /// Whether migration call number `i` of a chain, handed `budgets[i]`,
    /// took `stores[i]` to `stores[i + 1]` and returned `results[i]`.
    pub open spec fn chain_call(
        &self,
        stores: Seq<MigrationStore>,
        budgets: Seq<Weight>,
        results: Seq<(MigrateResult, Weight)>,
        i: int,
    ) -> bool {
        self.spec_migrate_post(stores[i], stores[i + 1], budgets[i], results[i])
    }

    /// Whether `stores`, `budgets` and `results` form a chain of migration
    /// calls, each starting from the store the one before it left.
    pub open spec fn spec_chain(
        &self,
        stores: Seq<MigrationStore>,
        budgets: Seq<Weight>,
        results: Seq<(MigrateResult, Weight)>,
    ) -> bool {
        &&& results.len() > 0
        &&& stores.len() == results.len() + 1
        &&& budgets.len() == results.len()
        &&& forall|i: int| 0 <= i < results.len() ==> #[trigger] self.chain_call(stores, budgets, results, i)
    }

    /// Whether the chain runs the step of one version from its first store
    /// to the end: the stored version stays put until the last call, which
    /// advances it.
    pub open spec fn spec_one_version(&self, stores: Seq<MigrationStore>) -> bool {
        &&& forall|i: int| 0 < i < stores.len() - 1 ==> #[trigger] stores[i].version == stores[0].version
        &&& stores.last().version != stores[0].version
    }

    /// The calls of the running step made by the chain's calls from `k` on.
    pub open spec fn chain_calls(
        &self,
        stores: Seq<MigrationStore>,
        results: Seq<(MigrateResult, Weight)>,
        k: int,
    ) -> nat
        decreases results.len() - k,
    {
        if k < 0 || k >= results.len() {
            0
        } else {
            self.calls_made(stores[k], results[k].0) + self.chain_calls(stores, results, k + 1)
        }
    }

    proof fn lemma_chain_from(
        &self,
        stores: Seq<MigrationStore>,
        budgets: Seq<Weight>,
        results: Seq<(MigrateResult, Weight)>,
        k: int,
    )
        requires
            self.spec_chain(stores, budgets, results),
            self.spec_one_version(stores),
            0 <= k < results.len(),
            stores[k].cursor is Some,
            stores[k].version == stores[0].version,
            stores[0].version < u16::MAX,
        ensures
            completes_in(self.spec_running(stores[k]), self.chain_calls(stores, results, k)),
        decreases results.len() - k,
    {
        assert(self.chain_call(stores, budgets, results, k));
        let s0 = self.spec_running(stores[k]);
        let m = results[k].0;
        if k == results.len() - 1 {
            assert(self.chain_calls(stores, results, k + 1) == 0);
            assert(stores[k + 1] == stores.last());
        } else {
            assert(stores[k + 1].version == stores[0].version);
            assert(self.spec_migrate_post(stores[k], stores[k + 1], budgets[k], results[k]));
            assert(!(m is Completed));
            assert(stores[k + 1].cursor is Some);
            self.lemma_chain_from(stores, budgets, results, k + 1);
            if m is InProgress {
                let n = m->InProgress_steps_done;
                if n > 0 {
                    lemma_extend_completes(s0, n as nat, self.chain_calls(stores, results, k + 1));
                }
            }
        }
    }

    /// Per-version resumability: however the budgets of a chain of migration
    /// calls were chosen, the calls of the running step that the chain makes
    /// until the stored version advances add up to the one number of calls in
    /// which that step completes. So running with small budgets makes the same
    /// number of calls on each version as running with an unlimited one.
    pub proof fn lemma_calls_per_version(
        &self,
        stores: Seq<MigrationStore>,
        budgets: Seq<Weight>,
        results: Seq<(MigrateResult, Weight)>,
    )
        requires
            self.spec_chain(stores, budgets, results),
            self.spec_one_version(stores),
            self.consistent(stores[0]),
            stores[0].cursor is Some,
        ensures
            completes_in(self.spec_running(stores[0]), self.chain_calls(stores, results, 0)),
    {
        self.lemma_chain_from(stores, budgets, results, 0);
    }

    /// Two chains of migration calls from the same store that each run the
    /// step of that version to its end make the same number of calls on it,
    /// whatever budgets they were handed.
    pub proof fn lemma_same_calls_any_budgets(
        &self,
        stores_a: Seq<MigrationStore>,
        budgets_a: Seq<Weight>,
        results_a: Seq<(MigrateResult, Weight)>,
        stores_b: Seq<MigrationStore>,
        budgets_b: Seq<Weight>,
        results_b: Seq<(MigrateResult, Weight)>,
    )
        requires
            self.spec_chain(stores_a, budgets_a, results_a),
            self.spec_one_version(stores_a),
            self.spec_chain(stores_b, budgets_b, results_b),
            self.spec_one_version(stores_b),
            stores_a[0] == stores_b[0],
            self.consistent(stores_a[0]),
            stores_a[0].cursor is Some,
        ensures
            self.chain_calls(stores_a, results_a, 0) == self.chain_calls(stores_b, results_b, 0),
    {
        self.lemma_calls_per_version(stores_a, budgets_a, results_a);
        self.lemma_calls_per_version(stores_b, budgets_b, results_b);
        lemma_completes_unique(
            self.spec_running(stores_a[0]),
            self.chain_calls(stores_a, results_a, 0),
            self.chain_calls(stores_b, results_b, 0),
        );
    }

    /// Splitting the running step's work over several migration calls
    /// neither loses nor repeats calls: if the running step of `before`
    /// completes in `total` calls and a migration call made `n` calls without
    /// finishing it, leaving `after` to resume from where it stopped, then
    /// `n < total` and the running step of `after` completes in exactly the
    /// remaining `total - n` calls.
    pub proof fn lemma_resume(&self, before: MigrationStore, after: MigrationStore, n: nat, total: nat)
        requires
            completes_in(self.spec_running(before), total),
            unfinished_for(self.spec_running(before), n),
            self.spec_running(after) == iterate(self.spec_running(before), n),
        ensures
            n < total,
            completes_in(self.spec_running(after), (total - n) as nat),
    {
        let s0 = self.spec_running(before);
        if n >= total {
            assert(!finishes_at(s0, (total - 1) as nat));
        }
        lemma_resume_completes(s0, total, n);
    }

    /// One round of a dry run on the migration in progress: runs the checks
    /// before the step of the version after the stored one, and if they pass,
    /// one migration call with an unlimited budget and then that step's
    /// checks after it, handed what the checks before it returned. A failing
    /// check's message is returned; the migration call's result otherwise.
    pub fn dry_run_round(&self, store: &mut MigrationStore) -> (r: Result<(MigrateResult, Weight), DryRunError>)
        requires
            self.wf(),
            self.consistent(*old(store)),
            old(store).cursor is Some,
        ensures
            self.consistent(*final(store)),
            self.spec_round_post(*old(store), *final(store), r),
    {
        let version = store.version + 1;
        let state = match self.sequence.pre_upgrade_step(version) {
            Ok(state) => state,
            Err(e) => {
                return Err(DryRunError::PreUpgrade(e));
            },
        };
        let ghost before = *store;
        let ghost pre_state = state@;
        let (result, used) = self.migrate(store, Weight::max_value());
        proof {
            assert(self.spec_migrate_post(before, *store, Weight::spec_max(), (result, used)));
        }
        match self.sequence.post_upgrade_step(version, state) {
            Ok(()) => Ok((result, used)),
            Err(e) => Err(DryRunError::PostUpgrade(e)),
        }
    }

    /// Runs the migration in progress to completion off the critical path,
    /// for validation, one `dry_run_round` after another. Stops with the
    /// total weight consumed once a round completes the migration, with the
    /// first failing check, or after `max_rounds` rounds.
    pub fn run_all_steps(&self, store: &mut MigrationStore, max_rounds: u32) -> (r: Result<Weight, DryRunError>)
        requires
            self.wf(),
            self.consistent(*old(store)),
        ensures
            self.consistent(*final(store)),
            (r == Err::<Weight, DryRunError>(DryRunError::NoMigrationInProgress)) <==> old(store).cursor is None,
            old(store).cursor is None ==> *final(store) == *old(store),
            r is Ok ==> final(store).cursor is None && final(store).version == self.target,
            r == Err::<Weight, DryRunError>(DryRunError::Unfinished) ==> final(store).cursor is Some,
            old(store).cursor is Some && max_rounds == 0 ==> r == Err::<Weight, DryRunError>(
                DryRunError::Unfinished,
            ),
            old(store).cursor is Some && max_rounds > 0 && self.sequence.spec_step_for(
                (old(store).version + 1) as u16,
            ).spec_pre_upgrade() is Err ==> {
                &&& r matches Err(DryRunError::PreUpgrade(e)) && self.sequence.spec_step_for(
                    (old(store).version + 1) as u16,
                ).spec_pre_upgrade() == Err::<Seq<u8>, Seq<char>>(e@)
                &&& *final(store) == *old(store)
            },
            old(store).cursor is Some ==> exists|
                stores: Seq<MigrationStore>,
                rounds: Seq<Result<(MigrateResult, Weight), DryRunError>>,
            |
                {
                    &&& #[trigger] self.spec_rounds(stores, rounds)
                    &&& stores[0] == *old(store)
                    &&& stores.last() == *final(store)
                    &&& rounds.len() <= max_rounds
                    &&& r is Ok ==> {
                        &&& rounds.len() > 0
                        &&& rounds.last() matches Ok(m) && m.0 is Completed
                        &&& r->Ok_0 == rounds_total(rounds, rounds.len())
                    }
                    &&& r == Err::<Weight, DryRunError>(DryRunError::Unfinished) ==> {
                        &&& rounds.len() == max_rounds
                        &&& rounds.len() > 0 ==> round_continues(rounds.last())
                    }
                    &&& r is Err && !(r->Err_0 is Unfinished) ==> {
                        &&& rounds.len() > 0
                        &&& rounds.last() == Err::<(MigrateResult, Weight), DryRunError>(r->Err_0)
                    }
                },
    {
        if !store.in_progress() {
            return Err(DryRunError::NoMigrationInProgress);
        }
        let mut total = Weight::zero();
        let mut round: u32 = 0;
        let ghost mut stores: Seq<MigrationStore> = seq![*old(store)];
        let ghost mut rounds: Seq<Result<(MigrateResult, Weight), DryRunError>> = seq![];
        while round < max_rounds
            invariant
                self.wf(),
                self.consistent(*store),
                store.cursor is Some,
                old(store).cursor is Some,
                round <= max_rounds,
                rounds.len() == round,
                stores.len() == rounds.len() + 1,
                stores[0] == *old(store),
                stores.last() == *store,
                forall|i: int| 0 <= i < rounds.len() ==> #[trigger] self.round_step(stores, rounds, i),
                forall|i: int| 0 <= i < rounds.len() ==> round_continues(#[trigger] rounds[i]),
                total == rounds_total(rounds, rounds.len()),
                round == 0 ==> *store == *old(store),
                self.sequence.spec_step_for((old(store).version + 1) as u16).spec_pre_upgrade() is Err
                    ==> round == 0,
            decreases max_rounds - round,
        {
            let rr = self.dry_run_round(store);
            proof {
                let stores2 = stores.push(*store);
                let rounds2 = rounds.push(rr);
                lemma_rounds_prefix(rounds, rr, rounds.len());
                assert forall|i: int| 0 <= i < rounds2.len() implies #[trigger] self.round_step(stores2, rounds2, i) by {
                    if i < rounds.len() {
                        assert(self.round_step(stores, rounds, i));
                        assert(stores2[i] == stores[i]);
                        assert(stores2[i + 1] == stores[i + 1]);
                        assert(rounds2[i] == rounds[i]);
                    }
                }
                assert forall|i: int| 0 <= i < rounds2.len() - 1 implies round_continues(#[trigger] rounds2[i]) by {
                    assert(rounds2[i] == rounds[i]);
                }
                stores = stores2;
                rounds = rounds2;
                assert(self.spec_rounds(stores, rounds));
            }
            match rr {
                Ok((result, used)) => {
                    total = total.saturating_add(&used);
                    match result {
                        MigrateResult::Completed => {
                            return Ok(total);
                        },
                        _ => {},
                    }
                },
                Err(e) => {
                    return Err(e);
                },
            }
            round += 1;
        }
        proof {
            assert(self.spec_rounds(stores, rounds));
        }
        Err(DryRunError::Unfinished)
    }
}

} // verus!

use vstd::prelude::*;
use crate::cursor::{Cursor, MAX_CURSOR_LEN};
use crate::step::{
    IntegrityError, bytes_result_view, unit_result_view, IsFinished, MigrationStep, completes_in, finishes_at, iterate, lemma_iterate_same_step, lemma_same_step,
    same_step, spent_proof_size, spent_ref_time, unfinished_for,
};
use crate::weight::Weight;

verus! {

/// Why a list of steps does not form a sequence.
#[derive(Clone, Copy, Debug, PartialEq, Eq, Structural)]
pub enum SequenceError {
    /// The list holds no step.
    Empty,
    /// The step at `index` does not migrate into the version right after
    /// that of the step before it.
    NotContiguous { index: usize },
    /// The step at `index` may encode to more than a cursor holds.
    CursorTooLarge { index: usize },
}

/// The result of running the step of one version.
#[derive(Debug, PartialEq, Eq)]
pub enum StepResult {
    /// The step did not finish: the budget left no longer covered a call,
    /// or the call count reached `u32::MAX` (a call count is a `u32`), so the
    /// loop may stop with budget left. `cursor` holds the state to resume
    /// from.
    InProgress { cursor: Cursor, steps_done: u32 },
    /// The step finished.
    Completed { steps_done: u32 },
}

impl StepResult {
    pub open spec fn spec_steps_done(&self) -> u32 {
        match self {
            StepResult::InProgress { steps_done, .. } => *steps_done,
            StepResult::Completed { steps_done } => *steps_done,
        }
    }
}

/// Whether the step at `i` migrates into the version right after that of
/// the step at `i - 1`.
pub open spec fn contiguous_at<S: MigrationStep>(steps: Seq<S>, i: int) -> bool {
    steps[i].spec_version() as int == steps[i - 1].spec_version() as int + 1
}

/// Whether the versions of `steps` are consecutive integers, in order.
pub open spec fn steps_contiguous<S: MigrationStep>(steps: Seq<S>) -> bool {
    forall|i: int| 0 < i < steps.len() ==> #[trigger] contiguous_at(steps, i)
}

/// Whether every step's encoding fits into a cursor.
pub open spec fn steps_fit_cursor<S: MigrationStep>(steps: Seq<S>) -> bool {
    forall|i: int| 0 <= i < steps.len() ==> #[trigger] steps[i].spec_max_encoded_len() <= MAX_CURSOR_LEN
}

/// Whether, starting with budget `w0` from state `s0`, the budget left
/// before call number `i` still covers the step's ceiling.
pub open spec fn can_pay<S: MigrationStep>(w0: Weight, s0: S, i: nat) -> bool {
    &&& w0.ref_time - spent_ref_time(s0, i) >= s0.spec_max_step_weight().ref_time
    &&& w0.proof_size - spent_proof_size(s0, i) >= s0.spec_max_step_weight().proof_size
}

/// In a contiguous list each version is the first one plus the position.
pub proof fn lemma_contiguous_offset<S: MigrationStep>(steps: Seq<S>, i: int)
    requires
        steps_contiguous(steps),
        0 <= i < steps.len(),
    ensures
        steps[i].spec_version() as int == steps[0].spec_version() as int + i,
    decreases i,
{
    if i > 0 {
        lemma_contiguous_offset(steps, i - 1);
        assert(contiguous_at(steps, i));
    }
}

/// A list in which two different positions hold the same version is never
/// contiguous, so constructing a sequence from it fails.
pub proof fn lemma_duplicate_not_contiguous<S: MigrationStep>(steps: Seq<S>, i: int, j: int)
    requires
        0 <= i < steps.len(),
        0 <= j < steps.len(),
        i != j,
        steps[i].spec_version() == steps[j].spec_version(),
    ensures
        !steps_contiguous(steps),
{
    if steps_contiguous(steps) {
        lemma_contiguous_offset(steps, i);
        lemma_contiguous_offset(steps, j);
    }
}

/// An ordered, gap-free list of migration steps, one per version, each held
/// in its default state.
pub struct MigrateSequence<S> {
    steps: Vec<S>,
}

impl<S> View for MigrateSequence<S> {
    type V = Seq<S>;

    closed spec fn view(&self) -> Seq<S> {
        self.steps@
    }
}

impl<S: MigrationStep> MigrateSequence<S> {
    pub open spec fn wf(&self) -> bool {
        &&& self@.len() > 0
        &&& steps_contiguous(self@)
        &&& steps_fit_cursor(self@)
    }

    /// The lowest version the sequence migrates into.
    pub open spec fn spec_low(&self) -> u16 {
        self@[0].spec_version()
    }

    /// The highest version the sequence migrates into.
    pub open spec fn spec_high(&self) -> u16 {
        self@.last().spec_version()
    }

    pub open spec fn spec_has_version(&self, version: u16) -> bool {
        self.spec_low() <= version <= self.spec_high()
    }

    /// The step that migrates into `version`.
    pub open spec fn spec_step_for(&self, version: u16) -> S {
        self@[version - self.spec_low()]
    }

    /// Whether `bytes` decode as a state of the step for `version`.
    pub open spec fn spec_decodes(&self, version: u16, bytes: Seq<u8>) -> bool {
        self.spec_step_for(version).spec_decode(bytes) is Some
    }

    /// The state of the step for `version` that `bytes` decode to.
    pub open spec fn spec_decoded(&self, version: u16, bytes: Seq<u8>) -> S {
        self.spec_step_for(version).spec_decode(bytes)->Some_0
    }

    pub open spec fn spec_supports(&self, in_storage: u16, target: u16) -> bool {
        target == self.spec_high() && in_storage as int + 1 == self.spec_low() as int
    }

    /// The step at position `i` migrates into `low + i`, and `spec_step_for`
    /// finds it.
    pub proof fn lemma_positions(&self, i: int)
        requires
            self.wf(),
            0 <= i < self@.len(),
        ensures
            self@[i].spec_version() as int == self.spec_low() as int + i,
            self.spec_high() as int == self.spec_low() as int + self@.len() - 1,
            self.spec_step_for(self@[i].spec_version()) == self@[i],
    {
        lemma_contiguous_offset(self@, i);
        lemma_contiguous_offset(self@, self@.len() - 1);
    }

    /// A cursor written for any state of the step for `version` fits the
    /// bound and decodes back to that same state.
    pub proof fn lemma_cursor_round_trip(&self, version: u16, s: S)
        requires
            self.wf(),
            self.spec_has_version(version),
            same_step(s, self.spec_step_for(version)),
        ensures
            s.spec_encode().len() <= MAX_CURSOR_LEN,
            self.spec_decodes(version, s.spec_encode()),
            self.spec_decoded(version, s.spec_encode()) == s,
    {
        let t = self.spec_step_for(version);
        self.lemma_positions(self@.len() - 1);
        lemma_same_step(s, t);
        s.lemma_round_trip(t);
        assert(steps_fit_cursor(self@) ==> t.spec_max_encoded_len() <= MAX_CURSOR_LEN);
    }

    /// Builds a sequence from steps given in their default states, in order
    /// of version. Fails on an empty list, on a gap or a repeated version, and
    /// on a step whose encoding may not fit into a cursor.
    pub fn new(steps: Vec<S>) -> (r: Result<Self, SequenceError>)
        ensures
            r == Err::<Self, SequenceError>(SequenceError::Empty) <==> steps@.len() == 0,
            (r matches Err(SequenceError::NotContiguous { .. })) <==> (steps@.len() > 0
                && !steps_contiguous(steps@)),
            r matches Err(SequenceError::NotContiguous { index }) ==> {
                &&& 0 < index < steps@.len()
                &&& !contiguous_at(steps@, index as int)
                &&& forall|j: int| 0 < j < index ==> #[trigger] contiguous_at(steps@, j)
            },
            (r matches Err(SequenceError::CursorTooLarge { .. })) <==> (steps@.len() > 0
                && steps_contiguous(steps@) && !steps_fit_cursor(steps@)),
            r matches Err(SequenceError::CursorTooLarge { index }) ==> {
                &&& index < steps@.len()
                &&& steps@[index as int].spec_max_encoded_len() > MAX_CURSOR_LEN
                &&& forall|j: int| 0 <= j < index ==> #[trigger] steps@[j].spec_max_encoded_len() <= MAX_CURSOR_LEN
            },
            r is Ok <==> (steps@.len() > 0 && steps_contiguous(steps@) && steps_fit_cursor(steps@)),
            r matches Ok(q) ==> q@ == steps@ && q.wf(),
    {
        if steps.len() == 0 {
            return Err(SequenceError::Empty);
        }
        let mut i: usize = 1;
        while i < steps.len()
            invariant
                1 <= i <= steps@.len(),
                forall|j: int| 0 < j < i ==> #[trigger] contiguous_at(steps@, j),
            decreases steps@.len() - i,
        {
            let prev = steps[i - 1].version();
            let cur = steps[i].version();
            if prev == u16::MAX || cur != prev + 1 {
                proof {
                    assert(!contiguous_at(steps@, i as int));
                }
                return Err(SequenceError::NotContiguous { index: i });
            }
            i += 1;
        }
        let mut k: usize = 0;
        while k < steps.len()
            invariant
                0 <= k <= steps@.len(),
                steps_contiguous(steps@),
                forall|j: int| 0 <= j < k ==> #[trigger] steps@[j].spec_max_encoded_len() <= MAX_CURSOR_LEN,
            decreases steps@.len() - k,
        {
            if steps[k].max_encoded_len() > MAX_CURSOR_LEN {
                return Err(SequenceError::CursorTooLarge { index: k });
            }
            k += 1;
        }
        Ok(MigrateSequence { steps })
    }

    /// The lowest and the highest version the sequence migrates into.
    pub fn version_range(&self) -> (r: (u16, u16))
        requires
            self.wf(),
        ensures
            r == (self.spec_low(), self.spec_high()),
    {
        (self.steps[0].version(), self.steps[self.steps.len() - 1].version())
    }

    /// Whether the sequence migrates a store at `in_storage` to `target`:
    /// it must start right above `in_storage` and end at `target`.
    pub fn is_upgrade_supported(&self, in_storage: u16, target: u16) -> (r: bool)
        requires
            self.wf(),
        ensures
            r == self.spec_supports(in_storage, target),
    {
        let (low, high) = self.version_range();
        target == high && in_storage as u32 + 1 == low as u32
    }

    /// The cursor holding the default state of the step for `version`.
    pub fn new_cursor(&self, version: u16) -> (r: Cursor)
        requires
            self.wf(),
            self.spec_has_version(version),
        ensures
            r@ == self.spec_step_for(version).spec_default().spec_encode(),
            self.spec_decodes(version, r@),
            self.spec_decoded(version, r@) == self.spec_step_for(version).spec_default(),
    {
        let low = self.steps[0].version();
        let idx: usize = (version - low) as usize;
        proof {
            self.lemma_positions(self@.len() - 1);
        }
        let template = &self.steps[idx];
        let d = template.default_state();
        let bytes = d.encode();
        proof {
            template.lemma_default();
            d.lemma_default();
            d.lemma_round_trip(*template);
            assert(steps_fit_cursor(self@) ==> self@[idx as int].spec_max_encoded_len() <= MAX_CURSOR_LEN);
        }
        Cursor::from_bytes(bytes).unwrap()
    }

    /// Whether `bytes` decode as a state of the step for `version`.
    pub fn decodes(&self, version: u16, bytes: &[u8]) -> (r: bool)
        requires
            self.wf(),
            self.spec_has_version(version),
        ensures
            r == self.spec_decodes(version, bytes@),
    {
        let low = self.steps[0].version();
        proof {
            self.lemma_positions(self@.len() - 1);
        }
        self.steps[(version - low) as usize].decode(bytes).is_some()
    }

    /// Runs the dry-run checks of the step for `version` that precede it.
    pub fn pre_upgrade_step(&self, version: u16) -> (r: Result<Vec<u8>, String>)
        requires
            self.wf(),
            self.spec_has_version(version),
        ensures
            bytes_result_view(r) == self.spec_step_for(version).spec_pre_upgrade(),
    {
        let low = self.steps[0].version();
        proof {
            self.lemma_positions(self@.len() - 1);
        }
        self.steps[(version - low) as usize].pre_upgrade_step()
    }

    /// Runs the dry-run checks of the step for `version` that follow it.
    pub fn post_upgrade_step(&self, version: u16, state: Vec<u8>) -> (r: Result<(), String>)
        requires
            self.wf(),
            self.spec_has_version(version),
        ensures
            unit_result_view(r) == self.spec_step_for(version).spec_post_upgrade(state@),
    {
        let low = self.steps[0].version();
        proof {
            self.lemma_positions(self@.len() - 1);
        }
        self.steps[(version - low) as usize].post_upgrade_step(state)
    }

    /// Runs the step for `version` from the state in `cursor` while the
    /// budget in `weight_left` covers the step's ceiling, deducting what each
    /// call consumed. Stops when the step finishes, when the budget no longer
    /// covers a call, or when the call count reaches `u32::MAX`.
    pub fn steps(&self, version: u16, cursor: &Cursor, weight_left: &mut Weight) -> (r: StepResult)
        requires
            self.wf(),
            self.spec_has_version(version),
            self.spec_decodes(version, cursor@),
        ensures
            ({
                let s0 = self.spec_decoded(version, cursor@);
                let n = r.spec_steps_done() as nat;
                &&& final(weight_left).ref_time == old(weight_left).ref_time - spent_ref_time(s0, n)
                &&& final(weight_left).proof_size == old(weight_left).proof_size - spent_proof_size(s0, n)
                &&& forall|i: nat| i < n ==> #[trigger] can_pay(*old(weight_left), s0, i)
                &&& match r {
                    StepResult::Completed { steps_done } => completes_in(s0, steps_done as nat),
                    StepResult::InProgress { cursor: c, steps_done } => {
                        &&& unfinished_for(s0, steps_done as nat)
                        &&& c@ == iterate(s0, steps_done as nat).spec_encode()
                        &&& self.spec_decodes(version, c@)
                        &&& self.spec_decoded(version, c@) == iterate(s0, steps_done as nat)
                        &&& (steps_done == u32::MAX || !final(weight_left).spec_all_gte(
                            s0.spec_max_step_weight(),
                        ))
                    },
                }
            }),
    {
        let low = self.steps[0].version();
        let idx: usize = (version - low) as usize;
        proof {
            self.lemma_positions(self@.len() - 1);
        }
        let template = &self.steps[idx];
        let mut m = template.decode(cursor.as_bytes()).unwrap();
        let ghost s0 = m;
        let ghost w0 = *weight_left;
        let max = m.max_step_weight();
        let mut steps_done: u32 = 0;
        while steps_done < u32::MAX && weight_left.all_gte(&max)
            invariant
                s0 == self.spec_decoded(version, cursor@),
                w0 == *old(weight_left),
                m == iterate(s0, steps_done as nat),
                max == s0.spec_max_step_weight(),
                unfinished_for(s0, steps_done as nat),
                weight_left.ref_time == w0.ref_time - spent_ref_time(s0, steps_done as nat),
                weight_left.proof_size == w0.proof_size - spent_proof_size(s0, steps_done as nat),
                forall|i: nat| i < steps_done ==> #[trigger] can_pay(w0, s0, i),
            decreases u32::MAX - steps_done,
        {
            proof {
                lemma_iterate_same_step(s0, steps_done as nat);
                lemma_same_step(m, s0);
                m.lemma_step();
                assert(can_pay(w0, s0, steps_done as nat));
            }
            let (finished, cost) = m.step();
            weight_left.saturating_reduce(&cost);
            steps_done += 1;
            match finished {
                IsFinished::Yes => {
                    proof {
                        assert(finishes_at(s0, (steps_done - 1) as nat));
                    }
                    return StepResult::Completed { steps_done };
                },
                IsFinished::No => {},
            }
        }
        let bytes = m.encode();
        proof {
            lemma_iterate_same_step(s0, steps_done as nat);
            template.lemma_decode(cursor@);
            lemma_same_step(m, *template);
            m.lemma_round_trip(*template);
            assert(steps_fit_cursor(self@) ==> self@[idx as int].spec_max_encoded_len() <= MAX_CURSOR_LEN);
        }
        let c = Cursor::from_bytes(bytes).unwrap();
        StepResult::InProgress { cursor: c, steps_done }
    }

    /// Runs the integrity test of every step, in order, and returns the
    /// first failure. Cursor sizes were already checked by `new`, so only a
    /// ceiling above `max_block_weight` can fail.
    pub fn integrity_test(&self, max_block_weight: Weight) -> (r: Result<(), IntegrityError>)
        requires
            self.wf(),
        ensures
            r is Ok <==> forall|i: int| 0 <= i < self@.len()
                ==> !(#[trigger] self@[i].spec_max_step_weight()).spec_any_gt(max_block_weight),
            r matches Err(e) ==> exists|i: int|
                0 <= i < self@.len() && e == (IntegrityError::StepWeightTooHigh {
                    version: #[trigger] self@[i].spec_version(),
                }) && self@[i].spec_max_step_weight().spec_any_gt(max_block_weight) && forall|j: int|
                    0 <= j < i ==> !(#[trigger] self@[j].spec_max_step_weight()).spec_any_gt(
                        max_block_weight,
                    ),
    {
        let mut k: usize = 0;
        while k < self.steps.len()
            invariant
                self.wf(),
                0 <= k <= self@.len(),
                forall|j: int| 0 <= j < k
                    ==> !(#[trigger] self@[j].spec_max_step_weight()).spec_any_gt(max_block_weight),
            decreases self@.len() - k,
        {
            match self.steps[k].integrity_test(max_block_weight) {
                Ok(()) => {},
                Err(e) => {
                    proof {
                        assert(self@[k as int].spec_max_encoded_len() <= MAX_CURSOR_LEN);
                        assert(self@[k as int].spec_max_step_weight().spec_any_gt(max_block_weight));
                        assert(e == (IntegrityError::StepWeightTooHigh {
                            version: self@[k as int].spec_version(),
                        }));
                    }
                    return Err(e);
                },
            }
            k += 1;
        }
        Ok(())
    }
}

} // verus!

use vstd::prelude::*;
use crate::cursor::MAX_CURSOR_LEN;
use crate::weight::Weight;

verus! {

/// Whether a call of [`MigrationStep::step`] finished the migration step.
#[derive(Clone, Copy, Debug, PartialEq, Eq, Structural)]
pub enum IsFinished {
    Yes,
    No,
}

/// A step that the host's limits cannot accommodate.
#[derive(Clone, Copy, Debug, PartialEq, Eq, Structural)]
pub enum IntegrityError {
    /// The step's ceiling exceeds the host's per-invocation maximum.
    StepWeightTooHigh { version: u16 },
    /// The step may encode to more than a cursor holds.
    CursorTooLarge { version: u16 },
}

/// One versioned unit of migration work.
///
/// A value of the implementing type is the progress state of the step: the
/// engine encodes it into a cursor between invocations and decodes it again,
/// using a default-state value of the same step as the template. Calls of
/// `step` are modelled by the deterministic `spec_step`.
pub trait MigrationStep: Sized {
    /// The schema version this step migrates into.
    spec fn spec_version(&self) -> u16;

    /// The most weight that one call of `step` may consume.
    spec fn spec_max_step_weight(&self) -> Weight;

    /// An upper bound on the length of any encoding of this step's state.
    spec fn spec_max_encoded_len(&self) -> nat;

    /// One call of `step` from this state: whether it finishes the step, the
    /// weight it consumes, and the state it leaves.
    spec fn spec_step(&self) -> (bool, Weight, Self);

    spec fn spec_encode(&self) -> Seq<u8>;

    /// Decoding `bytes` with `self` as the template.
    spec fn spec_decode(&self, bytes: Seq<u8>) -> Option<Self>;

    /// The default state of the step that this state belongs to: two states
    /// belong to the same step exactly when their defaults agree.
    spec fn spec_default(&self) -> Self;

    /// A state shares version, ceiling and encoding bound with its step's
    /// default state.
    proof fn lemma_default(&self)
        ensures
            self.spec_default().spec_version() == self.spec_version(),
            self.spec_default().spec_max_step_weight() == self.spec_max_step_weight(),
            self.spec_default().spec_max_encoded_len() == self.spec_max_encoded_len(),
            self.spec_default().spec_default() == self.spec_default(),
    ;

    /// A call never consumes more than the declared ceiling, and the state it
    /// leaves belongs to the same step.
    proof fn lemma_step(&self)
        ensures
            self.spec_max_step_weight().spec_all_gte(self.spec_step().1),
            self.spec_step().2.spec_default() == self.spec_default(),
    ;

    /// Decoding an encoding with a template of the same step gives the state
    /// back, and the encoding stays within the declared bound.
    proof fn lemma_round_trip(&self, template: Self)
        requires
            template.spec_default() == self.spec_default(),
        ensures
            template.spec_decode(self.spec_encode()) == Some(*self),
            self.spec_encode().len() <= self.spec_max_encoded_len(),
    ;

    /// A decoded state belongs to the same step as its template.
    proof fn lemma_decode(&self, bytes: Seq<u8>)
        ensures
            self.spec_decode(bytes) matches Some(s) ==> s.spec_default() == self.spec_default(),
    ;

    /// The default state of the step that this state belongs to.
    fn default_state(&self) -> (r: Self)
        ensures
            r == self.spec_default(),
    ;

    fn version(&self) -> (r: u16)
        ensures
            r == self.spec_version(),
    ;

    fn max_step_weight(&self) -> (r: Weight)
        ensures
            r == self.spec_max_step_weight(),
    ;

    fn max_encoded_len(&self) -> (r: usize)
        ensures
            r as nat == self.spec_max_encoded_len(),
    ;

    /// Processes one bounded piece of the migration.
    fn step(&mut self) -> (r: (IsFinished, Weight))
        ensures
            old(self).spec_step() == ((r.0 == IsFinished::Yes), r.1, *final(self)),
    ;

    /// What the dry-run checks before this step report.
    spec fn spec_pre_upgrade(&self) -> Result<Seq<u8>, Seq<char>>;

    /// What the dry-run checks after this step report, given what the checks
    /// before it returned.
    spec fn spec_post_upgrade(&self, state: Seq<u8>) -> Result<(), Seq<char>>;

    /// Checks made in a dry run before the first call of this step; what
    /// they return is handed to `post_upgrade_step`.
    fn pre_upgrade_step(&self) -> (r: Result<Vec<u8>, String>)
        ensures
            bytes_result_view(r) == self.spec_pre_upgrade(),
    ;

    /// Checks made in a dry run after the last call of this step.
    fn post_upgrade_step(&self, state: Vec<u8>) -> (r: Result<(), String>)
        ensures
            unit_result_view(r) == self.spec_post_upgrade(state@),
    ;

    /// Checks that the step's ceiling does not exceed `max_block_weight`
    /// and that its encoding always fits into a cursor.
    fn integrity_test(&self, max_block_weight: Weight) -> (r: Result<(), IntegrityError>)
        ensures
            r == (if self.spec_max_step_weight().spec_any_gt(max_block_weight) {
                Err(IntegrityError::StepWeightTooHigh { version: self.spec_version() })
            } else if self.spec_max_encoded_len() > MAX_CURSOR_LEN {
                Err(IntegrityError::CursorTooLarge { version: self.spec_version() })
            } else {
                Ok(())
            }),
    {
        if self.max_step_weight().any_gt(&max_block_weight) {
            return Err(IntegrityError::StepWeightTooHigh { version: self.version() });
        }
        if self.max_encoded_len() > MAX_CURSOR_LEN {
            return Err(IntegrityError::CursorTooLarge { version: self.version() });
        }
        Ok(())
    }

    fn encode(&self) -> (r: Vec<u8>)
        ensures
            r@ == self.spec_encode(),
    ;

    fn decode(&self, bytes: &[u8]) -> (r: Option<Self>)
        ensures
            r == self.spec_decode(bytes@),
    ;
}

/// `r` with its bytes and its message as sequences.
pub open spec fn bytes_result_view(r: Result<Vec<u8>, String>) -> Result<Seq<u8>, Seq<char>> {
    match r {
        Ok(v) => Ok(v@),
        Err(e) => Err(e@),
    }
}

/// `r` with its message as a sequence.
pub open spec fn unit_result_view(r: Result<(), String>) -> Result<(), Seq<char>> {
    match r {
        Ok(()) => Ok(()),
        Err(e) => Err(e@),
    }
}

/// Whether `a` and `b` are states of the same step.
pub open spec fn same_step<S: MigrationStep>(a: S, b: S) -> bool {
    a.spec_default() == b.spec_default()
}

/// States of the same step share version, ceiling and encoding bound.
pub proof fn lemma_same_step<S: MigrationStep>(a: S, b: S)
    requires
        same_step(a, b),
    ensures
        a.spec_version() == b.spec_version(),
        a.spec_max_step_weight() == b.spec_max_step_weight(),
        a.spec_max_encoded_len() == b.spec_max_encoded_len(),
{
    a.lemma_default();
    b.lemma_default();
}

/// The state after `k` calls of `step` from `s`.
pub open spec fn iterate<S: MigrationStep>(s: S, k: nat) -> S
    decreases k,
{
    if k == 0 {
        s
    } else {
        iterate(s, (k - 1) as nat).spec_step().2
    }
}

/// Whether call number `i` (counting from zero) from `s` finishes the step.
pub open spec fn finishes_at<S: MigrationStep>(s: S, i: nat) -> bool {
    iterate(s, i).spec_step().0
}

/// Whether none of the first `k` calls from `s` finishes the step.
pub open spec fn unfinished_for<S: MigrationStep>(s: S, k: nat) -> bool {
    forall|i: nat| i < k ==> !#[trigger] finishes_at(s, i)
}

/// Whether the step started in `s` is finished by exactly `n` calls.
pub open spec fn completes_in<S: MigrationStep>(s: S, n: nat) -> bool {
    n > 0 && unfinished_for(s, (n - 1) as nat) && finishes_at(s, (n - 1) as nat)
}

/// Computation time consumed by the first `k` calls from `s`.
pub open spec fn spent_ref_time<S: MigrationStep>(s: S, k: nat) -> int
    decreases k,
{
    if k == 0 {
        0
    } else {
        spent_ref_time(s, (k - 1) as nat) + iterate(s, (k - 1) as nat).spec_step().1.ref_time
    }
}

/// Proof size consumed by the first `k` calls from `s`.
pub open spec fn spent_proof_size<S: MigrationStep>(s: S, k: nat) -> int
    decreases k,
{
    if k == 0 {
        0
    } else {
        spent_proof_size(s, (k - 1) as nat) + iterate(s, (k - 1) as nat).spec_step().1.proof_size
    }
}

/// Calls never give weight back.
pub proof fn lemma_spent_nonneg<S: MigrationStep>(s: S, k: nat)
    ensures
        spent_ref_time(s, k) >= 0,
        spent_proof_size(s, k) >= 0,
    decreases k,
{
    if k > 0 {
        lemma_spent_nonneg(s, (k - 1) as nat);
    }
}

/// Every state reached from `s` belongs to the same step as `s`.
pub proof fn lemma_iterate_same_step<S: MigrationStep>(s: S, k: nat)
    ensures
        same_step(iterate(s, k), s),
    decreases k,
{
    if k > 0 {
        lemma_iterate_same_step(s, (k - 1) as nat);
        iterate(s, (k - 1) as nat).lemma_step();
    }
}

/// `a` calls followed by `b` calls reach the state that `a + b` calls reach.
pub proof fn lemma_iterate_split<S: MigrationStep>(s: S, a: nat, b: nat)
    ensures
        iterate(iterate(s, a), b) == iterate(s, a + b),
    decreases b,
{
    if b > 0 {
        lemma_iterate_split(s, a, (b - 1) as nat);
    }
}

/// Splitting a step's work over several invocations neither loses nor
/// repeats calls: if the step started in `s` completes in `n` calls and an
/// invocation stopped after `k < n` unfinished calls, then resuming from the
/// state it left completes in exactly the remaining `n - k` calls.
pub proof fn lemma_resume_completes<S: MigrationStep>(s: S, n: nat, k: nat)
    requires
        completes_in(s, n),
        k < n,
    ensures
        completes_in(iterate(s, k), (n - k) as nat),
{
    let r = iterate(s, k);
    assert forall|i: nat| i < (n - k - 1) as nat implies !#[trigger] finishes_at(r, i) by {
        lemma_iterate_split(s, k, i);
        assert(finishes_at(s, k + i) == finishes_at(r, i));
    }
    lemma_iterate_split(s, k, (n - k - 1) as nat);
    assert(finishes_at(s, (n - 1) as nat) == finishes_at(r, (n - k - 1) as nat));
}

/// Resuming after `k` unfinished calls and completing in `m` more calls is
/// completing in `k + m` calls from the start.
pub proof fn lemma_extend_completes<S: MigrationStep>(s: S, k: nat, m: nat)
    requires
        unfinished_for(s, k),
        completes_in(iterate(s, k), m),
    ensures
        completes_in(s, k + m),
{
    let r = iterate(s, k);
    assert forall|i: nat| i < (k + m - 1) as nat implies !#[trigger] finishes_at(s, i) by {
        if i >= k {
            lemma_iterate_split(s, k, (i - k) as nat);
            assert(finishes_at(r, (i - k) as nat) == finishes_at(s, i));
        }
    }
    lemma_iterate_split(s, k, (m - 1) as nat);
    assert(finishes_at(r, (m - 1) as nat) == finishes_at(s, (k + m - 1) as nat));
}

/// Completion takes one definite number of calls, so every way of splitting
/// the work over invocations reports the same total.
pub proof fn lemma_completes_unique<S: MigrationStep>(s: S, n: nat, m: nat)
    requires
        completes_in(s, n),
        completes_in(s, m),
    ensures
        n == m,
{
    if n < m {
        assert(!finishes_at(s, (n - 1) as nat));
    } else if m < n {
        assert(!finishes_at(s, (m - 1) as nat));
    }
}

} // verus!

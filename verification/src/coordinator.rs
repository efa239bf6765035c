//! The atomic write-sequence coordinator.
//!
//! An ordered list of mutation steps runs as one all-or-nothing unit: each
//! step's affected-row count is judged against its policy, and the first
//! mismatch or execution failure rolls the whole sequence back. A sequence
//! terminates by exactly one of commit or rollback.
//!
//! [`run`] executes a sequence against an in-memory [`Store`], snapshot in
//! hand, and is verified against the step-by-step model [`seq_outcome`] /
//! [`seq_result`]. [`SequenceDriver`] is the same decision core exposed as
//! a state machine for callers that hold a real transactional session: the
//! caller executes each statement and hands back its affected-row count,
//! the driver decides proceed, commit or roll back.

use vstd::prelude::*;

use crate::record::{Record, RecordV, RepoError};
use crate::repo::{
    count_author, has_isbn, idx_of, remove_author, rows_view, unique_isbns, update_matching, Store,
};

verus! {

/// The rule judging whether a step's affected-row count is a success.
#[derive(Clone, Copy, PartialEq, Eq, Debug)]
pub enum Policy {
    /// The count must equal this value exactly (targeted writes).
    Exact(u64),
    /// The count must be at least one (bulk predicate writes).
    AtLeastOne,
}

/// One data mutation, bound to its parameters.
pub enum Operation {
    /// Insert this record.
    Insert(Record),
    /// Rewrite title and author of the row with this `isbn`.
    Update { title: String, author: String, isbn: String },
    /// Remove the row with this `isbn`.
    Delete { isbn: String },
    /// Remove every row of this author.
    DeleteByAuthor { author: String },
}

/// Mathematical image of an [`Operation`].
pub enum OpV {
    Insert(RecordV),
    Update { title: Seq<char>, author: Seq<char>, isbn: Seq<char> },
    Delete { isbn: Seq<char> },
    DeleteByAuthor { author: Seq<char> },
}

impl View for Operation {
    type V = OpV;

    open spec fn view(&self) -> OpV {
        match self {
            Operation::Insert(r) => OpV::Insert(r@),
            Operation::Update { title, author, isbn } => OpV::Update {
                title: title@,
                author: author@,
                isbn: isbn@,
            },
            Operation::Delete { isbn } => OpV::Delete { isbn: isbn@ },
            Operation::DeleteByAuthor { author } => OpV::DeleteByAuthor { author: author@ },
        }
    }
}

/// One unit of a sequence: a mutation and the policy its affected-row
/// count must satisfy.
pub struct MutationStep {
    pub op: Operation,
    pub policy: Policy,
}

/// Mathematical image of a [`MutationStep`].
pub struct StepV {
    pub op: OpV,
    pub policy: Policy,
}

impl View for MutationStep {
    type V = StepV;

    open spec fn view(&self) -> StepV {
        StepV { op: self.op@, policy: self.policy }
    }
}

/// The images of a list of steps.
pub open spec fn steps_view(steps: Seq<MutationStep>) -> Seq<StepV> {
    steps.map_values(|s: MutationStep| s@)
}

/// Whether an affected-row count satisfies a policy.
pub open spec fn policy_ok(p: Policy, actual: nat) -> bool {
    match p {
        Policy::Exact(n) => actual == n,
        Policy::AtLeastOne => actual >= 1,
    }
}

/// Whether an operation fails to execute on this collection (the one
/// execution failure the collection itself raises: a duplicate key).
pub open spec fn op_fails(s: Seq<RecordV>, op: OpV) -> bool {
    match op {
        OpV::Insert(r) => has_isbn(s, r.isbn),
        _ => false,
    }
}

/// The collection after an operation that did not fail.
pub open spec fn op_apply(s: Seq<RecordV>, op: OpV) -> Seq<RecordV> {
    match op {
        OpV::Insert(r) => s.push(r),
        OpV::Update { title, author, isbn } => update_matching(s, title, author, isbn),
        OpV::Delete { isbn } => if has_isbn(s, isbn) {
            s.remove(idx_of(s, isbn))
        } else {
            s
        },
        OpV::DeleteByAuthor { author } => remove_author(s, author),
    }
}

/// The affected-row count of an operation that did not fail.
pub open spec fn op_count(s: Seq<RecordV>, op: OpV) -> nat {
    match op {
        OpV::Insert(_) => 1,
        OpV::Update { isbn, .. } => if has_isbn(s, isbn) {
            1
        } else {
            0
        },
        OpV::Delete { isbn } => if has_isbn(s, isbn) {
            1
        } else {
            0
        },
        OpV::DeleteByAuthor { author } => count_author(s, author),
    }
}

/// How a sequence resolves, in the model.
pub enum OutcomeV {
    /// Every step satisfied its policy; the whole effect stands.
    Committed,
    /// Step `index` returned `actual` rows against policy `expected`; no
    /// effect stands.
    Aborted { index: int, expected: Policy, actual: nat },
    /// Step `index` failed to execute; no effect stands.
    Failed { index: int, error: RepoError },
}

/// The resolution of the steps from position `i` on, starting from
/// collection `s`.
pub open spec fn seq_outcome(s: Seq<RecordV>, steps: Seq<StepV>, i: int) -> OutcomeV
    decreases steps.len() - i,
{
    if i < 0 || i >= steps.len() {
        OutcomeV::Committed
    } else {
        let st = steps[i];
        if op_fails(s, st.op) {
            OutcomeV::Failed { index: i, error: RepoError::ConstraintViolation }
        } else if !policy_ok(st.policy, op_count(s, st.op)) {
            OutcomeV::Aborted { index: i, expected: st.policy, actual: op_count(s, st.op) }
        } else {
            seq_outcome(op_apply(s, st.op), steps, i + 1)
        }
    }
}

/// The collection the steps from position `i` on commit to (meaningful
/// when they resolve to `Committed`).
pub open spec fn seq_result(s: Seq<RecordV>, steps: Seq<StepV>, i: int) -> Seq<RecordV>
    decreases steps.len() - i,
{
    if i < 0 || i >= steps.len() {
        s
    } else {
        let st = steps[i];
        if op_fails(s, st.op) || !policy_ok(st.policy, op_count(s, st.op)) {
            s
        } else {
            seq_result(op_apply(s, st.op), steps, i + 1)
        }
    }
}

/// How a sequence resolved, as reported to the caller.
#[derive(Clone, Copy, PartialEq, Eq, Debug)]
pub enum SequenceOutcome {
    /// Every step satisfied its policy; the transaction committed.
    Committed,
    /// Step `index` affected `actual` rows against policy `expected`; the
    /// transaction rolled back.
    SequenceAborted { index: usize, expected: Policy, actual: u64 },
    /// Step `index` failed to execute; the transaction rolled back.
    StepFailed { index: usize, error: RepoError },
    /// The rollback itself failed: the transaction's state is unknown.
    /// Never produced by [`run`]; reserved for callers driving a real
    /// session whose rollback can fail.
    RollbackFailure,
}

/// Whether a reported outcome agrees with a model resolution.
pub open spec fn outcome_matches(out: SequenceOutcome, o: OutcomeV) -> bool {
    match o {
        OutcomeV::Committed => out is Committed,
        OutcomeV::Aborted { index, expected, actual } => out matches
            SequenceOutcome::SequenceAborted { index: i2, expected: e2, actual: a2 } && i2 == index
            && e2 == expected && a2 == actual,
        OutcomeV::Failed { index, error } => out matches SequenceOutcome::StepFailed {
            index: i2,
            error: e2,
        } && i2 == index && e2 == error,
    }
}

/// The transaction scope of one sequence. `Committed` and `RolledBack`
/// are terminal: no sequence re-enters `InTransaction`.
#[derive(Clone, Copy, PartialEq, Eq, Debug)]
pub enum TxnState {
    Idle,
    InTransaction,
    Committed,
    RolledBack,
}

/// What the coordinator decides after one step's result.
#[derive(Clone, Copy, PartialEq, Eq, Debug)]
pub enum StepDecision {
    /// The step satisfied its policy; execute the next one.
    Proceed,
    /// The count violated the policy: roll back and report these facts.
    Abort { index: usize, expected: Policy, actual: u64 },
    /// The step failed to execute: roll back and propagate its error.
    AbortOnError { index: usize, error: RepoError },
}

/// The decision core of one atomic sequence, as a state machine.
///
/// A caller holding a real transactional session begins the scope, then
/// repeatedly takes the current step, executes it, and hands the
/// affected-row count (or the execution failure) back; the driver judges
/// it and moves the scope. Terminal states accept no further step
/// results, so a resolved sequence can never re-enter the transaction.
pub struct SequenceDriver {
    steps: Vec<MutationStep>,
    next: usize,
    state: TxnState,
}

impl SequenceDriver {
    /// The images of the steps this sequence runs.
    pub closed spec fn steps_v(&self) -> Seq<StepV> {
        steps_view(self.steps@)
    }

    /// How many steps have satisfied their policy so far.
    pub closed spec fn pos(&self) -> int {
        self.next as int
    }

    /// Where the transaction scope stands.
    pub closed spec fn txn_state(&self) -> TxnState {
        self.state
    }

    pub open spec fn wf(&self) -> bool {
        &&& 0 <= self.pos() <= self.steps_v().len()
        &&& self.txn_state() is Idle ==> self.pos() == 0
    }

    /// A fresh sequence over these steps; no transaction is open yet.
    pub fn new(steps: Vec<MutationStep>) -> (d: SequenceDriver)
        ensures
            d.wf(),
            d.txn_state() is Idle,
            d.steps_v() == steps_view(steps@),
            d.pos() == 0,
    {
        SequenceDriver { steps, next: 0, state: TxnState::Idle }
    }

    /// Opens the transaction scope.
    pub fn begin(&mut self)
        requires
            old(self).wf(),
            old(self).txn_state() is Idle,
        ensures
            final(self).wf(),
            final(self).txn_state() is InTransaction,
            final(self).steps_v() == old(self).steps_v(),
            final(self).pos() == 0,
    {
        self.state = TxnState::InTransaction;
    }

    /// Whether every step has been judged successful.
    pub fn finished(&self) -> (b: bool)
        ensures
            b == (self.pos() == self.steps_v().len()),
    {
        self.next == self.steps.len()
    }

    /// The step to execute next.
    pub fn current(&self) -> (step: &MutationStep)
        requires
            self.pos() < self.steps_v().len(),
        ensures
            step@ == self.steps_v()[self.pos()],
    {
        &self.steps[self.next]
    }

    /// Judges the current step's execution result and moves the scope:
    /// a satisfied policy proceeds, anything else rolls the scope back
    /// with the facts to report.
    pub fn on_result(&mut self, res: Result<u64, RepoError>) -> (d: StepDecision)
        requires
            old(self).wf(),
            old(self).txn_state() is InTransaction,
            old(self).pos() < old(self).steps_v().len(),
        ensures
            final(self).wf(),
            final(self).steps_v() == old(self).steps_v(),
            ({
                let step = old(self).steps_v()[old(self).pos()];
                match res {
                    Ok(n) => if policy_ok(step.policy, n as nat) {
                        &&& d is Proceed
                        &&& final(self).txn_state() is InTransaction
                        &&& final(self).pos() == old(self).pos() + 1
                    } else {
                        &&& d matches StepDecision::Abort { index, expected, actual }
                            && index == old(self).pos() && expected == step.policy && actual == n
                        &&& final(self).txn_state() is RolledBack
                        &&& final(self).pos() == old(self).pos()
                    },
                    Err(e) => {
                        &&& d matches StepDecision::AbortOnError { index, error }
                            && index == old(self).pos() && error == e
                        &&& final(self).txn_state() is RolledBack
                        &&& final(self).pos() == old(self).pos()
                    },
                }
            }),
    {
        match res {
            Err(e) => {
                self.state = TxnState::RolledBack;
                StepDecision::AbortOnError { index: self.next, error: e }
            },
            Ok(n) => {
                let pol = self.steps[self.next].policy;
                let ok = match pol {
                    Policy::Exact(m) => n == m,
                    Policy::AtLeastOne => n >= 1,
                };
                if ok {
                    proof {
                        assert(self.next < self.steps.len());
                    }
                    self.next += 1;
                    StepDecision::Proceed
                } else {
                    self.state = TxnState::RolledBack;
                    StepDecision::Abort { index: self.next, expected: pol, actual: n }
                }
            },
        }
    }

    /// Closes a fully successful sequence. Only a scope whose every step
    /// has been judged successful can commit.
    pub fn commit(&mut self)
        requires
            old(self).wf(),
            old(self).txn_state() is InTransaction,
            old(self).pos() == old(self).steps_v().len(),
        ensures
            final(self).wf(),
            final(self).txn_state() is Committed,
            final(self).steps_v() == old(self).steps_v(),
            final(self).pos() == old(self).pos(),
    {
        self.state = TxnState::Committed;
    }
}

/// Executes one operation through the repository's primitives, surfacing
/// the raw affected-row count.
pub fn apply_op(store: &mut Store, op: &Operation) -> (res: Result<u64, RepoError>)
    requires
        old(store).wf(),
    ensures
        final(store).wf(),
        op_fails(old(store)@, op@) ==> res == Err::<u64, RepoError>(RepoError::ConstraintViolation)
            && final(store)@ == old(store)@,
        !op_fails(old(store)@, op@) ==> final(store)@ == op_apply(old(store)@, op@) && (res matches
            Ok(n) && n == op_count(old(store)@, op@)),
{
    match op {
        Operation::Insert(r) => store.create(r),
        Operation::Update { title, author, isbn } => {
            let book = Record {
                title: title.clone(),
                author: author.clone(),
                isbn: isbn.clone(),
            };
            let n = store.update(&book, isbn);
            Ok(n)
        },
        Operation::Delete { isbn } => Ok(store.delete(isbn)),
        Operation::DeleteByAuthor { author } => Ok(store.delete_by_author(author)),
    }
}

/// Runs the steps as one all-or-nothing unit against the store.
///
/// On `Committed`, the store holds the effect of every step in order; on
/// any other outcome the store is exactly as it was, with the violating
/// step's index and counts (or its execution error) reported.
#[verifier::loop_isolation(false)]
pub fn run(store: &mut Store, steps: Vec<MutationStep>) -> (out: SequenceOutcome)
    requires
        old(store).wf(),
    ensures
        final(store).wf(),
        outcome_matches(out, seq_outcome(old(store)@, steps_view(steps@), 0)),
        out is Committed ==> final(store)@ == seq_result(old(store)@, steps_view(steps@), 0),
        !(out is Committed) ==> final(store)@ == old(store)@,
{
    let ghost s0 = store@;
    let ghost sv = steps_view(steps@);
    let backup = store.read();
    let mut driver = SequenceDriver::new(steps);
    driver.begin();
    loop
        invariant
            store.wf(),
            driver.wf(),
            driver.txn_state() is InTransaction,
            driver.steps_v() == sv,
            unique_isbns(s0),
            rows_view(backup@) == s0,
            seq_outcome(store@, sv, driver.pos()) == seq_outcome(s0, sv, 0),
            seq_outcome(s0, sv, 0) is Committed ==> seq_result(store@, sv, driver.pos())
                == seq_result(s0, sv, 0),
        decreases sv.len() - driver.pos(),
    {
        if driver.finished() {
            driver.commit();
            return SequenceOutcome::Committed;
        }
        let ghost prev = store@;
        let ghost pos = driver.pos();
        let ghost cur = sv[pos];
        let res = apply_op(store, &driver.current().op);
        let dec = driver.on_result(res);
        match dec {
            StepDecision::Proceed => {
                proof {
                    assert(!op_fails(prev, cur.op));
                    assert(store@ == op_apply(prev, cur.op));
                    assert(policy_ok(cur.policy, op_count(prev, cur.op)));
                    assert(seq_outcome(prev, sv, pos) == seq_outcome(store@, sv, pos + 1));
                    assert(seq_result(prev, sv, pos) == seq_result(store@, sv, pos + 1));
                }
            },
            StepDecision::Abort { index, expected, actual } => {
                proof {
                    assert(!op_fails(prev, cur.op));
                    assert(!policy_ok(cur.policy, op_count(prev, cur.op)));
                    assert(seq_outcome(s0, sv, 0) == OutcomeV::Aborted {
                        index: pos,
                        expected: cur.policy,
                        actual: op_count(prev, cur.op),
                    });
                }
                *store = Store::from_records(backup);
                return SequenceOutcome::SequenceAborted { index, expected, actual };
            },
            StepDecision::AbortOnError { index, error } => {
                proof {
                    assert(op_fails(prev, cur.op));
                    assert(seq_outcome(s0, sv, 0) == OutcomeV::Failed {
                        index: pos,
                        error: RepoError::ConstraintViolation,
                    });
                }
                *store = Store::from_records(backup);
                return SequenceOutcome::StepFailed { index, error };
            },
        }
    }
}

} // verus!

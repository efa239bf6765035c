//! The laws of the repository and of the atomic write sequence, stated
//! over the same models the operation contracts use and proved once for
//! all inputs.
//!
//! Each law speaks of collections under the unique-key invariant
//! [`unique_isbns`], which [`Store`](crate::repo::Store) establishes and
//! preserves; the operation contracts carry the laws' conclusions onto
//! the executable operations.

use vstd::prelude::*;

use crate::coordinator::{
    op_apply, op_count, op_fails, policy_ok, seq_outcome, seq_result, OpV, OutcomeV, Policy, StepV,
};
use crate::record::{RecordV, RepoError};
use crate::repo::{
    count_isbn, has_isbn, idx_of, lemma_count_isbn_absent, lemma_count_isbn_pointwise,
    lemma_count_isbn_present, unique_isbns, update_matching,
};

verus! {

/// Creating a record under a fresh `isbn` leaves the collection with
/// exactly one record of that `isbn`, and keeps the key unique; reading
/// the collection therefore shows that one record.
pub proof fn lemma_create_then_read_unique(s: Seq<RecordV>, r: RecordV)
    requires
        unique_isbns(s),
        !has_isbn(s, r.isbn),
    ensures
        count_isbn(s.push(r), r.isbn) == 1,
        unique_isbns(s.push(r)),
{
    lemma_count_isbn_absent(s, r.isbn);
    assert(s.push(r).drop_last() =~= s);
    assert(s.push(r).last() == r);
    assert(count_isbn(s.push(r), r.isbn) == 1);
    assert forall|i: int, j: int| 0 <= i < j < s.push(r).len() implies s.push(r)[i].isbn != s.push(
        r,
    )[j].isbn by {
        if j < s.len() {
        } else {
            assert(s.push(r)[j] == r);
            assert(s.push(r)[i] == s[i]);
        }
    }
}

/// Updating the record of a present `isbn` rewrites exactly that record
/// to the new fields under the same key, with the record count and the
/// key invariant unchanged; every other record stays as it was.
pub proof fn lemma_update_then_read(
    s: Seq<RecordV>,
    title: Seq<char>,
    author: Seq<char>,
    isbn: Seq<char>,
)
    requires
        unique_isbns(s),
        has_isbn(s, isbn),
    ensures
        update_matching(s, title, author, isbn).len() == s.len(),
        update_matching(s, title, author, isbn)[idx_of(s, isbn)] == (RecordV {
            title,
            author,
            isbn,
        }),
        forall|j: int|
            0 <= j < s.len() && j != idx_of(s, isbn) ==> update_matching(s, title, author, isbn)[j]
                == s[j],
        count_isbn(update_matching(s, title, author, isbn), isbn) == 1,
        unique_isbns(update_matching(s, title, author, isbn)),
{
    let t = update_matching(s, title, author, isbn);
    let i = idx_of(s, isbn);
    assert(0 <= i < s.len() && s[i].isbn == isbn);
    assert(t[i] == (RecordV { title, author, isbn }));
    assert(forall|j: int| 0 <= j < s.len() ==> t[j].isbn == s[j].isbn);
    assert forall|j: int| 0 <= j < s.len() && j != i implies t[j] == s[j] by {
        if s[j].isbn == isbn {
            assert(s[i].isbn == s[j].isbn);
        }
    }
    lemma_count_isbn_pointwise(t, s, isbn);
    lemma_count_isbn_present(s, isbn);
}

/// Deleting a present `isbn` leaves a collection with no record of it:
/// the matching-record count drops to zero, one record fewer is held,
/// and the key invariant survives. (Deleting an absent key is covered by
/// the delete contract itself: the collection is unchanged and no error
/// is raised.)
pub proof fn lemma_delete_removes(s: Seq<RecordV>, isbn: Seq<char>)
    requires
        unique_isbns(s),
        has_isbn(s, isbn),
    ensures
        s.remove(idx_of(s, isbn)).len() == s.len() - 1,
        count_isbn(s.remove(idx_of(s, isbn)), isbn) == 0,
        unique_isbns(s.remove(idx_of(s, isbn))),
{
    let i = idx_of(s, isbn);
    assert(0 <= i < s.len() && s[i].isbn == isbn);
    let t = s.remove(i);
    s.remove_ensures(i);
    assert forall|a: int, b: int| 0 <= a < b < t.len() implies t[a].isbn != t[b].isbn by {
        let sa = if a < i {
            a
        } else {
            a + 1
        };
        let sb = if b < i {
            b
        } else {
            b + 1
        };
        assert(t[a] == s[sa]);
        assert(t[b] == s[sb]);
    }
    assert(!has_isbn(t, isbn)) by {
        if has_isbn(t, isbn) {
            let k = choose|k: int| 0 <= k < t.len() && t[k].isbn == isbn;
            let sk = if k < i {
                k
            } else {
                k + 1
            };
            assert(t[k] == s[sk]);
            assert(s[sk].isbn == s[i].isbn && sk != i);
        }
    }
    lemma_count_isbn_absent(t, isbn);
}

/// A two-step sequence whose first step succeeds and whose second step
/// violates its expected count resolves to `Aborted` at the second step,
/// never to `Committed`; by the contract of
/// [`run`](crate::coordinator::run), the store is then exactly as it was,
/// so the first step's effect is not visible afterwards.
pub proof fn lemma_abort_rolls_back_first_step(s: Seq<RecordV>, st1: StepV, st2: StepV)
    requires
        !op_fails(s, st1.op),
        policy_ok(st1.policy, op_count(s, st1.op)),
        !op_fails(op_apply(s, st1.op), st2.op),
        !policy_ok(st2.policy, op_count(op_apply(s, st1.op), st2.op)),
    ensures
        seq_outcome(s, seq![st1, st2], 0) == (OutcomeV::Aborted {
            index: 1,
            expected: st2.policy,
            actual: op_count(op_apply(s, st1.op), st2.op),
        }),
        !(seq_outcome(s, seq![st1, st2], 0) is Committed),
{
    let steps = seq![st1, st2];
    assert(steps[0] == st1 && steps[1] == st2 && steps.len() == 2);
    assert(seq_outcome(s, steps, 0) == seq_outcome(op_apply(s, st1.op), steps, 1));
}

/// A two-step sequence whose both steps meet their expected counts
/// resolves to `Committed`, and commits exactly the composition of both
/// effects; by the contract of [`run`](crate::coordinator::run), both are
/// then visible in the store.
pub proof fn lemma_committed_sequence(s: Seq<RecordV>, st1: StepV, st2: StepV)
    requires
        !op_fails(s, st1.op),
        policy_ok(st1.policy, op_count(s, st1.op)),
        !op_fails(op_apply(s, st1.op), st2.op),
        policy_ok(st2.policy, op_count(op_apply(s, st1.op), st2.op)),
    ensures
        seq_outcome(s, seq![st1, st2], 0) is Committed,
        seq_result(s, seq![st1, st2], 0) == op_apply(op_apply(s, st1.op), st2.op),
{
    let steps = seq![st1, st2];
    assert(steps[0] == st1 && steps[1] == st2 && steps.len() == 2);
    let s1 = op_apply(s, st1.op);
    assert(seq_outcome(s, steps, 0) == seq_outcome(s1, steps, 1));
    assert(seq_outcome(s1, steps, 1) == seq_outcome(op_apply(s1, st2.op), steps, 2));
    assert(seq_result(s, steps, 0) == seq_result(s1, steps, 1));
    assert(seq_result(s1, steps, 1) == seq_result(op_apply(s1, st2.op), steps, 2));
}

/// Creating is not idempotent: once a record of some `isbn` is held,
/// running an insert sequence under the same `isbn` again fails with a
/// constraint violation at its first step — it never silently commits —
/// and the store is rolled back unchanged.
pub proof fn lemma_duplicate_create_rejected(s: Seq<RecordV>, r: RecordV, p: Policy)
    requires
        has_isbn(s, r.isbn),
    ensures
        seq_outcome(s, seq![StepV { op: OpV::Insert(r), policy: p }], 0) == (OutcomeV::Failed {
            index: 0,
            error: RepoError::ConstraintViolation,
        }),
{
    let steps = seq![StepV { op: OpV::Insert(r), policy: p }];
    assert(steps[0] == (StepV { op: OpV::Insert(r), policy: p }) && steps.len() == 1);
    assert(op_fails(s, steps[0].op));
}

} // verus!

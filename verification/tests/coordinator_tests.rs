use bookstore::coordinator::{
    run, MutationStep, Operation, Policy, SequenceDriver, SequenceOutcome, StepDecision,
};
use bookstore::record::{Record, RepoError};
use bookstore::repo::Store;

fn rec(title: &str, author: &str, isbn: &str) -> Record {
    Record { title: title.to_string(), author: author.to_string(), isbn: isbn.to_string() }
}

fn update_step(title: &str, author: &str, isbn: &str, policy: Policy) -> MutationStep {
    MutationStep {
        op: Operation::Update {
            title: title.to_string(),
            author: author.to_string(),
            isbn: isbn.to_string(),
        },
        policy,
    }
}

#[test]
fn sequence_with_both_steps_satisfied_commits_both_effects() {
    let mut store = Store::new();
    assert_eq!(store.create(&rec("A", "B", "111")), Ok(1));
    let steps = vec![
        MutationStep { op: Operation::Insert(rec("X", "Y", "222")), policy: Policy::Exact(1) },
        update_step("A2", "B2", "111", Policy::Exact(1)),
    ];
    let out = run(&mut store, steps);
    assert_eq!(out, SequenceOutcome::Committed);
    let rows = store.read();
    assert_eq!(rows.len(), 2);
    let first = rows.iter().find(|r| r.isbn == "111").unwrap();
    assert_eq!(first.title, "A2");
    assert_eq!(first.author, "B2");
    let second = rows.iter().find(|r| r.isbn == "222").unwrap();
    assert_eq!(second.title, "X");
}

#[test]
fn sequence_aborted_at_second_step_hides_the_first_effect() {
    let mut store = Store::new();
    assert_eq!(store.create(&rec("A", "B", "111")), Ok(1));
    let steps = vec![
        update_step("Changed", "Changed", "111", Policy::Exact(1)),
        // no row carries this isbn, so the step affects 0 rows against Exact(1)
        MutationStep {
            op: Operation::Delete { isbn: "999".to_string() },
            policy: Policy::Exact(1),
        },
    ];
    let out = run(&mut store, steps);
    assert_eq!(
        out,
        SequenceOutcome::SequenceAborted { index: 1, expected: Policy::Exact(1), actual: 0 }
    );
    let rows = store.read();
    assert_eq!(rows.len(), 1);
    assert_eq!(rows[0].title, "A");
    assert_eq!(rows[0].author, "B");
}

#[test]
fn scenario_update_then_bulk_delete_of_nothing_rolls_back_the_update() {
    let mut store = Store::new();
    assert_eq!(store.create(&rec("A", "B", "111")), Ok(1));
    let steps = vec![
        update_step("C", "B", "111", Policy::Exact(1)),
        MutationStep {
            op: Operation::Delete { isbn: "999".to_string() },
            policy: Policy::AtLeastOne,
        },
    ];
    let out = run(&mut store, steps);
    assert_eq!(
        out,
        SequenceOutcome::SequenceAborted { index: 1, expected: Policy::AtLeastOne, actual: 0 }
    );
    let rows = store.read();
    assert_eq!(rows.len(), 1);
    assert_eq!(rows[0].title, "A");
}

#[test]
fn rerunning_a_create_sequence_fails_with_constraint_violation() {
    let mut store = Store::new();
    let steps = vec![MutationStep {
        op: Operation::Insert(rec("A", "B", "111")),
        policy: Policy::Exact(1),
    }];
    let out = run(&mut store, steps);
    assert_eq!(out, SequenceOutcome::Committed);
    let again = vec![MutationStep {
        op: Operation::Insert(rec("A", "B", "111")),
        policy: Policy::Exact(1),
    }];
    let out2 = run(&mut store, again);
    assert_eq!(
        out2,
        SequenceOutcome::StepFailed { index: 0, error: RepoError::ConstraintViolation }
    );
    assert_eq!(store.read().len(), 1);
}

#[test]
fn bulk_delete_with_at_least_one_policy_commits_when_rows_match() {
    let mut store = Store::new();
    assert_eq!(store.create(&rec("One", "John", "111")), Ok(1));
    assert_eq!(store.create(&rec("Two", "John", "222")), Ok(1));
    assert_eq!(store.create(&rec("Three", "Jane", "333")), Ok(1));
    let steps = vec![MutationStep {
        op: Operation::DeleteByAuthor { author: "John".to_string() },
        policy: Policy::AtLeastOne,
    }];
    let out = run(&mut store, steps);
    assert_eq!(out, SequenceOutcome::Committed);
    let rows = store.read();
    assert_eq!(rows.len(), 1);
    assert_eq!(rows[0].author, "Jane");
}

#[test]
fn empty_sequence_commits_and_changes_nothing() {
    let mut store = Store::new();
    assert_eq!(store.create(&rec("A", "B", "111")), Ok(1));
    let out = run(&mut store, Vec::new());
    assert_eq!(out, SequenceOutcome::Committed);
    assert_eq!(store.read().len(), 1);
}

#[test]
fn driver_proceeds_then_commits_a_satisfied_sequence() {
    let steps = vec![
        MutationStep { op: Operation::Insert(rec("A", "B", "111")), policy: Policy::Exact(1) },
    ];
    let mut driver = SequenceDriver::new(steps);
    driver.begin();
    assert!(!driver.finished());
    match driver.current().op {
        Operation::Insert(ref r) => assert_eq!(r.isbn, "111"),
        _ => panic!("wrong step"),
    }
    let d = driver.on_result(Ok(1));
    assert_eq!(d, StepDecision::Proceed);
    assert!(driver.finished());
    driver.commit();
}

#[test]
fn driver_aborts_on_count_mismatch_with_the_step_facts() {
    let steps = vec![
        MutationStep {
            op: Operation::Delete { isbn: "111".to_string() },
            policy: Policy::Exact(1),
        },
    ];
    let mut driver = SequenceDriver::new(steps);
    driver.begin();
    let d = driver.on_result(Ok(0));
    assert_eq!(d, StepDecision::Abort { index: 0, expected: Policy::Exact(1), actual: 0 });
}

#[test]
fn driver_aborts_on_execution_error_and_propagates_it() {
    let steps = vec![
        MutationStep {
            op: Operation::Delete { isbn: "111".to_string() },
            policy: Policy::AtLeastOne,
        },
    ];
    let mut driver = SequenceDriver::new(steps);
    driver.begin();
    let d = driver.on_result(Err(RepoError::ConnectivityFailure));
    assert_eq!(
        d,
        StepDecision::AbortOnError { index: 0, error: RepoError::ConnectivityFailure }
    );
}

#[test]
fn at_least_one_policy_accepts_any_positive_count() {
    let steps = vec![
        MutationStep {
            op: Operation::DeleteByAuthor { author: "John".to_string() },
            policy: Policy::AtLeastOne,
        },
    ];
    let mut driver = SequenceDriver::new(steps);
    driver.begin();
    let d = driver.on_result(Ok(7));
    assert_eq!(d, StepDecision::Proceed);
}

#[test]
fn exact_zero_policy_commits_when_nothing_matches() {
    let mut store = Store::new();
    assert_eq!(store.create(&rec("A", "B", "111")), Ok(1));
    let steps = vec![MutationStep {
        op: Operation::Delete { isbn: "999".to_string() },
        policy: Policy::Exact(0),
    }];
    let out = run(&mut store, steps);
    assert_eq!(out, SequenceOutcome::Committed);
    assert_eq!(store.read().len(), 1);
}

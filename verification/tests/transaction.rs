use sqlite_xlsx::transaction::{advance, next_action, start, succeeded, Action, State};

fn actions_for(total: usize, outcomes: &[bool]) -> (Vec<Action>, State) {
    let mut state = start();
    let mut taken = Vec::new();
    for ok in outcomes {
        taken.push(next_action(total, state));
        state = advance(total, state, *ok);
    }
    (taken, state)
}

#[test]
fn statements_run_in_order_and_commit_follows() {
    let (taken, state) = actions_for(3, &[true, true, true, true]);
    assert_eq!(
        taken,
        vec![Action::Execute(0), Action::Execute(1), Action::Execute(2), Action::Commit]
    );
    assert_eq!(state, State::Committed);
    assert!(succeeded(state));
    assert_eq!(next_action(3, state), Action::Finish);
}

#[test]
fn empty_transaction_is_committed_at_once() {
    assert_eq!(next_action(0, start()), Action::Commit);
    let state = advance(0, start(), true);
    assert_eq!(state, State::Committed);
    assert!(succeeded(state));
}

#[test]
fn first_failure_skips_the_rest_and_rolls_back() {
    let (taken, state) = actions_for(4, &[true, false, true, true]);
    assert_eq!(
        taken,
        vec![Action::Execute(0), Action::Execute(1), Action::RollBack, Action::Finish]
    );
    assert_eq!(state, State::RolledBack);
    assert!(!succeeded(state));
}

#[test]
fn failure_of_the_last_statement_is_never_committed() {
    let (taken, state) = actions_for(2, &[true, false, true]);
    assert_eq!(taken, vec![Action::Execute(0), Action::Execute(1), Action::RollBack]);
    assert!(!taken.contains(&Action::Commit));
    assert!(!succeeded(state));
}

#[test]
fn failed_commit_is_rolled_back() {
    let (taken, state) = actions_for(1, &[true, false, true]);
    assert_eq!(taken, vec![Action::Execute(0), Action::Commit, Action::RollBack]);
    assert_eq!(state, State::RolledBack);
    assert!(!succeeded(state));
}

#[test]
fn failed_rollback_still_ends_without_success() {
    let (_, state) = actions_for(1, &[false, false]);
    assert_eq!(state, State::RolledBack);
    assert_eq!(next_action(1, state), Action::Finish);
    assert!(!succeeded(state));
}

#[test]
fn ended_transaction_stays_as_it_is() {
    assert_eq!(advance(2, State::Committed, false), State::Committed);
    assert_eq!(advance(2, State::Committed, true), State::Committed);
    assert_eq!(advance(2, State::RolledBack, true), State::RolledBack);
}

#[test]
fn running_is_not_success() {
    assert!(!succeeded(start()));
    assert!(!succeeded(State::RollingBack));
}

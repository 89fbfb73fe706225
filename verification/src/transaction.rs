//! The order of work inside the one transaction of an import.
//!
//! All statements of an import run in a single transaction. It is
//! committed only after every statement has succeeded; at the first
//! failure the remaining statements are left out and the transaction is
//! rolled back, so that nothing of the import is kept.
//!
//! The caller performs each action and reports whether it succeeded.

use vstd::prelude::*;

verus! {

/// What to do next.
#[derive(Debug, Clone, Copy, PartialEq, Eq, Structural)]
pub enum Action {
    /// Run the statement with this index.
    Execute(usize),
    /// Commit the transaction.
    Commit,
    /// Roll the transaction back.
    RollBack,
    /// Nothing is left to do.
    Finish,
}

/// How far a transaction has come.
#[derive(Debug, Clone, Copy, PartialEq, Eq, Structural)]
pub enum State {
    /// The first `done` statements have succeeded and nothing has failed.
    Running { done: usize },
    /// A statement or the commit has failed.
    RollingBack,
    /// The transaction is committed.
    Committed,
    /// The transaction is rolled back.
    RolledBack,
}

/// The state before anything has run.
pub open spec fn initial() -> State {
    State::Running { done: 0 }
}

/// The action to take in `state`, for a transaction of `total`
/// statements.
pub open spec fn action_in(total: usize, state: State) -> Action {
    match state {
        State::Running { done } => if done < total {
            Action::Execute(done)
        } else {
            Action::Commit
        },
        State::RollingBack => Action::RollBack,
        State::Committed => Action::Finish,
        State::RolledBack => Action::Finish,
    }
}

/// The state after the action of `state` has been performed and has
/// succeeded or not.
pub open spec fn state_after(total: usize, state: State, succeeded: bool) -> State {
    match state {
        State::Running { done } => if !succeeded {
            State::RollingBack
        } else if done < total {
            State::Running { done: (done + 1) as usize }
        } else {
            State::Committed
        },
        State::RollingBack => State::RolledBack,
        State::Committed => State::Committed,
        State::RolledBack => State::RolledBack,
    }
}

/// The state after a run of actions with the given outcomes, from the
/// start.
pub open spec fn state_after_all(total: usize, outcomes: Seq<bool>) -> State
    decreases outcomes.len(),
{
    if outcomes.len() == 0 {
        initial()
    } else {
        state_after(total, state_after_all(total, outcomes.drop_last()), outcomes.last())
    }
}

/// Whether the import has ended with everything kept.
pub open spec fn is_success(state: State) -> bool {
    state is Committed
}

/// The state before anything has run.
pub fn start() -> (state: State)
    ensures
        state == initial(),
{
    State::Running { done: 0 }
}

/// The action to take in `state`, for a transaction of `total`
/// statements.
pub fn next_action(total: usize, state: State) -> (action: Action)
    ensures
        action == action_in(total, state),
{
    match state {
        State::Running { done } => {
            if done < total {
                Action::Execute(done)
            } else {
                Action::Commit
            }
        },
        State::RollingBack => Action::RollBack,
        State::Committed => Action::Finish,
        State::RolledBack => Action::Finish,
    }
}

/// The state after the action of `state` has been performed; `succeeded`
/// tells whether it went well.
pub fn advance(total: usize, state: State, succeeded: bool) -> (next: State)
    ensures
        next == state_after(total, state, succeeded),
{
    match state {
        State::Running { done } => {
            if !succeeded {
                State::RollingBack
            } else if done < total {
                State::Running { done: done + 1 }
            } else {
                State::Committed
            }
        },
        State::RollingBack => State::RolledBack,
        State::Committed => State::Committed,
        State::RolledBack => State::RolledBack,
    }
}

/// Whether the import has ended with everything kept.
pub fn succeeded(state: State) -> (kept: bool)
    ensures
        kept == is_success(state),
{
    match state {
        State::Committed => true,
        _ => false,
    }
}

/// While nothing has failed, the statements run in order, one for each
/// success so far, and the commit follows the last of them.
pub proof fn lemma_running_in_order(total: usize, outcomes: Seq<bool>)
    requires
        outcomes.len() <= total,
        forall|i: int| 0 <= i < outcomes.len() ==> outcomes[i],
    ensures
        state_after_all(total, outcomes) == (State::Running { done: outcomes.len() as usize }),
        action_in(total, state_after_all(total, outcomes)) == if outcomes.len() < total {
            Action::Execute(outcomes.len() as usize)
        } else {
            Action::Commit
        },
    decreases outcomes.len(),
{
    if outcomes.len() > 0 {
        let earlier = outcomes.drop_last();
        assert forall|i: int| 0 <= i < earlier.len() implies earlier[i] by {
            assert(earlier[i] == outcomes[i]);
        }
        lemma_running_in_order(total, earlier);
        assert(outcomes.last());
    }
}

/// Whatever the outcomes, the transaction is still running only if every
/// action so far was a statement that succeeded.
pub proof fn lemma_running_means_no_failure(total: usize, outcomes: Seq<bool>)
    requires
        state_after_all(total, outcomes) is Running,
    ensures
        outcomes.len() <= total,
        forall|i: int| 0 <= i < outcomes.len() ==> outcomes[i],
        state_after_all(total, outcomes) == (State::Running { done: outcomes.len() as usize }),
    decreases outcomes.len(),
{
    if outcomes.len() > 0 {
        let earlier = outcomes.drop_last();
        let before = state_after_all(total, earlier);
        assert(before is Running);
        lemma_running_means_no_failure(total, earlier);
        assert forall|i: int| 0 <= i < outcomes.len() implies outcomes[i] by {
            if i < earlier.len() {
                assert(earlier[i] == outcomes[i]);
            }
        }
    }
}

/// Whatever the outcomes, the commit is the next action only when all
/// `total` statements have run and every one of them has succeeded.
pub proof fn lemma_commit_only_after_all(total: usize, outcomes: Seq<bool>)
    requires
        action_in(total, state_after_all(total, outcomes)) == Action::Commit,
    ensures
        outcomes.len() == total,
        forall|i: int| 0 <= i < outcomes.len() ==> outcomes[i],
{
    lemma_running_means_no_failure(total, outcomes);
}

/// Whatever the outcomes, the transaction is committed only if all
/// `total` statements and then the commit have succeeded.
pub proof fn lemma_committed_means_all_succeeded(total: usize, outcomes: Seq<bool>)
    requires
        state_after_all(total, outcomes) is Committed,
    ensures
        outcomes.len() > total,
        forall|i: int| 0 <= i <= total ==> outcomes[i],
    decreases outcomes.len(),
{
    if outcomes.len() > 0 {
        let earlier = outcomes.drop_last();
        let before = state_after_all(total, earlier);
        if before is Committed {
            lemma_committed_means_all_succeeded(total, earlier);
            assert forall|i: int| 0 <= i <= total implies outcomes[i] by {
                assert(earlier[i] == outcomes[i]);
            }
        } else {
            assert(before is Running);
            lemma_running_means_no_failure(total, earlier);
            assert forall|i: int| 0 <= i <= total implies outcomes[i] by {
                if i < earlier.len() {
                    assert(earlier[i] == outcomes[i]);
                }
            }
        }
    }
}

/// If a statement or the commit fails, then from that point on, whatever
/// follows, no statement runs, nothing is committed, and the import does
/// not end in success: the only action left before the end is the
/// rollback.
pub proof fn lemma_failure_keeps_nothing(total: usize, outcomes: Seq<bool>, failed: int)
    requires
        0 <= failed < outcomes.len(),
        failed <= total,
        !outcomes[failed],
    ensures
        !is_success(state_after_all(total, outcomes)),
        !(state_after_all(total, outcomes) is Running),
        action_in(total, state_after_all(total, outcomes)) == Action::RollBack || action_in(
            total,
            state_after_all(total, outcomes),
        ) == Action::Finish,
{
    let state = state_after_all(total, outcomes);
    if state is Committed {
        lemma_committed_means_all_succeeded(total, outcomes);
    }
    if state is Running {
        lemma_running_means_no_failure(total, outcomes);
    }
}

} // verus!

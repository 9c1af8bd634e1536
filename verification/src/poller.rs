//! The scheduling loop as a state machine.

use vstd::prelude::*;
use crate::error::CycleError;

verus! {

/// The pause between two cycles, in seconds.
pub const POLL_INTERVAL_SECS: u64 = 300;

/// The poller runs until a cycle fails.
#[derive(Debug, Clone, Copy, PartialEq, Eq, Structural)]
pub enum PollerState {
    Running,
    Terminated(CycleError),
}

/// What the driver of the loop does next.
#[derive(Debug, Clone, Copy, PartialEq, Eq, Structural)]
pub enum PollerAction {
    /// Sleep for this many seconds, then run the next cycle.
    Sleep(u64),
    /// End the process with this error.
    Exit(CycleError),
}

/// The state after a cycle has ended with `outcome`. A terminated poller
/// stays terminated on its first error.
pub open spec fn next_state(state: PollerState, outcome: Result<(), CycleError>) -> PollerState {
    match state {
        PollerState::Terminated(e) => PollerState::Terminated(e),
        PollerState::Running => match outcome {
            Ok(_) => PollerState::Running,
            Err(e) => PollerState::Terminated(e),
        },
    }
}

/// What is done on entering a state: a running poller sleeps for the fixed
/// interval, a terminated one exits with its error.
pub open spec fn action_of(state: PollerState) -> PollerAction {
    match state {
        PollerState::Running => PollerAction::Sleep(POLL_INTERVAL_SECS),
        PollerState::Terminated(e) => PollerAction::Exit(e),
    }
}

/// The state after a sequence of cycle outcomes, from `state` on.
pub open spec fn run(state: PollerState, outcomes: Seq<Result<(), CycleError>>) -> PollerState
    decreases outcomes.len(),
{
    if outcomes.len() == 0 {
        state
    } else {
        next_state(run(state, outcomes.drop_last()), outcomes.last())
    }
}

/// No sequence of outcomes brings a terminated poller back to work, nor
/// changes its error.
pub proof fn lemma_terminated_is_final(e: CycleError, outcomes: Seq<Result<(), CycleError>>)
    ensures
        run(PollerState::Terminated(e), outcomes) == PollerState::Terminated(e),
    decreases outcomes.len(),
{
    if outcomes.len() > 0 {
        lemma_terminated_is_final(e, outcomes.drop_last());
    }
}

/// A poller that starts running is still running exactly when every cycle
/// so far has succeeded.
pub proof fn lemma_running_iff_all_ok(outcomes: Seq<Result<(), CycleError>>)
    ensures
        run(PollerState::Running, outcomes) == PollerState::Running <==> forall|i: int|
            0 <= i < outcomes.len() ==> (#[trigger] outcomes[i]) is Ok,
    decreases outcomes.len(),
{
    if outcomes.len() > 0 {
        let init = outcomes.drop_last();
        lemma_running_iff_all_ok(init);
        if forall|i: int| 0 <= i < outcomes.len() ==> (#[trigger] outcomes[i]) is Ok {
            assert forall|i: int| 0 <= i < init.len() implies (#[trigger] init[i]) is Ok by {
                assert(init[i] == outcomes[i]);
            }
        }
        if run(PollerState::Running, outcomes) == PollerState::Running {
            assert forall|i: int| 0 <= i < outcomes.len() implies (#[trigger] outcomes[i]) is Ok by {
                if i < init.len() {
                    assert(init[i] == outcomes[i]);
                }
            }
        }
    }
}

impl PollerState {
    /// The poller before its first cycle.
    pub fn start() -> (s: PollerState)
        ensures
            s == PollerState::Running,
    {
        PollerState::Running
    }

    /// Takes the outcome of a cycle and gives the next state with what the
    /// driver does next.
    pub fn step(self, outcome: Result<(), CycleError>) -> (r: (PollerState, PollerAction))
        ensures
            r.0 == next_state(self, outcome),
            r.1 == action_of(r.0),
    {
        match self {
            PollerState::Terminated(e) => (PollerState::Terminated(e), PollerAction::Exit(e)),
            PollerState::Running => match outcome {
                Ok(_) => (PollerState::Running, PollerAction::Sleep(POLL_INTERVAL_SECS)),
                Err(e) => (PollerState::Terminated(e), PollerAction::Exit(e)),
            },
        }
    }
}

} // verus!

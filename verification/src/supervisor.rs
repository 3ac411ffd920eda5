use vstd::prelude::*;
use crate::exit_status::ActorExitStatus;

verus! {

/// What a supervisor has seen of the actor it supervises: how often that
/// actor panicked, stopped on an error, or was killed.
#[derive(Debug, Clone, Copy, PartialEq, Eq, Structural)]
pub struct SupervisorState {
    pub num_panics: usize,
    pub num_errors: usize,
    pub num_kills: usize,
}

/// A counter after one more event. A counter that has reached the largest
/// value stays there.
pub open spec fn counted(count: usize) -> usize {
    if count == usize::MAX {
        count
    } else {
        (count + 1) as usize
    }
}

/// The supervisor's state after the supervised actor ended with `status`.
/// A failure counts as an error, a panic as a panic, a kill as a kill; an
/// actor that ends with success leaves the counters as they are.
pub open spec fn after_exit(state: SupervisorState, status: ActorExitStatus) -> SupervisorState {
    match status {
        ActorExitStatus::Success => state,
        ActorExitStatus::Failure(_) => SupervisorState {
            num_errors: counted(state.num_errors),
            ..state
        },
        ActorExitStatus::Killed => SupervisorState { num_kills: counted(state.num_kills), ..state },
        ActorExitStatus::Panicked => SupervisorState {
            num_panics: counted(state.num_panics),
            ..state
        },
    }
}

/// Whether the supervisor starts the supervised actor again after it ended
/// with `status`: it does unless the actor ended with success.
pub open spec fn restarts_after(status: ActorExitStatus) -> bool {
    !(status is Success)
}

impl Default for SupervisorState {
    fn default() -> (state: Self)
        ensures
            state == (SupervisorState { num_panics: 0, num_errors: 0, num_kills: 0 }),
    {
        SupervisorState { num_panics: 0, num_errors: 0, num_kills: 0 }
    }
}

fn count(value: usize) -> (next: usize)
    ensures
        next == counted(value),
{
    if value == usize::MAX {
        value
    } else {
        value + 1
    }
}

impl SupervisorState {
    /// Records that the supervised actor ended with `status`, and says
    /// whether the actor is to be started again. The failure of a worker
    /// shows in these counters only: it does not end the supervisor.
    pub fn record_exit(&mut self, status: &ActorExitStatus) -> (restart: bool)
        ensures
            *final(self) == after_exit(*old(self), *status),
            restart == restarts_after(*status),
    {
        match status {
            ActorExitStatus::Success => false,
            ActorExitStatus::Failure(_) => {
                self.num_errors = count(self.num_errors);
                true
            },
            ActorExitStatus::Killed => {
                self.num_kills = count(self.num_kills);
                true
            },
            ActorExitStatus::Panicked => {
                self.num_panics = count(self.num_panics);
                true
            },
        }
    }
}

} // verus!

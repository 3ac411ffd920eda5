use vstd::prelude::*;

verus! {

/// Terminal outcome of an actor. It is assigned exactly once, when the
/// actor's task loop ends.
#[derive(Debug, PartialEq, Eq)]
pub enum ActorExitStatus {
    /// The actor ran to completion: it was asked to quit, or every strong
    /// mailbox was dropped and its queues were drained.
    Success,
    /// The actor stopped on an error of its own, described by the reason.
    Failure(String),
    /// The actor's task was cancelled by force.
    Killed,
    /// The actor's task panicked.
    Panicked,
}

impl Clone for ActorExitStatus {
    fn clone(&self) -> (copy: Self)
        ensures
            copy == *self,
    {
        match self {
            ActorExitStatus::Success => ActorExitStatus::Success,
            ActorExitStatus::Failure(reason) => ActorExitStatus::Failure(reason.clone()),
            ActorExitStatus::Killed => ActorExitStatus::Killed,
            ActorExitStatus::Panicked => ActorExitStatus::Panicked,
        }
    }
}

/// How the task that runs an actor's loop came to its end, as the scheduler
/// reports it.
#[derive(Debug, PartialEq, Eq)]
pub enum TaskOutcome {
    /// The loop returned, with the status the actor chose.
    Returned(ActorExitStatus),
    /// The loop panicked.
    Panicked,
    /// The task was cancelled before the loop returned.
    Cancelled,
}

impl Clone for TaskOutcome {
    fn clone(&self) -> (copy: Self)
        ensures
            copy == *self,
    {
        match self {
            TaskOutcome::Returned(status) => TaskOutcome::Returned(status.clone()),
            TaskOutcome::Panicked => TaskOutcome::Panicked,
            TaskOutcome::Cancelled => TaskOutcome::Cancelled,
        }
    }
}

impl TaskOutcome {
    /// The exit status that a task outcome stands for: a panic inside the
    /// loop is `Panicked`, a forced cancellation is `Killed`, and otherwise
    /// the status is the one the actor returned.
    pub open spec fn exit_status(self) -> ActorExitStatus {
        match self {
            TaskOutcome::Returned(status) => status,
            TaskOutcome::Panicked => ActorExitStatus::Panicked,
            TaskOutcome::Cancelled => ActorExitStatus::Killed,
        }
    }

    /// Maps the outcome of a task to the exit status of its actor.
    pub fn into_exit_status(self) -> (status: ActorExitStatus)
        ensures
            status == self.exit_status(),
    {
        match self {
            TaskOutcome::Returned(status) => status,
            TaskOutcome::Panicked => ActorExitStatus::Panicked,
            TaskOutcome::Cancelled => ActorExitStatus::Killed,
        }
    }
}

} // verus!

use vstd::prelude::*;
use crate::exit_status::{ActorExitStatus, TaskOutcome};

verus! {

/// The two states of a join handle.
pub enum ActorJoinHandleState<T> {
    /// The task has not been joined yet.
    Active(T),
    /// The task was joined; its status is kept for every later join.
    Exited(ActorExitStatus),
}

impl<T> Default for ActorJoinHandleState<T> {
    /// The state that stands in while the task is awaited: `Panicked`, which
    /// is what a join finds if the awaiting itself is cut short.
    fn default() -> (state: Self)
        ensures
            state == ActorJoinHandleState::<T>::Exited(ActorExitStatus::Panicked),
    {
        ActorJoinHandleState::Exited(ActorExitStatus::Panicked)
    }
}

/// What one join does to a handle in state `state`, where `outcome` is what
/// the task yields if this join is the one that awaits it: the state after
/// the join, and the status that the join returns.
pub open spec fn joined<T>(state: ActorJoinHandleState<T>, outcome: TaskOutcome) -> (
    ActorJoinHandleState<T>,
    ActorExitStatus,
) {
    match state {
        ActorJoinHandleState::Active(_) => (
            ActorJoinHandleState::Exited(outcome.exit_status()),
            outcome.exit_status(),
        ),
        ActorJoinHandleState::Exited(status) => (ActorJoinHandleState::Exited(status), status),
    }
}

/// The statuses that a run of joins returns, one after the other, on a
/// handle that starts in `state`. `outcomes[i]` is what the task would yield
/// to the join number `i` if that join awaited it.
pub open spec fn join_statuses<T>(
    state: ActorJoinHandleState<T>,
    outcomes: Seq<TaskOutcome>,
) -> Seq<ActorExitStatus>
    decreases outcomes.len(),
{
    if outcomes.len() == 0 {
        Seq::empty()
    } else {
        seq![joined(state, outcomes.first()).1] + join_statuses(
            joined(state, outcomes.first()).0,
            outcomes.drop_first(),
        )
    }
}

/// How often the task is awaited in the same run of joins.
pub open spec fn join_awaits<T>(state: ActorJoinHandleState<T>, outcomes: Seq<TaskOutcome>) -> nat
    decreases outcomes.len(),
{
    if outcomes.len() == 0 {
        0
    } else {
        let awaited: nat = if state is Active {
            1
        } else {
            0
        };
        awaited + join_awaits(joined(state, outcomes.first()).0, outcomes.drop_first())
    }
}

/// Once a handle has exited, every join returns the cached status and none
/// awaits the task.
pub proof fn lemma_join_after_exit<T>(status: ActorExitStatus, outcomes: Seq<TaskOutcome>)
    ensures
        join_statuses(ActorJoinHandleState::<T>::Exited(status), outcomes).len()
            == outcomes.len(),
        forall|i: int|
            0 <= i < outcomes.len() ==> #[trigger] join_statuses(
                ActorJoinHandleState::<T>::Exited(status),
                outcomes,
            )[i] == status,
        join_awaits(ActorJoinHandleState::<T>::Exited(status), outcomes) == 0,
    decreases outcomes.len(),
{
    if outcomes.len() > 0 {
        lemma_join_after_exit::<T>(status, outcomes.drop_first());
    }
}

/// Joining is idempotent: however many joins are made on one handle, they
/// all return the same status, and the task is awaited exactly once, by the
/// first join of a handle that is still active.
pub proof fn lemma_join_is_idempotent<T>(
    state: ActorJoinHandleState<T>,
    outcomes: Seq<TaskOutcome>,
)
    requires
        outcomes.len() > 0,
    ensures
        join_statuses(state, outcomes).len() == outcomes.len(),
        forall|i: int|
            0 <= i < outcomes.len() ==> #[trigger] join_statuses(state, outcomes)[i]
                == joined(state, outcomes.first()).1,
        state is Active ==> join_awaits(state, outcomes) == 1,
        state is Exited ==> join_awaits(state, outcomes) == 0,
{
    let first = joined(state, outcomes.first());
    lemma_join_after_exit::<T>(first.1, outcomes.drop_first());
}

/// One-time-consumable handle to the terminal result of an actor's task. It
/// holds the task until the first join, and the exit status from then on.
pub struct ActorJoinHandle<T> {
    holder: ActorJoinHandleState<T>,
}

impl<T> ActorJoinHandle<T> {
    /// The state of the handle.
    pub closed spec fn state(&self) -> ActorJoinHandleState<T> {
        self.holder
    }

    /// The status that the handle has cached, if the task was joined.
    pub open spec fn cached(&self) -> Option<ActorExitStatus> {
        match self.state() {
            ActorJoinHandleState::Active(_) => None,
            ActorJoinHandleState::Exited(status) => Some(status),
        }
    }

    /// A handle on a task that nobody has joined yet.
    pub fn new(join_handle: T) -> (handle: Self)
        ensures
            handle.state() == ActorJoinHandleState::Active(join_handle),
    {
        ActorJoinHandle { holder: ActorJoinHandleState::Active(join_handle) }
    }

    /// The cached exit status: present once the task was joined.
    pub fn exit_status(&self) -> (status: Option<ActorExitStatus>)
        ensures
            status == self.cached(),
    {
        match &self.holder {
            ActorJoinHandleState::Active(_) => None,
            ActorJoinHandleState::Exited(status) => Some(status.clone()),
        }
    }

    /// First half of a join, for a caller that has to await the task itself.
    /// An active handle gives its task away, once, and holds `Panicked` as a
    /// placeholder until `record_exit` stores the real status. A handle that
    /// has exited gives nothing and stays as it is.
    pub fn take_task(&mut self) -> (task: Option<T>)
        ensures
            match old(self).state() {
                ActorJoinHandleState::Active(active) => task == Some(active) && final(self).state()
                    == ActorJoinHandleState::<T>::Exited(ActorExitStatus::Panicked),
                ActorJoinHandleState::Exited(_) => task.is_none() && final(self).state() == old(
                    self,
                ).state(),
            },
    {
        let mut holder = ActorJoinHandleState::default();
        std::mem::swap(&mut self.holder, &mut holder);
        match holder {
            ActorJoinHandleState::Active(task) => Some(task),
            ActorJoinHandleState::Exited(status) => {
                self.holder = ActorJoinHandleState::Exited(status);
                None
            },
        }
    }

    /// Second half of a join: stores the status that the awaited task's
    /// outcome stands for, and returns it.
    pub fn record_exit(&mut self, outcome: TaskOutcome) -> (status: ActorExitStatus)
        ensures
            status == outcome.exit_status(),
            final(self).state() == ActorJoinHandleState::<T>::Exited(status),
    {
        let status = outcome.into_exit_status();
        self.holder = ActorJoinHandleState::Exited(status.clone());
        status
    }

    /// Joins the task. The first join of an active handle hands the task to
    /// `wait`, which awaits it, maps the outcome to an exit status, caches
    /// the status and returns it. Every later join returns the cached status
    /// and leaves `wait` uncalled.
    pub fn join<F: FnOnce(T) -> TaskOutcome>(&mut self, wait: F) -> (status: ActorExitStatus)
        requires
            old(self).state() matches ActorJoinHandleState::Active(task) ==> wait.requires((task,)),
        ensures
            final(self).state() == ActorJoinHandleState::<T>::Exited(status),
            match old(self).state() {
                ActorJoinHandleState::Active(task) => exists|outcome: TaskOutcome|
                    #![trigger wait.ensures((task,), outcome)]
                    wait.ensures((task,), outcome) && final(self).state() == joined(
                        old(self).state(),
                        outcome,
                    ).0 && status == joined(old(self).state(), outcome).1,
                ActorJoinHandleState::Exited(cached) => status == cached,
            },
    {
        match self.take_task() {
            Some(task) => {
                let outcome = wait(task);
                assert(wait.ensures((task,), outcome));
                self.record_exit(outcome)
            },
            None => {
                match &self.holder {
                    ActorJoinHandleState::Exited(status) => status.clone(),
                    ActorJoinHandleState::Active(_) => ActorExitStatus::Panicked,
                }
            },
        }
    }
}

} // verus!

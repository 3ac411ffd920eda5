use vstd::prelude::*;
use std::collections::VecDeque;
use crate::exit_status::{ActorExitStatus, TaskOutcome};
use crate::join_handle::ActorJoinHandle;
use crate::mailbox::{Address, Command, Envelope, Mailbox, SendError, WeakMailbox};

verus! {

/// The state of one actor, as the rest of the runtime sees it.
pub struct ActorCellView<M> {
    /// How many strong mailboxes address the actor.
    pub strong_mailboxes: u64,
    /// The high-priority channel, oldest item first.
    pub high_priority: Seq<Envelope<M>>,
    /// The normal channel, oldest message first.
    pub low_priority: Seq<M>,
    /// How the actor's task ended; absent while its loop runs.
    pub outcome: Option<TaskOutcome>,
    /// The exit status that the first join cached; absent until then.
    pub joined: Option<ActorExitStatus>,
    /// The actor whose strong mailbox this actor holds, if it holds one.
    pub downstream: Option<usize>,
}

/// A strong count after one more strong mailbox was handed out. A count that
/// has reached the largest value stays there for good.
pub open spec fn retained(count: u64) -> u64 {
    if count == u64::MAX {
        count
    } else {
        (count + 1) as u64
    }
}

/// A strong count after one strong mailbox was given back.
pub open spec fn released(count: u64) -> u64 {
    if count == 0 || count == u64::MAX {
        count
    } else {
        (count - 1) as u64
    }
}

/// The actor in slot `actor` exists and its loop has not ended.
pub open spec fn is_running<M>(cells: Seq<ActorCellView<M>>, actor: int) -> bool {
    0 <= actor < cells.len() && cells[actor].outcome is None
}

/// No strong mailbox can reach a live actor in slot `actor`: every strong
/// mailbox was dropped, or the task has ended, or there is no such actor.
pub open spec fn is_disconnected<M>(cells: Seq<ActorCellView<M>>, actor: int) -> bool {
    !(is_running(cells, actor) && cells[actor].strong_mailboxes > 0)
}

/// The table after one more strong mailbox to `actor` was handed out.
pub open spec fn with_retained<M>(cells: Seq<ActorCellView<M>>, actor: int) -> Seq<
    ActorCellView<M>,
> {
    if 0 <= actor < cells.len() {
        cells.update(
            actor,
            ActorCellView {
                strong_mailboxes: retained(cells[actor].strong_mailboxes),
                ..cells[actor]
            },
        )
    } else {
        cells
    }
}

/// The table after one strong mailbox to `actor` was given back.
pub open spec fn with_released<M>(cells: Seq<ActorCellView<M>>, actor: int) -> Seq<
    ActorCellView<M>,
> {
    if 0 <= actor < cells.len() {
        cells.update(
            actor,
            ActorCellView {
                strong_mailboxes: released(cells[actor].strong_mailboxes),
                ..cells[actor]
            },
        )
    } else {
        cells
    }
}

/// The table after `envelope` was put on the high-priority channel of
/// `actor`. Nothing is queued for an actor whose task has ended.
pub open spec fn with_high_priority<M>(
    cells: Seq<ActorCellView<M>>,
    actor: int,
    envelope: Envelope<M>,
) -> Seq<ActorCellView<M>> {
    if is_running(cells, actor) {
        cells.update(
            actor,
            ActorCellView {
                high_priority: cells[actor].high_priority.push(envelope),
                ..cells[actor]
            },
        )
    } else {
        cells
    }
}

/// The table after `message` was put on the normal channel of `actor`.
/// Nothing is queued for an actor whose task has ended.
pub open spec fn with_message<M>(cells: Seq<ActorCellView<M>>, actor: int, message: M) -> Seq<
    ActorCellView<M>,
> {
    if is_running(cells, actor) {
        cells.update(
            actor,
            ActorCellView { low_priority: cells[actor].low_priority.push(message), ..cells[actor] },
        )
    } else {
        cells
    }
}

/// The table after the task of `actor` ended with `outcome`. The first end
/// counts: a task that has ended keeps its outcome. An actor that ends
/// drops what is left in its channels and gives back the strong mailbox it
/// held on its downstream actor.
pub open spec fn finished<M>(cells: Seq<ActorCellView<M>>, actor: int, outcome: TaskOutcome) -> Seq<
    ActorCellView<M>,
> {
    if is_running(cells, actor) {
        let ended = cells.update(
            actor,
            ActorCellView {
                high_priority: Seq::empty(),
                low_priority: Seq::empty(),
                outcome: Some(outcome),
                downstream: None,
                ..cells[actor]
            },
        );
        match cells[actor].downstream {
            Some(downstream) => with_released(ended, downstream as int),
            None => ended,
        }
    } else {
        cells
    }
}

/// What the loop of an actor finds when it polls its channels.
#[derive(Debug)]
pub enum Activity<M> {
    /// A request for a snapshot of the actor's observable state.
    Observe,
    /// The next message to handle.
    Message(M),
    /// Both channels are empty and a strong mailbox remains: the loop waits.
    Idle,
    /// The loop ends now, with this status.
    Exit(ActorExitStatus),
    /// The task had ended before, or there is no such actor.
    Terminated,
}

/// What one poll of the loop of `actor` finds. The high-priority channel is
/// served before the normal one, each in the order of arrival. A quit
/// command ends the loop with `Success`. An actor that finds both channels
/// empty ends with `Success` if no strong mailbox is left, and waits
/// otherwise.
pub open spec fn poll_activity<M>(cells: Seq<ActorCellView<M>>, actor: int) -> Activity<M> {
    if !is_running(cells, actor) {
        Activity::Terminated
    } else if cells[actor].high_priority.len() > 0 {
        match cells[actor].high_priority.first() {
            Envelope::Command(Command::Quit) => Activity::Exit(ActorExitStatus::Success),
            Envelope::Command(Command::Observe) => Activity::Observe,
            Envelope::Message(message) => Activity::Message(message),
        }
    } else if cells[actor].low_priority.len() > 0 {
        Activity::Message(cells[actor].low_priority.first())
    } else if cells[actor].strong_mailboxes == 0 {
        Activity::Exit(ActorExitStatus::Success)
    } else {
        Activity::Idle
    }
}

/// The table after that poll: the item that was found has left its channel,
/// and a loop that ends has ended as `finished` says.
pub open spec fn polled<M>(cells: Seq<ActorCellView<M>>, actor: int) -> Seq<ActorCellView<M>> {
    match poll_activity(cells, actor) {
        Activity::Terminated | Activity::Idle => cells,
        Activity::Exit(status) => finished(cells, actor, TaskOutcome::Returned(status)),
        Activity::Observe | Activity::Message(_) => if cells[actor].high_priority.len() > 0 {
            cells.update(
                actor,
                ActorCellView {
                    high_priority: cells[actor].high_priority.drop_first(),
                    ..cells[actor]
                },
            )
        } else {
            cells.update(
                actor,
                ActorCellView {
                    low_priority: cells[actor].low_priority.drop_first(),
                    ..cells[actor]
                },
            )
        },
    }
}

/// The status that a join of `actor` returns: none while the task runs;
/// then the status that an earlier join cached or, at the first join, the
/// one that the task's outcome stands for.
pub open spec fn join_status<M>(cells: Seq<ActorCellView<M>>, actor: int) -> Option<
    ActorExitStatus,
> {
    if 0 <= actor < cells.len() {
        match cells[actor].outcome {
            Some(outcome) => match cells[actor].joined {
                Some(status) => Some(status),
                None => Some(outcome.exit_status()),
            },
            None => None,
        }
    } else {
        None
    }
}

/// The table after a join of `actor`: a status that was returned is cached.
pub open spec fn after_join<M>(cells: Seq<ActorCellView<M>>, actor: int) -> Seq<ActorCellView<M>> {
    match join_status(cells, actor) {
        Some(status) => cells.update(
            actor,
            ActorCellView { joined: Some(status), ..cells[actor] },
        ),
        None => cells,
    }
}

/// The actor to which `actor` sends: the one whose strong mailbox it holds.
pub open spec fn downstream_of<M>(cells: Seq<ActorCellView<M>>, actor: int) -> Option<usize> {
    if 0 <= actor < cells.len() {
        cells[actor].downstream
    } else {
        None
    }
}

/// The table holds a cached exit status only for a task that has ended,
/// and then the status that the task's outcome stands for. A new table is
/// consistent, and every step that a table can take keeps it so.
pub open spec fn is_consistent<M>(cells: Seq<ActorCellView<M>>) -> bool {
    forall|actor: int|
        0 <= actor < cells.len() ==> ((#[trigger] cells[actor]).joined matches Some(status)
            ==> cells[actor].outcome matches Some(outcome) && status == outcome.exit_status())
}

/// The cell of a newly spawned actor.
pub open spec fn fresh_cell<M>(downstream: Option<usize>) -> ActorCellView<M> {
    ActorCellView {
        strong_mailboxes: 1,
        high_priority: Seq::empty(),
        low_priority: Seq::empty(),
        outcome: None,
        joined: None,
        downstream,
    }
}

/// Handle on the task of one actor: it serves to drive the actor's loop, to
/// kill the actor and to join it. It keeps nothing alive.
#[derive(Debug, Clone, Copy, PartialEq, Eq)]
pub struct ActorHandle {
    actor: usize,
}

impl View for ActorHandle {
    type V = usize;

    closed spec fn view(&self) -> usize {
        self.actor
    }
}

impl ActorHandle {
    /// The slot of the actor in the actor table.
    pub fn actor(&self) -> (actor: usize)
        ensures
            actor == self@,
    {
        self.actor
    }
}

struct ActorCell<M> {
    strong_mailboxes: u64,
    high_priority: VecDeque<Envelope<M>>,
    low_priority: VecDeque<M>,
    outcome: Option<TaskOutcome>,
    join_handle: ActorJoinHandle<usize>,
    downstream: Option<usize>,
}

impl<M> ActorCell<M> {
    spec fn model(self) -> ActorCellView<M> {
        ActorCellView {
            strong_mailboxes: self.strong_mailboxes,
            high_priority: self.high_priority@,
            low_priority: self.low_priority@,
            outcome: self.outcome,
            joined: self.join_handle.cached(),
            downstream: self.downstream,
        }
    }
}

/// The table of all actors that were ever spawned in one running system:
/// for each its channels, its strong count, and the state of its task. The
/// slot of an actor is its place in the table, and never changes.
pub struct ActorTable<M> {
    cells: Vec<ActorCell<M>>,
}

impl<M> View for ActorTable<M> {
    type V = Seq<ActorCellView<M>>;

    closed spec fn view(&self) -> Seq<ActorCellView<M>> {
        Seq::new(self.cells@.len(), |i: int| self.cells@[i].model())
    }
}

impl<M> ActorTable<M> {
    /// A table without actors.
    pub fn new() -> (table: Self)
        ensures
            table@ == Seq::<ActorCellView<M>>::empty(),
    {
        ActorTable { cells: Vec::new() }
    }

    /// The number of actors that were spawned so far.
    pub fn len(&self) -> (len: usize)
        ensures
            len == self@.len(),
    {
        self.cells.len()
    }

    /// Spawns an actor: gives it the next slot, with empty channels and a
    /// running task, and returns its first strong mailbox and its handle.
    /// The new actor takes over `downstream`, the strong mailbox of the
    /// actor it will send to, and holds it until its own task ends.
    pub fn spawn(
        &mut self,
        type_id: u64,
        type_label: &str,
        instance_id: &str,
        downstream: Option<Mailbox>,
    ) -> (spawned: (Mailbox, ActorHandle))
        ensures
            final(self)@ == old(self)@.push(
                fresh_cell(
                    match downstream {
                        Some(mailbox) => Some(mailbox@.actor),
                        None => None,
                    },
                ),
            ),
            spawned.0@ == (Address {
                actor: old(self)@.len() as usize,
                instance_id: instance_id@,
                type_id,
                type_label: type_label@,
            }),
            spawned.1@ == old(self)@.len(),
    {
        let actor = self.cells.len();
        let held = match downstream {
            Some(mailbox) => Some(mailbox.actor()),
            None => None,
        };
        self.cells.push(
            ActorCell {
                strong_mailboxes: 1,
                high_priority: VecDeque::new(),
                low_priority: VecDeque::new(),
                outcome: None,
                join_handle: ActorJoinHandle::new(actor),
                downstream: held,
            },
        );
        (Mailbox::issue(actor, instance_id, type_id, type_label), ActorHandle { actor })
    }

    /// The actor's task has ended, or there is no such actor: a message
    /// sent through `mailbox` would reach nobody.
    pub fn is_disconnected(&self, mailbox: &Mailbox) -> (disconnected: bool)
        ensures
            disconnected == !is_running(self@, mailbox@.actor as int),
    {
        let actor = mailbox.actor();
        actor >= self.cells.len() || self.cells[actor].outcome.is_some()
    }

    /// The same test through a weak reference: true as well when every
    /// strong mailbox was dropped.
    pub fn is_unreachable(&self, weak: &WeakMailbox) -> (disconnected: bool)
        ensures
            disconnected == is_disconnected(self@, weak@.actor as int),
    {
        let actor = weak.actor();
        actor >= self.cells.len() || self.cells[actor].outcome.is_some()
            || self.cells[actor].strong_mailboxes == 0
    }

    /// Hands out one more strong mailbox to the actor that `mailbox`
    /// addresses.
    pub fn clone_mailbox(&mut self, mailbox: &Mailbox) -> (copy: Mailbox)
        ensures
            copy@ == mailbox@,
            final(self)@ == with_retained(old(self)@, mailbox@.actor as int),
    {
        let actor = mailbox.actor();
        self.retain(actor);
        mailbox.downgrade().strengthen()
    }

    /// Takes back a strong mailbox. When the last one is gone the actor is
    /// disconnected; its loop ends once it finds its channels empty.
    pub fn drop_mailbox(&mut self, mailbox: Mailbox)
        ensures
            final(self)@ == with_released(old(self)@, mailbox@.actor as int),
    {
        let actor = mailbox.actor();
        self.release(actor);
    }

    /// A strong mailbox from a weak reference: only while the actor can
    /// still be reached.
    pub fn upgrade(&mut self, weak: &WeakMailbox) -> (mailbox: Option<Mailbox>)
        ensures
            match mailbox {
                Some(strong) => !is_disconnected(old(self)@, weak@.actor as int) && strong@
                    == weak@ && final(self)@ == with_retained(old(self)@, weak@.actor as int),
                None => is_disconnected(old(self)@, weak@.actor as int) && final(self)@ == old(
                    self,
                )@,
            },
    {
        if self.is_unreachable(weak) {
            None
        } else {
            self.retain(weak.actor());
            Some(weak.strengthen())
        }
    }

    /// Puts `message` on the normal channel of the addressed actor. It fails
    /// with a delivery error, and queues nothing, when the actor's task has
    /// ended.
    pub fn send_message(&mut self, mailbox: &Mailbox, message: M) -> (sent: Result<(), SendError>)
        ensures
            sent.is_ok() == is_running(old(self)@, mailbox@.actor as int),
            final(self)@ == with_message(old(self)@, mailbox@.actor as int, message),
    {
        let actor = mailbox.actor();
        if actor < self.cells.len() && self.cells[actor].outcome.is_none() {
            self.cells[actor].low_priority.push_back(message);
            Ok(())
        } else {
            Err(SendError::Disconnected)
        }
    }

    /// Puts `envelope` on the high-priority channel of the addressed actor,
    /// which its loop serves ahead of the normal channel. It fails with a
    /// delivery error, and queues nothing, when the actor's task has ended.
    pub fn send_message_with_high_priority(
        &mut self,
        mailbox: &Mailbox,
        envelope: Envelope<M>,
    ) -> (sent: Result<(), SendError>)
        ensures
            sent.is_ok() == is_running(old(self)@, mailbox@.actor as int),
            final(self)@ == with_high_priority(old(self)@, mailbox@.actor as int, envelope),
    {
        self.deliver_with_high_priority(mailbox.actor(), envelope)
    }

    /// Puts a command on the high-priority channel of the actor in slot
    /// `actor`, on behalf of a holder of its handle or of the registry.
    pub fn send_command(&mut self, actor: usize, command: Command) -> (sent: Result<(), SendError>)
        ensures
            sent.is_ok() == is_running(old(self)@, actor as int),
            final(self)@ == with_high_priority(
                old(self)@,
                actor as int,
                Envelope::Command(command),
            ),
    {
        self.deliver_with_high_priority(actor, Envelope::Command(command))
    }

    /// Puts a message of an actor to itself on its own normal channel, as
    /// when the time of a message that it had scheduled has come. The
    /// actor's reference to itself keeps nothing alive. It fails when the
    /// actor's task has ended.
    pub fn send_self_message(&mut self, handle: &ActorHandle, message: M) -> (sent: Result<
        (),
        SendError,
    >)
        ensures
            sent.is_ok() == is_running(old(self)@, handle@ as int),
            final(self)@ == with_message(old(self)@, handle@ as int, message),
    {
        let actor = handle.actor;
        if actor < self.cells.len() && self.cells[actor].outcome.is_none() {
            self.cells[actor].low_priority.push_back(message);
            Ok(())
        } else {
            Err(SendError::Disconnected)
        }
    }

    /// Sends a message from an actor to the actor downstream of it, through
    /// the strong mailbox that it took over when it was spawned. It fails
    /// when the actor holds no such mailbox, which is so once its own task
    /// has ended, or when the task of the downstream actor has ended.
    pub fn send_downstream(&mut self, handle: &ActorHandle, message: M) -> (sent: Result<
        (),
        SendError,
    >)
        ensures
            match downstream_of(old(self)@, handle@ as int) {
                Some(downstream) => sent.is_ok() == is_running(old(self)@, downstream as int)
                    && final(self)@ == with_message(old(self)@, downstream as int, message),
                None => sent.is_err() && final(self)@ == old(self)@,
            },
    {
        let actor = handle.actor;
        if actor >= self.cells.len() {
            return Err(SendError::Disconnected);
        }
        match self.cells[actor].downstream {
            Some(downstream) => {
                if downstream < self.cells.len() && self.cells[downstream].outcome.is_none() {
                    self.cells[downstream].low_priority.push_back(message);
                    Ok(())
                } else {
                    Err(SendError::Disconnected)
                }
            },
            None => Err(SendError::Disconnected),
        }
    }

    /// One poll of the loop of an actor: takes the next item from its
    /// channels, the high-priority channel first, and says what the loop has
    /// to do.
    pub fn poll(&mut self, handle: &ActorHandle) -> (activity: Activity<M>)
        ensures
            activity == poll_activity(old(self)@, handle@ as int),
            final(self)@ == polled(old(self)@, handle@ as int),
    {
        let actor = handle.actor;
        if actor >= self.cells.len() || self.cells[actor].outcome.is_some() {
            return Activity::Terminated;
        }
        match self.cells[actor].high_priority.pop_front() {
            Some(Envelope::Command(Command::Quit)) => {
                self.end(actor, TaskOutcome::Returned(ActorExitStatus::Success));
                Activity::Exit(ActorExitStatus::Success)
            },
            Some(Envelope::Command(Command::Observe)) => {
                Activity::Observe
            },
            Some(Envelope::Message(message)) => {
                Activity::Message(message)
            },
            None => match self.cells[actor].low_priority.pop_front() {
                Some(message) => {
                    Activity::Message(message)
                },
                None => {
                    if self.cells[actor].strong_mailboxes == 0 {
                        self.end(actor, TaskOutcome::Returned(ActorExitStatus::Success));
                        Activity::Exit(ActorExitStatus::Success)
                    } else {
                        Activity::Idle
                    }
                },
            },
        }
    }

    /// Records that the loop of an actor has ended of itself: its handler
    /// returned a terminal status, or panicked. A task that had ended
    /// before keeps its first outcome.
    pub fn finish(&mut self, handle: &ActorHandle, outcome: TaskOutcome)
        ensures
            final(self)@ == finished(old(self)@, handle@ as int, outcome),
    {
        self.end(handle.actor, outcome);
    }

    /// Kills an actor: its task is cancelled at once, whatever its channels
    /// hold, and a join yields `Killed`.
    pub fn kill(&mut self, handle: &ActorHandle)
        ensures
            final(self)@ == finished(old(self)@, handle@ as int, TaskOutcome::Cancelled),
    {
        self.end(handle.actor, TaskOutcome::Cancelled);
    }

    /// Asks an actor to quit: puts the quit command on its high-priority
    /// channel.
    pub fn quit(&mut self, handle: &ActorHandle) -> (sent: Result<(), SendError>)
        ensures
            sent.is_ok() == is_running(old(self)@, handle@ as int),
            final(self)@ == with_high_priority(
                old(self)@,
                handle@ as int,
                Envelope::Command(Command::Quit),
            ),
    {
        self.send_command(handle.actor, Command::Quit)
    }

    /// Joins the task of an actor. While the task runs there is nothing to
    /// return. Once it has ended, the first join maps its outcome to the
    /// exit status and caches it, and every join returns that status.
    pub fn join(&mut self, handle: &ActorHandle) -> (status: Option<ActorExitStatus>)
        ensures
            status == join_status(old(self)@, handle@ as int),
            final(self)@ == after_join(old(self)@, handle@ as int),
    {
        let actor = handle.actor;
        if actor >= self.cells.len() {
            return None;
        }
        let ended = match &self.cells[actor].outcome {
            Some(outcome) => Some(outcome.clone()),
            None => None,
        };
        match ended {
            Some(outcome) => {
                let wait = move |task: usize| -> (awaited: TaskOutcome)
                    ensures
                        awaited == outcome,
                    { outcome };
                let status = self.cells[actor].join_handle.join(wait);
                Some(status)
            },
            None => None,
        }
    }

    fn retain(&mut self, actor: usize)
        ensures
            final(self)@ == with_retained(old(self)@, actor as int),
    {
        if actor < self.cells.len() {
            let count = self.cells[actor].strong_mailboxes;
            if count < u64::MAX {
                self.cells[actor].strong_mailboxes = count + 1;
            }
        }
    }

    fn release(&mut self, actor: usize)
        ensures
            final(self)@ == with_released(old(self)@, actor as int),
    {
        if actor < self.cells.len() {
            let count = self.cells[actor].strong_mailboxes;
            if 0 < count && count < u64::MAX {
                self.cells[actor].strong_mailboxes = count - 1;
            }
        }
    }

    fn deliver_with_high_priority(&mut self, actor: usize, envelope: Envelope<M>) -> (sent: Result<
        (),
        SendError,
    >)
        ensures
            sent.is_ok() == is_running(old(self)@, actor as int),
            final(self)@ == with_high_priority(old(self)@, actor as int, envelope),
    {
        if actor < self.cells.len() && self.cells[actor].outcome.is_none() {
            self.cells[actor].high_priority.push_back(envelope);
            Ok(())
        } else {
            Err(SendError::Disconnected)
        }
    }

    fn end(&mut self, actor: usize, outcome: TaskOutcome)
        ensures
            final(self)@ == finished(old(self)@, actor as int, outcome),
    {
        if actor < self.cells.len() && self.cells[actor].outcome.is_none() {
            let held = self.cells[actor].downstream;
            self.cells[actor].high_priority.clear();
            self.cells[actor].low_priority.clear();
            self.cells[actor].outcome = Some(outcome);
            self.cells[actor].downstream = None;
            match held {
                Some(downstream) => {
                    self.release(downstream);
                },
                None => {},
            }
        }
    }
}

} // verus!

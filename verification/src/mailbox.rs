use vstd::prelude::*;

verus! {

/// Control operations that the runtime itself addresses to an actor. They
/// travel on the high-priority channel.
#[derive(Debug, Clone, Copy, PartialEq, Eq)]
pub enum Command {
    /// Asks the actor to end its loop.
    Quit,
    /// Asks the actor for a snapshot of its observable state.
    Observe,
}

/// An item of the high-priority channel: a command of the runtime, or a
/// message that its sender wants handled ahead of the normal queue.
#[derive(Debug)]
pub enum Envelope<M> {
    Command(Command),
    Message(M),
}

/// Why a message could not be delivered.
#[derive(Debug, Clone, Copy, PartialEq, Eq)]
pub enum SendError {
    /// The addressed actor's task has ended: nobody will read the message.
    Disconnected,
}

/// What addresses one actor: its slot in the actor table, its instance id,
/// and the identity and name of its type. A `Mailbox` and a `WeakMailbox`
/// are both viewed as an `Address`.
pub struct Address {
    pub actor: usize,
    pub instance_id: Seq<char>,
    pub type_id: u64,
    pub type_label: Seq<char>,
}

/// Strong addressable reference to one actor. Each strong mailbox accounts
/// for one unit of the actor's strong count: it is handed out by the actor
/// table, duplicated by `ActorTable::clone_mailbox`, and given back with
/// `ActorTable::drop_mailbox`.
#[derive(Debug)]
pub struct Mailbox {
    actor: usize,
    instance_id: String,
    type_id: u64,
    type_label: String,
}

/// Non-owning reference to one actor: it serves to look the actor up and
/// never keeps it alive.
#[derive(Debug)]
pub struct WeakMailbox {
    actor: usize,
    instance_id: String,
    type_id: u64,
    type_label: String,
}

impl View for Mailbox {
    type V = Address;

    closed spec fn view(&self) -> Address {
        Address {
            actor: self.actor,
            instance_id: self.instance_id@,
            type_id: self.type_id,
            type_label: self.type_label@,
        }
    }
}

impl View for WeakMailbox {
    type V = Address;

    closed spec fn view(&self) -> Address {
        Address {
            actor: self.actor,
            instance_id: self.instance_id@,
            type_id: self.type_id,
            type_label: self.type_label@,
        }
    }
}

impl Mailbox {
    /// Makes the strong mailbox of the actor in slot `actor`. Only the actor
    /// table calls this, when it has accounted for the new reference.
    pub(crate) fn issue(actor: usize, instance_id: &str, type_id: u64, type_label: &str) -> (mailbox:
        Self)
        ensures
            mailbox@ == (Address {
                actor,
                instance_id: instance_id@,
                type_id,
                type_label: type_label@,
            }),
    {
        Mailbox {
            actor,
            instance_id: instance_id.to_owned(),
            type_id,
            type_label: type_label.to_owned(),
        }
    }

    /// The slot of the addressed actor in the actor table.
    pub fn actor(&self) -> (actor: usize)
        ensures
            actor == self@.actor,
    {
        self.actor
    }

    /// The instance id of the addressed actor.
    pub fn actor_instance_id(&self) -> (id: &str)
        ensures
            id@ == self@.instance_id,
    {
        self.instance_id.as_str()
    }

    /// The identity of the addressed actor's type.
    pub fn type_id(&self) -> (type_id: u64)
        ensures
            type_id == self@.type_id,
    {
        self.type_id
    }

    /// The name of the addressed actor's type.
    pub fn type_label(&self) -> (name: &str)
        ensures
            name@ == self@.type_label,
    {
        self.type_label.as_str()
    }

    /// A weak reference to the same actor.
    pub fn downgrade(&self) -> (weak: WeakMailbox)
        ensures
            weak@ == self@,
    {
        WeakMailbox {
            actor: self.actor,
            instance_id: self.instance_id.clone(),
            type_id: self.type_id,
            type_label: self.type_label.clone(),
        }
    }
}

impl WeakMailbox {
    /// The slot of the addressed actor in the actor table.
    pub fn actor(&self) -> (actor: usize)
        ensures
            actor == self@.actor,
    {
        self.actor
    }

    /// The instance id of the addressed actor.
    pub fn actor_instance_id(&self) -> (id: &str)
        ensures
            id@ == self@.instance_id,
    {
        self.instance_id.as_str()
    }

    /// The identity of the addressed actor's type.
    pub fn type_id(&self) -> (type_id: u64)
        ensures
            type_id == self@.type_id,
    {
        self.type_id
    }

    /// The name of the addressed actor's type.
    pub fn type_label(&self) -> (name: &str)
        ensures
            name@ == self@.type_label,
    {
        self.type_label.as_str()
    }

    /// The strong mailbox that an upgrade of this reference yields. Only the
    /// actor table calls this, when it has accounted for the new reference.
    pub(crate) fn strengthen(&self) -> (mailbox: Mailbox)
        ensures
            mailbox@ == self@,
    {
        Mailbox {
            actor: self.actor,
            instance_id: self.instance_id.clone(),
            type_id: self.type_id,
            type_label: self.type_label.clone(),
        }
    }
}

impl Clone for WeakMailbox {
    fn clone(&self) -> (copy: Self)
        ensures
            copy@ == self@,
    {
        WeakMailbox {
            actor: self.actor,
            instance_id: self.instance_id.clone(),
            type_id: self.type_id,
            type_label: self.type_label.clone(),
        }
    }
}

} // verus!

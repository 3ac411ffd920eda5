use vstd::prelude::*;
use crate::actor_table::{fresh_cell, ActorCellView, ActorHandle, ActorTable};
use crate::mailbox::{Address, Command, Mailbox};
use crate::registry::{
    addresses,
    found_entries,
    live_targets,
    mailbox_views,
    registered,
    swept_registry,
    target_views,
    with_all_retained,
    with_commands,
    ActorRegistry,
    LiveActor,
    ObservationRound,
};

verus! {

/// The context of one running system: the table of its actors and the
/// registry through which they are found. It is made once, and handed to
/// every component that spawns actors.
pub struct Universe<M> {
    pub actors: ActorTable<M>,
    pub registry: ActorRegistry,
}

impl<M> Default for Universe<M> {
    fn default() -> (universe: Self)
        ensures
            universe.actors@ == Seq::<ActorCellView<M>>::empty(),
            universe.registry@ == Seq::<crate::registry::BucketView>::empty(),
    {
        Universe::new()
    }
}

impl<M> Universe<M> {
    /// A universe without actors.
    pub fn new() -> (universe: Self)
        ensures
            universe.actors@ == Seq::<ActorCellView<M>>::empty(),
            universe.registry@ == Seq::<crate::registry::BucketView>::empty(),
    {
        Universe { actors: ActorTable::new(), registry: ActorRegistry::new() }
    }

    /// Spawns an actor and registers it: see `ActorTable::spawn` and
    /// `ActorRegistry::register`.
    pub fn spawn(
        &mut self,
        type_id: u64,
        type_label: &str,
        instance_id: &str,
        downstream: Option<Mailbox>,
    ) -> (spawned: (Mailbox, ActorHandle))
        ensures
            final(self).actors@ == old(self).actors@.push(
                fresh_cell(
                    match downstream {
                        Some(mailbox) => Some(mailbox@.actor),
                        None => None,
                    },
                ),
            ),
            final(self).registry@ == registered(old(self).registry@, spawned.0@, spawned.1@),
            spawned.0@ == (Address {
                actor: old(self).actors@.len() as usize,
                instance_id: instance_id@,
                type_id,
                type_label: type_label@,
            }),
            spawned.1@ == old(self).actors@.len(),
    {
        let (mailbox, handle) = self.actors.spawn(type_id, type_label, instance_id, downstream);
        self.registry.register(&mailbox, handle);
        (mailbox, handle)
    }

    /// A strong mailbox for every live actor of one type: see
    /// `ActorRegistry::get`.
    pub fn get(&mut self, type_id: u64) -> (mailboxes: Vec<Mailbox>)
        ensures
            final(self).registry@ == old(self).registry@,
            mailbox_views(mailboxes@) == addresses(
                found_entries(old(self).registry@, old(self).actors@, type_id),
            ),
            final(self).actors@ == with_all_retained(
                old(self).actors@,
                addresses(found_entries(old(self).registry@, old(self).actors@, type_id)),
            ),
    {
        self.registry.get(&mut self.actors, type_id)
    }

    /// A strong mailbox for the first live actor of one type: see
    /// `ActorRegistry::get_one`.
    pub fn get_one(&mut self, type_id: u64) -> (mailbox: Option<Mailbox>)
        ensures
            final(self).registry@ == old(self).registry@,
            match mailbox {
                Some(strong) => found_entries(
                    old(self).registry@,
                    old(self).actors@,
                    type_id,
                ).len() > 0 && strong@ == found_entries(
                    old(self).registry@,
                    old(self).actors@,
                    type_id,
                ).first().mailbox && final(self).actors@ == crate::actor_table::with_retained(
                    old(self).actors@,
                    strong@.actor as int,
                ),
                None => found_entries(old(self).registry@, old(self).actors@, type_id).len() == 0
                    && final(self).actors@ == old(self).actors@,
            },
    {
        self.registry.get_one(&mut self.actors, type_id)
    }

    /// First half of an observation of all actors: see
    /// `ActorRegistry::observe`.
    pub fn observe(&mut self, timeout: core::time::Duration) -> (round: ObservationRound)
        ensures
            final(self).registry@ == swept_registry(old(self).registry@, old(self).actors@),
            round.timeout() == timeout,
            round@ == live_targets(final(self).registry@, old(self).actors@),
            final(self).actors@ == with_commands(old(self).actors@, round@, Command::Observe),
    {
        self.registry.observe(&mut self.actors, timeout)
    }

    /// First half of a shutdown of all actors: see `ActorRegistry::quit`.
    pub fn quit(&mut self) -> (targets: Vec<LiveActor>)
        ensures
            final(self).registry@ == old(self).registry@,
            target_views(targets@) == live_targets(old(self).registry@, old(self).actors@),
            final(self).actors@ == with_commands(
                old(self).actors@,
                target_views(targets@),
                Command::Quit,
            ),
    {
        self.registry.quit(&mut self.actors)
    }

    /// The live actors whose terminal status is to be awaited: see
    /// `ActorRegistry::join`.
    pub fn join(&self) -> (targets: Vec<LiveActor>)
        ensures
            target_views(targets@) == live_targets(self.registry@, self.actors@),
    {
        self.registry.join(&self.actors)
    }

    /// Removes the entries of disconnected actors from the registry.
    pub fn gc(&mut self)
        ensures
            final(self).actors@ == old(self).actors@,
            final(self).registry@ == swept_registry(old(self).registry@, old(self).actors@),
    {
        self.registry.gc(&self.actors);
    }
}

} // verus!

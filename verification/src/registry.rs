use vstd::prelude::*;
use std::collections::HashMap;
use crate::actor_table::{
    after_join,
    is_disconnected,
    join_status,
    with_high_priority,
    with_retained,
    ActorCellView,
    ActorHandle,
    ActorTable,
};
use crate::exit_status::ActorExitStatus;
use crate::mailbox::{Address, Command, Envelope, Mailbox, WeakMailbox};

verus! {

/// One entry of the registry, as the contracts see it.
pub struct ObservableView {
    /// The instance id of the registered actor.
    pub instance_id: Seq<char>,
    /// The address that the entry's weak mailbox holds.
    pub mailbox: Address,
    /// The slot of the actor whose task the entry's join handle joins.
    pub join: usize,
}

/// One bucket of the registry, as the contracts see it.
pub struct BucketView {
    pub type_id: u64,
    pub type_label: Seq<char>,
    pub observables: Seq<ObservableView>,
}

/// The entry's actor can no longer be reached.
pub open spec fn entry_is_dead<M>(cells: Seq<ActorCellView<M>>, entry: ObservableView) -> bool {
    is_disconnected(cells, entry.mailbox.actor as int)
}

/// What a sweep leaves of a bucket's entries, from the place `from` on. An
/// entry whose actor is disconnected gives its place to the last entry and
/// the list gets shorter by one; an entry whose actor is live stays.
pub open spec fn swept<M>(
    observables: Seq<ObservableView>,
    cells: Seq<ActorCellView<M>>,
    from: int,
) -> Seq<ObservableView>
    decreases observables.len() - from,
{
    if from < 0 || from >= observables.len() {
        observables
    } else if entry_is_dead(cells, observables[from]) {
        swept(observables.update(from, observables.last()).drop_last(), cells, from)
    } else {
        swept(observables, cells, from + 1)
    }
}

/// A bucket after garbage collection.
pub open spec fn swept_bucket<M>(bucket: BucketView, cells: Seq<ActorCellView<M>>) -> BucketView {
    BucketView { observables: swept(bucket.observables, cells, 0), ..bucket }
}

/// The place of the first bucket for `type_id` at or after `from`, or the
/// number of buckets if there is none.
pub open spec fn bucket_index(buckets: Seq<BucketView>, type_id: u64, from: int) -> int
    decreases buckets.len() - from,
{
    if from < 0 || from >= buckets.len() {
        buckets.len() as int
    } else if buckets[from].type_id == type_id {
        from
    } else {
        bucket_index(buckets, type_id, from + 1)
    }
}

/// The entries of a bucket whose actors can still be reached, in the order
/// of the bucket.
pub open spec fn live_entries<M>(
    observables: Seq<ObservableView>,
    cells: Seq<ActorCellView<M>>,
) -> Seq<ObservableView> {
    observables.filter(|entry: ObservableView| !entry_is_dead(cells, entry))
}

/// The entries that a lookup of `type_id` finds: the live entries of the
/// bucket of that type; none if the type was never registered.
pub open spec fn found_entries<M>(
    buckets: Seq<BucketView>,
    cells: Seq<ActorCellView<M>>,
    type_id: u64,
) -> Seq<ObservableView> {
    let place = bucket_index(buckets, type_id, 0);
    if place < buckets.len() {
        live_entries(buckets[place].observables, cells)
    } else {
        Seq::empty()
    }
}

/// The addresses that the entries hold.
pub open spec fn addresses(entries: Seq<ObservableView>) -> Seq<Address> {
    entries.map_values(|entry: ObservableView| entry.mailbox)
}

/// The table after one more strong mailbox was handed out for each of
/// `targets`, in turn.
pub open spec fn with_all_retained<M>(cells: Seq<ActorCellView<M>>, targets: Seq<Address>) -> Seq<
    ActorCellView<M>,
>
    decreases targets.len(),
{
    if targets.len() == 0 {
        cells
    } else {
        with_retained(
            with_all_retained(cells, targets.drop_last()),
            targets.last().actor as int,
        )
    }
}

/// Type-erased view over one registered actor: it can report disconnection,
/// ask for a snapshot, issue a quit, and join. It holds a weak mailbox only,
/// so it never keeps its actor alive.
#[derive(Debug)]
pub struct JsonObservable {
    actor_instance_id: String,
    weak_mailbox: WeakMailbox,
    join_handle: ActorHandle,
}

impl View for JsonObservable {
    type V = ObservableView;

    closed spec fn view(&self) -> ObservableView {
        ObservableView {
            instance_id: self.actor_instance_id@,
            mailbox: self.weak_mailbox@,
            join: self.join_handle@,
        }
    }
}

impl JsonObservable {
    /// The entry for the actor that `mailbox` addresses.
    pub fn new(mailbox: &Mailbox, join_handle: ActorHandle) -> (entry: Self)
        ensures
            entry@ == (ObservableView {
                instance_id: mailbox@.instance_id,
                mailbox: mailbox@,
                join: join_handle@,
            }),
    {
        JsonObservable {
            actor_instance_id: mailbox.actor_instance_id().to_owned(),
            weak_mailbox: mailbox.downgrade(),
            join_handle,
        }
    }

    /// The actor can no longer be reached: its weak mailbox does not
    /// upgrade, or its task has ended.
    pub fn is_disconnected<M>(&self, table: &ActorTable<M>) -> (dead: bool)
        ensures
            dead == entry_is_dead(table@, self@),
    {
        table.is_unreachable(&self.weak_mailbox)
    }

    /// The instance id of the registered actor.
    pub fn actor_instance_id(&self) -> (id: &str)
        ensures
            id@ == self@.instance_id,
    {
        self.actor_instance_id.as_str()
    }

    /// The weak mailbox of the registered actor.
    pub fn weak_mailbox(&self) -> (weak: &WeakMailbox)
        ensures
            weak@ == self@.mailbox,
    {
        &self.weak_mailbox
    }

    /// The handle that joins the registered actor's task.
    pub fn join_handle(&self) -> (handle: ActorHandle)
        ensures
            handle@ == self@.join,
    {
        self.join_handle
    }

    /// Asks the actor for a snapshot of its state: puts the observe request
    /// on its high-priority channel. Says whether the request was queued,
    /// which it is exactly when the actor can still be reached.
    pub fn observe<M>(&self, table: &mut ActorTable<M>) -> (asked: bool)
        ensures
            asked == !entry_is_dead(old(table)@, self@),
            final(table)@ == if asked {
                with_high_priority(
                    old(table)@,
                    self@.mailbox.actor as int,
                    Envelope::Command(Command::Observe),
                )
            } else {
                old(table)@
            },
    {
        if table.is_unreachable(&self.weak_mailbox) {
            false
        } else {
            let _ = table.send_command(self.weak_mailbox.actor(), Command::Observe);
            true
        }
    }

    /// Asks the actor to quit, if it can still be reached, and hands out the
    /// handle on which to await its terminal status.
    pub fn quit<M>(&self, table: &mut ActorTable<M>) -> (handle: ActorHandle)
        ensures
            handle@ == self@.join,
            final(table)@ == if entry_is_dead(old(table)@, self@) {
                old(table)@
            } else {
                with_high_priority(
                    old(table)@,
                    self@.mailbox.actor as int,
                    Envelope::Command(Command::Quit),
                )
            },
    {
        if !table.is_unreachable(&self.weak_mailbox) {
            let _ = table.send_command(self.weak_mailbox.actor(), Command::Quit);
        }
        self.join_handle
    }

    /// Joins the actor's task: see `ActorTable::join`.
    pub fn join<M>(&self, table: &mut ActorTable<M>) -> (status: Option<ActorExitStatus>)
        ensures
            status == join_status(old(table)@, self@.join as int),
            final(table)@ == after_join(old(table)@, self@.join as int),
    {
        table.join(&self.join_handle)
    }
}

/// Per-type bucket of the registry: the identity and the name of one actor
/// type, and the entries of the actors of that type.
#[derive(Debug)]
pub struct ActorRegistryForSpecificType {
    type_id: u64,
    type_label: String,
    observables: Vec<JsonObservable>,
}

impl View for ActorRegistryForSpecificType {
    type V = BucketView;

    closed spec fn view(&self) -> BucketView {
        BucketView {
            type_id: self.type_id,
            type_label: self.type_label@,
            observables: Seq::new(self.observables@.len(), |i: int| self.observables@[i]@),
        }
    }
}

impl ActorRegistryForSpecificType {
    /// An empty bucket for one actor type.
    pub fn for_type(type_id: u64, type_label: &str) -> (bucket: Self)
        ensures
            bucket@ == (BucketView {
                type_id,
                type_label: type_label@,
                observables: Seq::empty(),
            }),
    {
        let bucket = ActorRegistryForSpecificType {
            type_id,
            type_label: type_label.to_owned(),
            observables: Vec::new(),
        };
        assert(bucket@.observables =~= Seq::empty());
        bucket
    }

    /// The identity of the bucket's actor type.
    pub fn type_id(&self) -> (type_id: u64)
        ensures
            type_id == self@.type_id,
    {
        self.type_id
    }

    /// The number of entries, dead ones included.
    pub fn len(&self) -> (len: usize)
        ensures
            len == self@.observables.len(),
    {
        self.observables.len()
    }

    /// Appends an entry.
    pub fn push(&mut self, entry: JsonObservable)
        ensures
            final(self)@ == (BucketView {
                observables: old(self)@.observables.push(entry@),
                ..old(self)@
            }),
    {
        self.observables.push(entry);
        assert(self@.observables =~= old(self)@.observables.push(entry@));
    }

    /// Removes every entry whose actor can no longer be reached. The
    /// entries that stay are those whose actors are live, each as often as
    /// it was there; a removed entry gives its place to the last one.
    pub fn gc<M>(&mut self, table: &ActorTable<M>)
        ensures
            final(self)@ == swept_bucket(old(self)@, table@),
            forall|i: int|
                0 <= i < final(self)@.observables.len() ==> !entry_is_dead(
                    table@,
                    #[trigger] final(self)@.observables[i],
                ),
            final(self)@.observables.to_multiset() == live_entries(
                old(self)@.observables,
                table@,
            ).to_multiset(),
    {
        proof {
            let given = old(self)@.observables;
            lemma_swept(given, table@, 0);
            assert(given.take(0) =~= Seq::empty());
            assert(given.skip(0) =~= given);
            assert(Seq::<ObservableView>::empty().to_multiset().add(
                live_entries(given, table@).to_multiset(),
            ) =~= live_entries(given, table@).to_multiset()) by {
                broadcast use vstd::seq_lib::group_to_multiset_ensures;

            }
        }
        let mut i: usize = 0;
        while i < self.observables.len()
            invariant
                i <= self.observables.len(),
                self@.type_id == old(self)@.type_id,
                self@.type_label == old(self)@.type_label,
                swept(self@.observables, table@, i as int) == swept(
                    old(self)@.observables,
                    table@,
                    0,
                ),
            decreases self.observables.len() - i,
        {
            let ghost before = self@.observables;
            if self.observables[i].is_disconnected(table) {
                self.observables.swap_remove(i);
                assert(self@.observables =~= before.update(i as int, before.last()).drop_last());
            } else {
                i += 1;
            }
        }
    }
}

/// A live registered actor, as the contracts see it: the name of its type,
/// its instance id, the slot that its mailbox addresses, and the slot whose
/// task its join handle joins.
pub struct TargetView {
    pub type_label: Seq<char>,
    pub instance_id: Seq<char>,
    pub actor: usize,
    pub join: usize,
}

/// What a fan-out hands out for one entry of a bucket of the given name.
pub open spec fn target_of(type_label: Seq<char>, entry: ObservableView) -> TargetView {
    TargetView {
        type_label,
        instance_id: entry.instance_id,
        actor: entry.mailbox.actor,
        join: entry.join,
    }
}

/// The live actors of one bucket, in the order of the bucket.
pub open spec fn bucket_targets<M>(bucket: BucketView, cells: Seq<ActorCellView<M>>) -> Seq<
    TargetView,
> {
    live_entries(bucket.observables, cells).map_values(
        |entry: ObservableView| target_of(bucket.type_label, entry),
    )
}

/// The live actors of all buckets: bucket after bucket, in the order in
/// which the types were first registered.
pub open spec fn live_targets<M>(buckets: Seq<BucketView>, cells: Seq<ActorCellView<M>>) -> Seq<
    TargetView,
>
    decreases buckets.len(),
{
    if buckets.len() == 0 {
        Seq::empty()
    } else {
        live_targets(buckets.drop_last(), cells) + bucket_targets(buckets.last(), cells)
    }
}

/// The table after `command` was put on the high-priority channel of each
/// of `targets`, in turn.
pub open spec fn with_commands<M>(
    cells: Seq<ActorCellView<M>>,
    targets: Seq<TargetView>,
    command: Command,
) -> Seq<ActorCellView<M>>
    decreases targets.len(),
{
    if targets.len() == 0 {
        cells
    } else {
        with_high_priority(
            with_commands(cells, targets.drop_last(), command),
            targets.last().actor as int,
            Envelope::Command(command),
        )
    }
}

/// Two tables agree on which actors can be reached.
pub open spec fn same_liveness<M>(a: Seq<ActorCellView<M>>, b: Seq<ActorCellView<M>>) -> bool {
    forall|actor: int| is_disconnected(a, actor) == is_disconnected(b, actor)
}

/// A sweep from the place `from` on leaves the entries before it as they
/// are, and of the others those whose actors are live, each as often as it
/// was there. All that it leaves from `from` on is live.
pub proof fn lemma_swept<M>(
    observables: Seq<ObservableView>,
    cells: Seq<ActorCellView<M>>,
    from: int,
)
    requires
        0 <= from <= observables.len(),
    ensures
        swept(observables, cells, from).len() >= from,
        swept(observables, cells, from).len() <= observables.len(),
        forall|i: int|
            0 <= i < from ==> #[trigger] swept(observables, cells, from)[i] == observables[i],
        forall|i: int|
            from <= i < swept(observables, cells, from).len() ==> !entry_is_dead(
                cells,
                #[trigger] swept(observables, cells, from)[i],
            ),
        swept(observables, cells, from).to_multiset() == observables.take(from).to_multiset().add(
            live_entries(observables.skip(from), cells).to_multiset(),
        ),
    decreases observables.len() - from,
{
    broadcast use vstd::seq_lib::group_to_multiset_ensures;

    let alive = |entry: ObservableView| !entry_is_dead(cells, entry);
    if from >= observables.len() {
        assert(observables.skip(from) =~= Seq::empty());
        assert(observables.take(from) =~= observables);
        reveal(Seq::filter);
        assert(live_entries(observables.skip(from), cells) =~= Seq::empty());
        assert(observables.to_multiset().add(Seq::<ObservableView>::empty().to_multiset())
            =~= observables.to_multiset());
    } else {
        let head = observables.take(from);
        let tail = observables.skip(from);
        assert(tail =~= seq![observables[from]] + observables.skip(from + 1));
        Seq::filter_distributes_over_add(seq![observables[from]], observables.skip(from + 1), alive);
        assert(seq![observables[from]].filter(alive) =~= if alive(observables[from]) {
            seq![observables[from]]
        } else {
            Seq::empty()
        }) by {
            reveal(Seq::filter);
            assert(seq![observables[from]].drop_last() =~= Seq::empty());
            assert(Seq::<ObservableView>::empty().filter(alive) =~= Seq::empty());
        }
        if entry_is_dead(cells, observables[from]) {
            let next = observables.update(from, observables.last()).drop_last();
            lemma_swept(next, cells, from);
            assert(next.take(from) =~= head);
            // The tail of `next` holds what the tail of `observables` held
            // after its first entry, in another order.
            if from == observables.len() - 1 {
                assert(next.skip(from) =~= Seq::empty());
                assert(observables.skip(from + 1) =~= Seq::empty());
            } else {
                let middle = observables.subrange(from + 1, observables.len() - 1);
                let last = seq![observables.last()];
                assert(next.skip(from) =~= last + middle);
                assert(observables.skip(from + 1) =~= middle + last);
                Seq::filter_distributes_over_add(last, middle, alive);
                Seq::filter_distributes_over_add(middle, last, alive);
                vstd::seq_lib::lemma_multiset_commutative(last.filter(alive), middle.filter(alive));
                vstd::seq_lib::lemma_multiset_commutative(middle.filter(alive), last.filter(alive));
                assert(last.filter(alive).to_multiset().add(middle.filter(alive).to_multiset())
                    =~= middle.filter(alive).to_multiset().add(last.filter(alive).to_multiset()));
            }
            assert(live_entries(next.skip(from), cells).to_multiset() == live_entries(
                tail,
                cells,
            ).to_multiset());
        } else {
            lemma_swept(observables, cells, from + 1);
            let rest = observables.skip(from + 1);
            assert(observables.take(from + 1) =~= head.push(observables[from]));
            vstd::seq_lib::lemma_multiset_commutative(seq![observables[from]], rest.filter(alive));
            assert(head.push(observables[from]).to_multiset().add(rest.filter(alive).to_multiset())
                =~= head.to_multiset().add(
                (seq![observables[from]] + rest.filter(alive)).to_multiset(),
            ));
        }
    }
}

/// One more strong mailbox to an actor that can be reached changes no
/// actor's liveness.
pub proof fn lemma_retain_keeps_liveness<M>(cells: Seq<ActorCellView<M>>, actor: int)
    requires
        !is_disconnected(cells, actor),
    ensures
        same_liveness(cells, with_retained(cells, actor)),
{
}

/// A live registered actor: what a fan-out hands to its caller for each
/// actor that it reached.
#[derive(Debug)]
pub struct LiveActor {
    type_label: String,
    instance_id: String,
    actor: usize,
    join_handle: ActorHandle,
}

impl View for LiveActor {
    type V = TargetView;

    closed spec fn view(&self) -> TargetView {
        TargetView {
            type_label: self.type_label@,
            instance_id: self.instance_id@,
            actor: self.actor,
            join: self.join_handle@,
        }
    }
}

impl LiveActor {
    /// The name of the actor's type.
    pub fn type_label(&self) -> (label: &str)
        ensures
            label@ == self@.type_label,
    {
        self.type_label.as_str()
    }

    /// The instance id of the actor.
    pub fn instance_id(&self) -> (id: &str)
        ensures
            id@ == self@.instance_id,
    {
        self.instance_id.as_str()
    }

    /// The slot of the actor in the actor table.
    pub fn actor(&self) -> (actor: usize)
        ensures
            actor == self@.actor,
    {
        self.actor
    }

    /// The handle on which to await the actor's terminal status.
    pub fn join_handle(&self) -> (handle: ActorHandle)
        ensures
            handle@ == self@.join,
    {
        self.join_handle
    }
}

/// The views of a list of live actors.
pub open spec fn target_views(targets: Seq<LiveActor>) -> Seq<TargetView> {
    targets.map_values(|target: LiveActor| target@)
}

/// The views of a list of strong mailboxes.
pub open spec fn mailbox_views(mailboxes: Seq<Mailbox>) -> Seq<Address> {
    mailboxes.map_values(|mailbox: Mailbox| mailbox@)
}

impl ActorRegistryForSpecificType {
    /// Adds the live actors of this bucket to `targets`.
    fn live_actors<M>(&self, table: &ActorTable<M>, targets: &mut Vec<LiveActor>)
        ensures
            target_views(final(targets)@) == target_views(old(targets)@) + bucket_targets(
                self@,
                table@,
            ),
    {
        let ghost cells = table@;
        let ghost before = target_views(targets@);
        let ghost alive = |entry: ObservableView| !entry_is_dead(cells, entry);
        let ghost label = self@.type_label;
        let ghost to_target = |entry: ObservableView| target_of(label, entry);
        let mut k: usize = 0;
        proof {
            reveal(Seq::filter);
            assert(self@.observables.take(0) =~= Seq::empty());
            assert(self@.observables.take(0).filter(alive).map_values(to_target) =~= Seq::empty());
            assert(target_views(targets@) =~= before + Seq::empty());
        }
        while k < self.observables.len()
            invariant
                k <= self.observables.len(),
                cells == table@,
                before == target_views(old(targets)@),
                label == self@.type_label,
                alive == |entry: ObservableView| !entry_is_dead(cells, entry),
                to_target == |entry: ObservableView| target_of(label, entry),
                target_views(targets@) == before + self@.observables.take(k as int).filter(
                    alive,
                ).map_values(to_target),
            decreases self.observables.len() - k,
        {
            let entry = &self.observables[k];
            let ghost done = self@.observables.take(k as int);
            let ghost done_targets = done.filter(alive).map_values(to_target);
            proof {
                assert(self@.observables.take(k + 1) =~= done.push(entry@));
                done.lemma_filter_push(entry@, alive);
            }
            if !entry.is_disconnected(table) {
                let target = LiveActor {
                    type_label: self.type_label.clone(),
                    instance_id: entry.actor_instance_id.clone(),
                    actor: entry.weak_mailbox.actor(),
                    join_handle: entry.join_handle,
                };
                let ghost earlier = targets@;
                targets.push(target);
                proof {
                    let grown = done.push(entry@).filter(alive).map_values(to_target);
                    assert(grown =~= done_targets.push(to_target(entry@)));
                    assert(target@ == to_target(entry@));
                    assert(target_views(targets@) =~= target_views(earlier).push(target@));
                    assert(target_views(targets@) =~= before + grown);
                }
            }
            k += 1;
        }
        proof {
            assert(self@.observables.take(k as int) =~= self@.observables);
        }
    }
}

/// The registry after an actor was registered: its entry is the last of
/// the bucket of its type, and where no bucket of that type exists, one
/// is made for it, after all the others.
pub open spec fn registered(buckets: Seq<BucketView>, mailbox: Address, join: usize) -> Seq<
    BucketView,
> {
    let entry = ObservableView { instance_id: mailbox.instance_id, mailbox, join };
    let place = bucket_index(buckets, mailbox.type_id, 0);
    if place < buckets.len() {
        buckets.update(
            place,
            BucketView { observables: buckets[place].observables.push(entry), ..buckets[place] },
        )
    } else {
        buckets.push(
            BucketView {
                type_id: mailbox.type_id,
                type_label: mailbox.type_label,
                observables: seq![entry],
            },
        )
    }
}

/// The registry after garbage collection: each bucket swept, none removed.
pub open spec fn swept_registry<M>(buckets: Seq<BucketView>, cells: Seq<ActorCellView<M>>) -> Seq<
    BucketView,
> {
    Seq::new(buckets.len(), |i: int| swept_bucket(buckets[i], cells))
}

/// The views of a list of buckets.
pub open spec fn bucket_views(actors: Seq<ActorRegistryForSpecificType>) -> Seq<BucketView> {
    Seq::new(actors.len(), |i: int| actors[i]@)
}

/// The map knows the place of the bucket of every type that has one, and
/// of no other type.
pub open spec fn places_match(places: Map<u64, usize>, buckets: Seq<BucketView>) -> bool {
    forall|type_id: u64|
        (#[trigger] places.contains_key(type_id) <==> bucket_index(buckets, type_id, 0)
            < buckets.len()) && (places.contains_key(type_id) ==> places[type_id] == bucket_index(
            buckets,
            type_id,
            0,
        ))
}

/// The bucket of a type, where there is one, is a bucket of the registry and
/// has that type.
pub proof fn lemma_bucket_index(buckets: Seq<BucketView>, type_id: u64, from: int)
    requires
        0 <= from <= buckets.len(),
    ensures
        from <= bucket_index(buckets, type_id, from) <= buckets.len(),
        bucket_index(buckets, type_id, from) < buckets.len() ==> buckets[bucket_index(
            buckets,
            type_id,
            from,
        )].type_id == type_id,
    decreases buckets.len() - from,
{
    if from < buckets.len() && buckets[from].type_id != type_id {
        lemma_bucket_index(buckets, type_id, from + 1);
    }
}

/// Where the bucket of a type is depends on the types of the buckets alone.
pub proof fn lemma_same_types_same_places(
    before: Seq<BucketView>,
    after: Seq<BucketView>,
    type_id: u64,
    from: int,
)
    requires
        0 <= from,
        before.len() == after.len(),
        forall|i: int| 0 <= i < before.len() ==> (#[trigger] before[i]).type_id == after[i].type_id,
    ensures
        bucket_index(after, type_id, from) == bucket_index(before, type_id, from),
    decreases before.len() - from,
{
    if from < before.len() {
        assert(before[from].type_id == after[from].type_id);
        lemma_same_types_same_places(before, after, type_id, from + 1);
    }
}

/// A bucket that is added after the others is the bucket of its type if
/// that type had none, and leaves the bucket of every other type where it
/// was.
pub proof fn lemma_added_bucket_place(
    buckets: Seq<BucketView>,
    added: BucketView,
    type_id: u64,
    from: int,
)
    requires
        0 <= from <= buckets.len(),
    ensures
        bucket_index(buckets.push(added), type_id, from) == if bucket_index(
            buckets,
            type_id,
            from,
        ) < buckets.len() {
            bucket_index(buckets, type_id, from)
        } else if added.type_id == type_id {
            buckets.len() as int
        } else {
            (buckets.len() + 1) as int
        },
    decreases buckets.len() - from,
{
    let grown = buckets.push(added);
    if from < buckets.len() {
        assert(grown[from] == buckets[from]);
        if buckets[from].type_id != type_id {
            lemma_added_bucket_place(buckets, added, type_id, from + 1);
        }
    } else {
        assert(grown[from] == added);
        if added.type_id != type_id {
            assert(bucket_index(grown, type_id, from + 1) == grown.len());
        }
    }
}

/// Table of the actors of one running system, by the identity of their
/// type. It holds weak references only: whether an actor is alive depends
/// on its strong mailboxes and on its task, never on the registry. The
/// buckets stand in the order in which their types were first registered;
/// a hash map from the identity of a type to the place of its bucket finds
/// the bucket of a type in one step.
#[derive(Debug)]
pub struct ActorRegistry {
    actors: Vec<ActorRegistryForSpecificType>,
    places: HashMap<u64, usize>,
}

impl View for ActorRegistry {
    type V = Seq<BucketView>;

    closed spec fn view(&self) -> Seq<BucketView> {
        bucket_views(self.actors@)
    }
}

impl Default for ActorRegistry {
    fn default() -> (registry: Self)
        ensures
            registry@ == Seq::<BucketView>::empty(),
    {
        ActorRegistry::new()
    }
}

impl ActorRegistry {
    /// The hash map holds the place of every bucket, by its type.
    #[verifier::type_invariant]
    spec fn well_formed(self) -> bool {
        places_match(self.places@, bucket_views(self.actors@))
    }

    /// A registry without buckets.
    pub fn new() -> (registry: Self)
        ensures
            registry@ == Seq::<BucketView>::empty(),
    {
        broadcast use vstd::std_specs::hash::group_hash_axioms;

        let registry = ActorRegistry { actors: Vec::new(), places: HashMap::new() };
        assert(registry@ =~= Seq::<BucketView>::empty());
        registry
    }

    /// The place of the bucket of `type_id`, or the number of buckets.
    fn find_bucket(&self, type_id: u64) -> (place: usize)
        ensures
            place == bucket_index(self@, type_id, 0),
            place <= self@.len(),
    {
        broadcast use vstd::std_specs::hash::group_hash_axioms;

        proof {
            use_type_invariant(self);
            lemma_bucket_index(self@, type_id, 0);
        }
        match self.places.get(&type_id) {
            Some(place) => *place,
            None => self.actors.len(),
        }
    }

    /// Registers an actor: downgrades its mailbox, wraps it with the join
    /// handle, and appends the entry to the bucket of the actor's type,
    /// which is made if it does not exist yet.
    pub fn register(&mut self, mailbox: &Mailbox, join_handle: ActorHandle)
        ensures
            final(self)@ == registered(old(self)@, mailbox@, join_handle@),
    {
        broadcast use vstd::std_specs::hash::group_hash_axioms;

        let type_id = mailbox.type_id();
        let place = self.find_bucket(type_id);
        let entry = JsonObservable::new(mailbox, join_handle);
        let mut taken = ActorRegistry::new();
        std::mem::swap(self, &mut taken);
        proof {
            use_type_invariant(&taken);
        }
        let ActorRegistry { actors, places } = taken;
        let mut actors = actors;
        let mut places = places;
        let ghost before = bucket_views(actors@);
        if place < actors.len() {
            actors[place].push(entry);
            proof {
                let after = bucket_views(actors@);
                assert(after =~= registered(before, mailbox@, join_handle@));
                assert forall|other: u64|
                    bucket_index(after, other, 0) == bucket_index(before, other, 0) by {
                    lemma_same_types_same_places(before, after, other, 0);
                }
            }
        } else {
            let mut bucket = ActorRegistryForSpecificType::for_type(type_id, mailbox.type_label());
            bucket.push(entry);
            assert(bucket@.observables =~= seq![entry@]);
            let ghost added = bucket@;
            actors.push(bucket);
            places.insert(type_id, place);
            proof {
                let after = bucket_views(actors@);
                assert(after =~= before.push(added));
                assert(after =~= registered(before, mailbox@, join_handle@));
                assert forall|other: u64|
                    bucket_index(after, other, 0) == if bucket_index(before, other, 0)
                        < before.len() {
                        bucket_index(before, other, 0)
                    } else if other == type_id {
                        before.len() as int
                    } else {
                        (before.len() + 1) as int
                    } by {
                    lemma_added_bucket_place(before, added, other, 0);
                }
            }
        }
        *self = ActorRegistry { actors, places };
    }

    /// Removes from every bucket the entries whose actors can no longer be
    /// reached.
    pub fn gc<M>(&mut self, table: &ActorTable<M>)
        ensures
            final(self)@ == swept_registry(old(self)@, table@),
    {
        broadcast use vstd::std_specs::hash::group_hash_axioms;

        let mut taken = ActorRegistry::new();
        std::mem::swap(self, &mut taken);
        proof {
            use_type_invariant(&taken);
        }
        let ActorRegistry { actors, places } = taken;
        let mut actors = actors;
        let ghost before = bucket_views(actors@);
        let mut place: usize = 0;
        while place < actors.len()
            invariant
                place <= actors.len(),
                actors@.len() == before.len(),
                forall|i: int|
                    0 <= i < place ==> (#[trigger] actors@[i])@ == swept_bucket(before[i], table@),
                forall|i: int| place <= i < actors@.len() ==> (#[trigger] actors@[i])@ == before[i],
            decreases actors.len() - place,
        {
            let ghost earlier = actors@;
            actors[place].gc(table);
            proof {
                assert forall|i: int| 0 <= i < place + 1 implies (#[trigger] actors@[i])@
                    == swept_bucket(before[i], table@) by {
                    if i < place {
                        assert(actors@[i] == earlier[i]);
                    }
                }
                assert forall|i: int| place + 1 <= i < actors@.len() implies (
                #[trigger] actors@[i])@ == before[i] by {
                    assert(actors@[i] == earlier[i]);
                }
            }
            place += 1;
        }
        proof {
            let after = bucket_views(actors@);
            assert(after =~= swept_registry(before, table@));
            assert forall|other: u64|
                bucket_index(after, other, 0) == bucket_index(before, other, 0) by {
                lemma_same_types_same_places(before, after, other, 0);
            }
        }
        *self = ActorRegistry { actors, places };
    }

    /// A strong mailbox for every live actor of one type, in the order of
    /// the type's bucket. Entries that do not upgrade are skipped, and stay
    /// in the registry until the next garbage collection. A type that was
    /// never registered yields an empty list.
    pub fn get<M>(&self, table: &mut ActorTable<M>, type_id: u64) -> (mailboxes: Vec<Mailbox>)
        ensures
            mailbox_views(mailboxes@) == addresses(found_entries(self@, old(table)@, type_id)),
            final(table)@ == with_all_retained(
                old(table)@,
                addresses(found_entries(self@, old(table)@, type_id)),
            ),
    {
        let mut mailboxes: Vec<Mailbox> = Vec::new();
        let place = self.find_bucket(type_id);
        if place >= self.actors.len() {
            assert(mailbox_views(mailboxes@) =~= Seq::empty());
            assert(addresses(Seq::empty()) =~= Seq::empty());
            return mailboxes;
        }
        let bucket = &self.actors[place];
        let ghost cells = table@;
        let ghost alive = |entry: ObservableView| !entry_is_dead(cells, entry);
        let mut k: usize = 0;
        proof {
            reveal(Seq::filter);
            assert(bucket@.observables.take(0) =~= Seq::empty());
            assert(addresses(bucket@.observables.take(0).filter(alive)) =~= Seq::empty());
            assert(mailbox_views(mailboxes@) =~= Seq::empty());
        }
        while k < bucket.observables.len()
            invariant
                k <= bucket.observables.len(),
                alive == |entry: ObservableView| !entry_is_dead(cells, entry),
                mailbox_views(mailboxes@) == addresses(
                    bucket@.observables.take(k as int).filter(alive),
                ),
                table@ == with_all_retained(
                    cells,
                    addresses(bucket@.observables.take(k as int).filter(alive)),
                ),
                same_liveness(cells, table@),
            decreases bucket.observables.len() - k,
        {
            let entry = &bucket.observables[k];
            let ghost done = bucket@.observables.take(k as int);
            let ghost mid = table@;
            proof {
                assert(bucket@.observables.take(k + 1) =~= done.push(entry@));
                done.lemma_filter_push(entry@, alive);
                assert(entry_is_dead(cells, entry@) == entry_is_dead(table@, entry@));
            }
            match table.upgrade(&entry.weak_mailbox) {
                Some(mailbox) => {
                    mailboxes.push(mailbox);
                    proof {
                        let grown = addresses(done.push(entry@).filter(alive));
                        assert(grown =~= addresses(done.filter(alive)).push(entry@.mailbox));
                        assert(grown.drop_last() =~= addresses(done.filter(alive)));
                        assert(mailbox_views(mailboxes@) =~= grown);
                        lemma_retain_keeps_liveness(mid, entry@.mailbox.actor as int);
                    }
                },
                None => {},
            }
            k += 1;
        }
        proof {
            assert(bucket@.observables.take(k as int) =~= bucket@.observables);
        }
        mailboxes
    }

    /// A strong mailbox for the first live actor of one type, if there is
    /// one.
    pub fn get_one<M>(&self, table: &mut ActorTable<M>, type_id: u64) -> (mailbox: Option<Mailbox>)
        ensures
            match mailbox {
                Some(strong) => found_entries(self@, old(table)@, type_id).len() > 0 && strong@
                    == found_entries(self@, old(table)@, type_id).first().mailbox && final(table)@
                    == with_retained(old(table)@, strong@.actor as int),
                None => found_entries(self@, old(table)@, type_id).len() == 0 && final(table)@
                    == old(table)@,
            },
    {
        let place = self.find_bucket(type_id);
        if place >= self.actors.len() {
            return None;
        }
        let bucket = &self.actors[place];
        let ghost cells = table@;
        let ghost alive = |entry: ObservableView| !entry_is_dead(cells, entry);
        let mut k: usize = 0;
        proof {
            reveal(Seq::filter);
            assert(bucket@.observables.take(0) =~= Seq::empty());
        }
        while k < bucket.observables.len()
            invariant
                k <= bucket.observables.len(),
                alive == |entry: ObservableView| !entry_is_dead(cells, entry),
                bucket@.observables.take(k as int).filter(alive).len() == 0,
                table@ == cells,
                cells == old(table)@,
                place == bucket_index(self@, type_id, 0),
                place < self@.len(),
                self@[place as int] == bucket@,
            decreases bucket.observables.len() - k,
        {
            let entry = &bucket.observables[k];
            let ghost done = bucket@.observables.take(k as int);
            proof {
                assert(bucket@.observables.take(k + 1) =~= done.push(entry@));
                done.lemma_filter_push(entry@, alive);
            }
            match table.upgrade(&entry.weak_mailbox) {
                Some(mailbox) => {
                    proof {
                        let all = bucket@.observables;
                        assert(all =~= all.take(k + 1) + all.skip(k + 1));
                        Seq::filter_distributes_over_add(all.take(k + 1), all.skip(k + 1), alive);
                        assert(!entry_is_dead(cells, entry@));
                        assert(all.take(k + 1).filter(alive) =~= seq![entry@]);
                        assert(all.filter(alive) == seq![entry@] + all.skip(k + 1).filter(alive));
                        assert(all.filter(alive)[0] == entry@);
                        assert(self@[place as int] == bucket@);
                        assert(found_entries(self@, cells, type_id) == all.filter(alive));
                    }
                    return Some(mailbox);
                },
                None => {},
            }
            k += 1;
        }
        proof {
            assert(bucket@.observables.take(k as int) =~= bucket@.observables);
        }
        None
    }

    /// The live actors of all buckets: bucket after bucket, and in each
    /// bucket in its order.
    pub fn live_actors<M>(&self, table: &ActorTable<M>) -> (targets: Vec<LiveActor>)
        ensures
            target_views(targets@) == live_targets(self@, table@),
    {
        let mut targets: Vec<LiveActor> = Vec::new();
        let mut place: usize = 0;
        proof {
            assert(self@.take(0) =~= Seq::empty());
            assert(target_views(targets@) =~= Seq::empty());
        }
        while place < self.actors.len()
            invariant
                place <= self.actors.len(),
                target_views(targets@) == live_targets(self@.take(place as int), table@),
            decreases self.actors.len() - place,
        {
            self.actors[place].live_actors(table, &mut targets);
            proof {
                assert(self@.take(place + 1).drop_last() =~= self@.take(place as int));
                assert(self@.take(place + 1).last() == self@[place as int]);
            }
            place += 1;
        }
        proof {
            assert(self@.take(place as int) =~= self@);
        }
        targets
    }

    /// First half of an observation of all actors. Garbage collection runs
    /// first; then every live actor gets an observe request on its
    /// high-priority channel. The result names the actors that were asked,
    /// one for each live entry, and keeps the time that each has to reply.
    pub fn observe<M>(&mut self, table: &mut ActorTable<M>, timeout: core::time::Duration) -> (round:
        ObservationRound)
        ensures
            final(self)@ == swept_registry(old(self)@, old(table)@),
            round.timeout() == timeout,
            round@ == live_targets(final(self)@, old(table)@),
            final(table)@ == with_commands(old(table)@, round@, Command::Observe),
    {
        self.gc(table);
        let targets = self.live_actors(table);
        send_to_all(table, &targets, Command::Observe);
        ObservationRound { timeout, targets }
    }

    /// First half of a shutdown of all actors: every live actor gets the
    /// quit command on its high-priority channel. Entries whose actors are
    /// disconnected are skipped. The result names the actors whose terminal
    /// status is to be awaited.
    pub fn quit<M>(&self, table: &mut ActorTable<M>) -> (targets: Vec<LiveActor>)
        ensures
            target_views(targets@) == live_targets(self@, old(table)@),
            final(table)@ == with_commands(old(table)@, target_views(targets@), Command::Quit),
    {
        let targets = self.live_actors(table);
        send_to_all(table, &targets, Command::Quit);
        targets
    }

    /// The live actors whose terminal status is to be awaited, for a caller
    /// that knows that their shutdown was asked for elsewhere.
    pub fn join<M>(&self, table: &ActorTable<M>) -> (targets: Vec<LiveActor>)
        ensures
            target_views(targets@) == live_targets(self@, table@),
    {
        self.live_actors(table)
    }
}

/// The table after each of `targets` was joined, in turn.
pub open spec fn with_all_joined<M>(cells: Seq<ActorCellView<M>>, targets: Seq<TargetView>) -> Seq<
    ActorCellView<M>,
>
    decreases targets.len(),
{
    if targets.len() == 0 {
        cells
    } else {
        after_join(with_all_joined(cells, targets.drop_last()), targets.last().join as int)
    }
}

/// A join of one actor changes no actor's status: neither that of another
/// actor, nor, joined again, its own.
pub proof fn lemma_join_keeps_statuses<M>(cells: Seq<ActorCellView<M>>, joined: int, actor: int)
    ensures
        join_status(after_join(cells, joined), actor) == join_status(cells, actor),
{
}

/// Joins of many actors change no actor's status.
pub proof fn lemma_joins_keep_statuses<M>(
    cells: Seq<ActorCellView<M>>,
    targets: Seq<TargetView>,
    actor: int,
)
    ensures
        join_status(with_all_joined(cells, targets), actor) == join_status(cells, actor),
    decreases targets.len(),
{
    if targets.len() > 0 {
        lemma_joins_keep_statuses(cells, targets.drop_last(), actor);
        lemma_join_keeps_statuses(
            with_all_joined(cells, targets.drop_last()),
            targets.last().join as int,
            actor,
        );
    }
}

/// Second half of a shutdown: joins each of the actors that a fan-out has
/// named. There is one result for each actor, in the same order: its exit
/// status, or nothing for an actor whose task still runs.
pub fn exit_statuses<M>(table: &mut ActorTable<M>, targets: &Vec<LiveActor>) -> (statuses: Vec<
    Option<ActorExitStatus>,
>)
    ensures
        statuses@.len() == targets@.len(),
        forall|i: int|
            0 <= i < targets@.len() ==> #[trigger] statuses@[i] == join_status(
                old(table)@,
                targets@[i]@.join as int,
            ),
        final(table)@ == with_all_joined(old(table)@, target_views(targets@)),
{
    let ghost views = target_views(targets@);
    let mut statuses: Vec<Option<ActorExitStatus>> = Vec::new();
    let mut i: usize = 0;
    proof {
        assert(views.take(0) =~= Seq::empty());
    }
    while i < targets.len()
        invariant
            i <= targets@.len(),
            views == target_views(targets@),
            statuses@.len() == i,
            table@ == with_all_joined(old(table)@, views.take(i as int)),
            forall|j: int|
                0 <= j < i ==> #[trigger] statuses@[j] == join_status(
                    old(table)@,
                    targets@[j]@.join as int,
                ),
        decreases targets@.len() - i,
    {
        proof {
            lemma_joins_keep_statuses(
                old(table)@,
                views.take(i as int),
                targets@[i as int]@.join as int,
            );
            assert(views.take(i + 1).drop_last() =~= views.take(i as int));
            assert(views.take(i + 1).last() == targets@[i as int]@);
        }
        let status = table.join(&targets[i].join_handle);
        statuses.push(status);
        i += 1;
    }
    proof {
        assert(views.take(i as int) =~= views);
    }
    statuses
}

/// Puts `command` on the high-priority channel of each of `targets`, in
/// turn.
fn send_to_all<M>(table: &mut ActorTable<M>, targets: &Vec<LiveActor>, command: Command)
    ensures
        final(table)@ == with_commands(old(table)@, target_views(targets@), command),
{
    let ghost views = target_views(targets@);
    let mut i: usize = 0;
    proof {
        assert(views.take(0) =~= Seq::empty());
    }
    while i < targets.len()
        invariant
            i <= targets@.len(),
            views == target_views(targets@),
            table@ == with_commands(old(table)@, views.take(i as int), command),
        decreases targets@.len() - i,
    {
        let _ = table.send_command(targets[i].actor, command);
        proof {
            assert(views.take(i + 1).drop_last() =~= views.take(i as int));
            assert(views.take(i + 1).last() == targets@[i as int]@);
        }
        i += 1;
    }
    proof {
        assert(views.take(i as int) =~= views);
    }
}

/// The actors that one observation asked for a snapshot, and the time that
/// each of them has to reply.
#[derive(Debug)]
pub struct ObservationRound {
    timeout: core::time::Duration,
    targets: Vec<LiveActor>,
}

impl View for ObservationRound {
    type V = Seq<TargetView>;

    closed spec fn view(&self) -> Seq<TargetView> {
        target_views(self.targets@)
    }
}

impl ObservationRound {
    /// The time that each actor has to reply.
    pub closed spec fn timeout(&self) -> core::time::Duration {
        self.timeout
    }

    /// The time that each actor has to reply.
    pub fn reply_timeout(&self) -> (timeout: core::time::Duration)
        ensures
            timeout == self.timeout(),
    {
        self.timeout
    }

    /// The number of actors that were asked.
    pub fn len(&self) -> (len: usize)
        ensures
            len == self@.len(),
    {
        self.targets.len()
    }

    /// The actor that was asked in place `i`.
    pub fn target(&self, i: usize) -> (target: &LiveActor)
        requires
            i < self@.len(),
        ensures
            target@ == self@[i as int],
    {
        &self.targets[i]
    }
}

/// `serde_json::Value`, the form in which an actor's snapshot travels. The
/// library carries such a value from the actor to the observer and never
/// looks inside.
#[verifier::external_type_specification]
#[verifier::external_body]
pub struct ExJsonValue(serde_json::Value);

/// Result of one observation attempt.
#[derive(Debug)]
pub struct ActorObservation {
    /// The name of the actor's type.
    pub type_label: String,
    /// The instance id of the actor.
    pub instance_id: String,
    /// The snapshot of the actor's state; absent when the actor did not
    /// reply in time or was disconnected.
    pub obs: Option<serde_json::Value>,
}

impl ObservationRound {
    /// What the observation in place `i` shows when the replies came in as
    /// `replies`: the tags of the actor that was asked, and its snapshot. A
    /// place without a reply counts as a reply that did not come.
    pub open spec fn shows(
        self,
        replies: Seq<Option<serde_json::Value>>,
        i: int,
        observation: ActorObservation,
    ) -> bool {
        &&& observation.type_label@ == self@[i].type_label
        &&& observation.instance_id@ == self@[i].instance_id
        &&& observation.obs == if i < replies.len() {
            replies[i]
        } else {
            None
        }
    }

    /// Second half of an observation. `replies[i]` is the snapshot that the
    /// actor in place `i` sent back, or nothing if it did not reply within
    /// the timeout or was disconnected. There is one observation for each
    /// actor that was asked, in the same order: a missing snapshot never
    /// fails the round.
    pub fn complete(self, replies: Vec<Option<serde_json::Value>>) -> (observations: Vec<
        ActorObservation,
    >)
        ensures
            observations@.len() == self@.len(),
            forall|i: int|
                0 <= i < self@.len() ==> self.shows(replies@, i, #[trigger] observations@[i]),
    {
        let mut replies = replies;
        let ghost given = replies@;
        let mut observations: Vec<ActorObservation> = Vec::new();
        let mut i: usize = 0;
        while i < self.targets.len()
            invariant
                i <= self.targets.len(),
                observations@.len() == i,
                replies@.len() == given.len(),
                forall|j: int| i <= j < given.len() ==> replies@[j] == given[j],
                forall|j: int| 0 <= j < i ==> self.shows(given, j, #[trigger] observations@[j]),
            decreases self.targets.len() - i,
        {
            let target = &self.targets[i];
            let obs = if i < replies.len() {
                replies[i].take()
            } else {
                None
            };
            observations.push(
                ActorObservation {
                    type_label: target.type_label.clone(),
                    instance_id: target.instance_id.clone(),
                    obs,
                },
            );
            i += 1;
        }
        observations
    }
}

} // verus!

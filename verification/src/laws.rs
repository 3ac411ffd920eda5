use vstd::prelude::*;
use crate::actor_table::{
    after_join,
    finished,
    fresh_cell,
    is_consistent,
    is_disconnected,
    is_running,
    join_status,
    poll_activity,
    polled,
    with_released,
    Activity,
    ActorCellView,
};
use crate::delete_task_pipeline::{
    is_quitting,
    lemma_shut_down_quits_every_worker,
    shut_down,
    WorkerView,
};
use crate::exit_status::{ActorExitStatus, TaskOutcome};
use crate::mailbox::{Address, Command, Envelope};
use crate::registry::{
    addresses,
    lemma_bucket_index,
    lemma_retain_keeps_liveness,
    registered,
    same_liveness,
    with_all_retained,
    with_commands,
    bucket_index,
    entry_is_dead,
    found_entries,
    TargetView,
    lemma_swept,
    live_entries,
    live_targets,
    bucket_targets,
    swept,
    swept_bucket,
    swept_registry,
    BucketView,
    ObservableView,
};

verus! {

/// The actor has no strong mailbox left and its task has ended.
pub open spec fn is_gone<M>(cells: Seq<ActorCellView<M>>, actor: int) -> bool {
    0 <= actor < cells.len() ==> cells[actor].strong_mailboxes == 0 && cells[actor].outcome
        is Some
}

/// The number of live entries of all buckets.
pub open spec fn live_count<M>(buckets: Seq<BucketView>, cells: Seq<ActorCellView<M>>) -> nat
    decreases buckets.len(),
{
    if buckets.len() == 0 {
        0
    } else {
        live_count(buckets.drop_last(), cells) + live_entries(
            buckets.last().observables,
            cells,
        ).len()
    }
}

/// A list of entries whose actors are all live is the list of its live
/// entries.
pub proof fn lemma_all_live<M>(observables: Seq<ObservableView>, cells: Seq<ActorCellView<M>>)
    requires
        forall|i: int| 0 <= i < observables.len() ==> !entry_is_dead(cells, observables[i]),
    ensures
        live_entries(observables, cells) == observables,
    decreases observables.len(),
{
    reveal(Seq::filter);
    if observables.len() > 0 {
        lemma_all_live(observables.drop_last(), cells);
        assert(observables.drop_last().push(observables.last()) =~= observables);
    }
}

/// A list of entries whose actors are all disconnected has no live entry.
pub proof fn lemma_none_live<M>(observables: Seq<ObservableView>, cells: Seq<ActorCellView<M>>)
    requires
        forall|i: int| 0 <= i < observables.len() ==> entry_is_dead(cells, observables[i]),
    ensures
        live_entries(observables, cells).len() == 0,
    decreases observables.len(),
{
    reveal(Seq::filter);
    if observables.len() > 0 {
        lemma_none_live(observables.drop_last(), cells);
    }
}

/// A sweep leaves a list alone that holds no dead entry from `from` on.
pub proof fn lemma_sweep_of_live<M>(
    observables: Seq<ObservableView>,
    cells: Seq<ActorCellView<M>>,
    from: int,
)
    requires
        0 <= from,
        forall|i: int| from <= i < observables.len() ==> !entry_is_dead(cells, observables[i]),
    ensures
        swept(observables, cells, from) == observables,
    decreases observables.len() - from,
{
    if from < observables.len() {
        lemma_sweep_of_live(observables, cells, from + 1);
    }
}

/// Garbage collection of a bucket keeps exactly the live entries, each as
/// often as the bucket held it, and nothing else.
pub proof fn lemma_gc_keeps_the_live<M>(
    observables: Seq<ObservableView>,
    cells: Seq<ActorCellView<M>>,
)
    ensures
        forall|i: int|
            0 <= i < swept(observables, cells, 0).len() ==> !entry_is_dead(
                cells,
                #[trigger] swept(observables, cells, 0)[i],
            ),
        swept(observables, cells, 0).to_multiset() == live_entries(
            observables,
            cells,
        ).to_multiset(),
        swept(observables, cells, 0).len() == live_entries(observables, cells).len(),
        live_entries(swept(observables, cells, 0), cells) == swept(observables, cells, 0),
{
    broadcast use vstd::seq_lib::group_to_multiset_ensures;

    lemma_swept(observables, cells, 0);
    assert(observables.take(0) =~= Seq::empty());
    assert(observables.skip(0) =~= observables);
    assert(Seq::<ObservableView>::empty().to_multiset().add(
        live_entries(observables, cells).to_multiset(),
    ) =~= live_entries(observables, cells).to_multiset());
    lemma_all_live(swept(observables, cells, 0), cells);
    vstd::seq_lib::to_multiset_len(swept(observables, cells, 0));
    vstd::seq_lib::to_multiset_len(live_entries(observables, cells));
}

/// Garbage collection is idempotent: a second pass over the same table
/// changes nothing.
pub proof fn lemma_gc_is_idempotent<M>(buckets: Seq<BucketView>, cells: Seq<ActorCellView<M>>)
    ensures
        swept_registry(swept_registry(buckets, cells), cells) == swept_registry(buckets, cells),
{
    let once = swept_registry(buckets, cells);
    assert forall|i: int| 0 <= i < once.len() implies swept_bucket(once[i], cells) == once[i] by {
        lemma_gc_keeps_the_live(buckets[i].observables, cells);
        lemma_sweep_of_live(once[i].observables, cells, 0);
    }
    assert(swept_registry(once, cells) =~= once);
}

/// Garbage collection keeps every bucket in its place.
pub proof fn lemma_gc_keeps_buckets<M>(
    buckets: Seq<BucketView>,
    cells: Seq<ActorCellView<M>>,
    type_id: u64,
    from: int,
)
    requires
        0 <= from,
    ensures
        bucket_index(swept_registry(buckets, cells), type_id, from) == bucket_index(
            buckets,
            type_id,
            from,
        ),
    decreases buckets.len() - from,
{
    if from < buckets.len() {
        lemma_gc_keeps_buckets(buckets, cells, type_id, from + 1);
    }
}

/// A lookup never finds a disconnected actor: every entry that `get` and
/// `get_one` go by addresses an actor that runs and has a strong mailbox.
pub proof fn lemma_found_actors_are_live<M>(
    buckets: Seq<BucketView>,
    cells: Seq<ActorCellView<M>>,
    type_id: u64,
)
    ensures
        forall|i: int|
            0 <= i < found_entries(buckets, cells, type_id).len() ==> !is_disconnected(
                cells,
                (#[trigger] found_entries(buckets, cells, type_id)[i]).mailbox.actor as int,
            ),
{
    broadcast use vstd::seq_lib::group_filter_ensures;

    let place = bucket_index(buckets, type_id, 0);
    lemma_bucket_index(buckets, type_id, 0);
    if place < buckets.len() {
        let alive = |entry: ObservableView| !entry_is_dead(cells, entry);
        assert forall|i: int|
            0 <= i < found_entries(buckets, cells, type_id).len() implies !is_disconnected(
            cells,
            (#[trigger] found_entries(buckets, cells, type_id)[i]).mailbox.actor as int,
        ) by {
            buckets[place].observables.lemma_filter_pred(alive, i);
        }
    }
}

/// Once every strong mailbox of the actors of one type was dropped and
/// their tasks have ended, a lookup of that type finds nobody: at once, and
/// after a garbage collection, which leaves the bucket of the type empty.
pub proof fn lemma_gone_actors_are_absent<M>(
    buckets: Seq<BucketView>,
    cells: Seq<ActorCellView<M>>,
    type_id: u64,
)
    requires
        bucket_index(buckets, type_id, 0) < buckets.len() ==> forall|i: int|
            0 <= i < buckets[bucket_index(buckets, type_id, 0)].observables.len() ==> is_gone(
                cells,
                (#[trigger] buckets[bucket_index(
                    buckets,
                    type_id,
                    0,
                )].observables[i]).mailbox.actor as int,
            ),
    ensures
        found_entries(buckets, cells, type_id).len() == 0,
        found_entries(swept_registry(buckets, cells), cells, type_id).len() == 0,
        bucket_index(buckets, type_id, 0) < buckets.len() ==> swept_registry(
            buckets,
            cells,
        )[bucket_index(buckets, type_id, 0)].observables.len() == 0,
{
    let place = bucket_index(buckets, type_id, 0);
    lemma_bucket_index(buckets, type_id, 0);
    lemma_gc_keeps_buckets(buckets, cells, type_id, 0);
    if place < buckets.len() {
        let observables = buckets[place].observables;
        assert forall|i: int| 0 <= i < observables.len() implies entry_is_dead(
            cells,
            observables[i],
        ) by {
            assert(is_gone(cells, observables[i].mailbox.actor as int));
        }
        lemma_none_live(observables, cells);
        lemma_gc_keeps_the_live(observables, cells);
    }
}

/// An actor that was killed is disconnected at once: no lookup finds it
/// from then on, and a lookup of a type whose every entry addresses the
/// killed actor finds nobody.
pub proof fn lemma_killed_actor_is_absent<M>(
    buckets: Seq<BucketView>,
    cells: Seq<ActorCellView<M>>,
    actor: int,
    type_id: u64,
)
    ensures
        is_disconnected(finished(cells, actor, TaskOutcome::Cancelled), actor),
        forall|i: int|
            0 <= i < found_entries(
                buckets,
                finished(cells, actor, TaskOutcome::Cancelled),
                type_id,
            ).len() ==> (#[trigger] found_entries(
                buckets,
                finished(cells, actor, TaskOutcome::Cancelled),
                type_id,
            )[i]).mailbox.actor != actor,
        (bucket_index(buckets, type_id, 0) < buckets.len() ==> forall|i: int|
            0 <= i < buckets[bucket_index(buckets, type_id, 0)].observables.len() ==> (
            #[trigger] buckets[bucket_index(buckets, type_id, 0)].observables[i]).mailbox.actor
                == actor) ==> found_entries(
            buckets,
            finished(cells, actor, TaskOutcome::Cancelled),
            type_id,
        ).len() == 0,
{
    let after = finished(cells, actor, TaskOutcome::Cancelled);
    assert(!is_running(after, actor));
    lemma_found_actors_are_live(buckets, after, type_id);
    let place = bucket_index(buckets, type_id, 0);
    lemma_bucket_index(buckets, type_id, 0);
    if place < buckets.len() && (forall|i: int|
        0 <= i < buckets[place].observables.len() ==> (
        #[trigger] buckets[place].observables[i]).mailbox.actor == actor) {
        lemma_none_live(buckets[place].observables, after);
    }
}

/// The live actors that a fan-out reaches are as many as the live entries
/// of the registry.
pub proof fn lemma_fan_out_is_complete<M>(buckets: Seq<BucketView>, cells: Seq<ActorCellView<M>>)
    ensures
        live_targets(buckets, cells).len() == live_count(buckets, cells),
    decreases buckets.len(),
{
    if buckets.len() > 0 {
        lemma_fan_out_is_complete(buckets.drop_last(), cells);
        assert(bucket_targets(buckets.last(), cells).len() == live_entries(
            buckets.last().observables,
            cells,
        ).len());
    }
}

/// The garbage collection with which an observation begins loses no live
/// actor and adds none: bucket by bucket the live entries are the same
/// before and after, each as often as it was there, and so is their number.
pub proof fn lemma_gc_keeps_live_count<M>(buckets: Seq<BucketView>, cells: Seq<ActorCellView<M>>)
    ensures
        live_count(swept_registry(buckets, cells), cells) == live_count(buckets, cells),
        forall|i: int|
            0 <= i < buckets.len() ==> live_entries(
                (#[trigger] swept_registry(buckets, cells)[i]).observables,
                cells,
            ).to_multiset() == live_entries(buckets[i].observables, cells).to_multiset(),
    decreases buckets.len(),
{
    assert forall|i: int| 0 <= i < buckets.len() implies live_entries(
        (#[trigger] swept_registry(buckets, cells)[i]).observables,
        cells,
    ).to_multiset() == live_entries(buckets[i].observables, cells).to_multiset() by {
        lemma_gc_keeps_the_live(buckets[i].observables, cells);
    }
    if buckets.len() > 0 {
        lemma_gc_keeps_live_count(buckets.drop_last(), cells);
        lemma_gc_keeps_the_live(buckets.last().observables, cells);
        assert(swept_registry(buckets, cells).drop_last() =~= swept_registry(
            buckets.drop_last(),
            cells,
        ));
    }
}

/// An observation of all actors is complete: it asks exactly as many actors
/// as the registry held live entries when it began, one for each.
pub proof fn lemma_observe_is_complete<M>(buckets: Seq<BucketView>, cells: Seq<ActorCellView<M>>)
    ensures
        live_targets(swept_registry(buckets, cells), cells).len() == live_count(buckets, cells),
{
    lemma_fan_out_is_complete(swept_registry(buckets, cells), cells);
    lemma_gc_keeps_live_count(buckets, cells);
}

/// Which entries of a list are live depends on the liveness of their own
/// actors alone.
pub proof fn lemma_live_entries_agree<M>(
    observables: Seq<ObservableView>,
    a: Seq<ActorCellView<M>>,
    b: Seq<ActorCellView<M>>,
)
    requires
        forall|i: int|
            0 <= i < observables.len() ==> entry_is_dead(a, #[trigger] observables[i])
                == entry_is_dead(b, observables[i]),
    ensures
        live_entries(observables, a) == live_entries(observables, b),
    decreases observables.len(),
{
    reveal(Seq::filter);
    if observables.len() > 0 {
        lemma_live_entries_agree(observables.drop_last(), a, b);
        assert(entry_is_dead(a, observables[observables.len() - 1]) == entry_is_dead(
            b,
            observables[observables.len() - 1],
        ));
    }
}

/// Every entry of the registry addresses an actor of the table.
pub open spec fn registry_fits<M>(buckets: Seq<BucketView>, cells: Seq<ActorCellView<M>>) -> bool {
    forall|i: int, j: int|
        0 <= i < buckets.len() && 0 <= j < buckets[i].observables.len() ==> (
        #[trigger] buckets[i].observables[j]).mailbox.actor < cells.len()
}

/// To put another bucket in the place of one changes the number of live
/// entries by the difference between the two.
pub proof fn lemma_live_count_update<M>(
    buckets: Seq<BucketView>,
    place: int,
    bucket: BucketView,
    cells: Seq<ActorCellView<M>>,
)
    requires
        0 <= place < buckets.len(),
    ensures
        live_count(buckets.update(place, bucket), cells) + live_entries(
            buckets[place].observables,
            cells,
        ).len() == live_count(buckets, cells) + live_entries(bucket.observables, cells).len(),
    decreases buckets.len(),
{
    let updated = buckets.update(place, bucket);
    if place == buckets.len() - 1 {
        assert(updated.drop_last() =~= buckets.drop_last());
    } else {
        lemma_live_count_update(buckets.drop_last(), place, bucket, cells);
        assert(updated.drop_last() =~= buckets.drop_last().update(place, bucket));
    }
}

/// The number of live entries depends on the liveness of the registered
/// actors alone.
pub proof fn lemma_live_count_agrees<M>(
    buckets: Seq<BucketView>,
    a: Seq<ActorCellView<M>>,
    b: Seq<ActorCellView<M>>,
)
    requires
        forall|i: int, j: int|
            0 <= i < buckets.len() && 0 <= j < buckets[i].observables.len() ==> entry_is_dead(
                a,
                #[trigger] buckets[i].observables[j],
            ) == entry_is_dead(b, buckets[i].observables[j]),
    ensures
        live_count(buckets, a) == live_count(buckets, b),
    decreases buckets.len(),
{
    if buckets.len() > 0 {
        let rest = buckets.drop_last();
        assert forall|i: int, j: int|
            0 <= i < rest.len() && 0 <= j < rest[i].observables.len() implies entry_is_dead(
            a,
            #[trigger] rest[i].observables[j],
        ) == entry_is_dead(b, rest[i].observables[j]) by {
            assert(rest[i] == buckets[i]);
        }
        lemma_live_count_agrees(rest, a, b);
        let last = buckets[buckets.len() - 1];
        assert forall|j: int| 0 <= j < last.observables.len() implies entry_is_dead(
            a,
            #[trigger] last.observables[j],
        ) == entry_is_dead(b, last.observables[j]) by {
            assert(buckets[buckets.len() - 1].observables[j] == last.observables[j]);
        }
        lemma_live_entries_agree(last.observables, a, b);
    }
}

/// Each actor that is spawned and registered is one more live actor: the
/// number of actors that a fan-out reaches grows by one, whatever the type
/// of the new actor, and no other actor's liveness changes.
pub proof fn lemma_spawn_adds_one_live_actor<M>(
    buckets: Seq<BucketView>,
    cells: Seq<ActorCellView<M>>,
    address: Address,
    join: usize,
    downstream: Option<usize>,
)
    requires
        registry_fits(buckets, cells),
        address.actor == cells.len(),
    ensures
        live_count(registered(buckets, address, join), cells.push(fresh_cell(downstream)))
            == live_count(buckets, cells) + 1,
        registry_fits(registered(buckets, address, join), cells.push(fresh_cell(downstream))),
{
    let grown = cells.push(fresh_cell::<M>(downstream));
    let after = registered(buckets, address, join);
    let entry = ObservableView { instance_id: address.instance_id, mailbox: address, join };
    let alive = |entry: ObservableView| !entry_is_dead(grown, entry);
    let place = bucket_index(buckets, address.type_id, 0);
    lemma_bucket_index(buckets, address.type_id, 0);
    assert(!entry_is_dead(grown, entry));
    assert forall|i: int, j: int|
        0 <= i < buckets.len() && 0 <= j < buckets[i].observables.len() implies entry_is_dead(
        cells,
        #[trigger] buckets[i].observables[j],
    ) == entry_is_dead(grown, buckets[i].observables[j]) by {
        let actor = buckets[i].observables[j].mailbox.actor as int;
        assert(actor < cells.len());
        assert(grown[actor] == cells[actor]);
    }
    lemma_live_count_agrees(buckets, cells, grown);
    if place < buckets.len() {
        let bucket = BucketView {
            observables: buckets[place].observables.push(entry),
            ..buckets[place]
        };
        lemma_live_count_update(buckets, place, bucket, grown);
        buckets[place].observables.lemma_filter_push(entry, alive);
        assert forall|i: int, j: int|
            0 <= i < after.len() && 0 <= j < after[i].observables.len() implies (
        #[trigger] after[i].observables[j]).mailbox.actor < grown.len() by {
            if i != place {
                assert(after[i] == buckets[i]);
                assert(buckets[i].observables[j].mailbox.actor < cells.len());
            } else if j < buckets[place].observables.len() {
                assert(after[i].observables[j] == buckets[place].observables[j]);
                assert(buckets[place].observables[j].mailbox.actor < cells.len());
            }
        }
    } else {
        assert(after.drop_last() =~= buckets);
        reveal(Seq::filter);
        assert(seq![entry].drop_last() =~= Seq::empty());
        assert(seq![entry].filter(alive) =~= seq![entry]);
        assert forall|i: int, j: int|
            0 <= i < after.len() && 0 <= j < after[i].observables.len() implies (
        #[trigger] after[i].observables[j]).mailbox.actor < grown.len() by {
            if i < buckets.len() {
                assert(after[i] == buckets[i]);
                assert(buckets[i].observables[j].mailbox.actor < cells.len());
            }
        }
    }
}

/// Every step that a table can take keeps it consistent.
pub proof fn lemma_steps_keep_consistency<M>(
    cells: Seq<ActorCellView<M>>,
    actor: int,
    envelope: crate::mailbox::Envelope<M>,
    message: M,
    outcome: TaskOutcome,
    downstream: Option<usize>,
)
    requires
        is_consistent(cells),
    ensures
        is_consistent(Seq::<ActorCellView<M>>::empty()),
        is_consistent(cells.push(fresh_cell(downstream))),
        is_consistent(crate::actor_table::with_retained(cells, actor)),
        is_consistent(with_released(cells, actor)),
        is_consistent(crate::actor_table::with_high_priority(cells, actor, envelope)),
        is_consistent(crate::actor_table::with_message(cells, actor, message)),
        is_consistent(finished(cells, actor, outcome)),
        is_consistent(polled(cells, actor)),
        is_consistent(after_join(cells, actor)),
{
    assert forall|other: int| 0 <= other < cells.len() implies (#[trigger] cells[other]).joined
        is Some ==> cells[other].outcome is Some by {}
    let ended = finished(cells, actor, outcome);
    assert forall|other: int| 0 <= other < ended.len() implies ((#[trigger] ended[other]).joined
        matches Some(status) ==> ended[other].outcome matches Some(ending) && status
        == ending.exit_status()) by {
        assert(cells[other].joined is Some ==> cells[other].outcome is Some);
    }
    let after = polled(cells, actor);
    assert forall|other: int| 0 <= other < after.len() implies ((#[trigger] after[other]).joined
        matches Some(status) ==> after[other].outcome matches Some(ending) && status
        == ending.exit_status()) by {
        assert(cells[other].joined is Some ==> cells[other].outcome is Some);
    }
}

/// A join of an actor is idempotent: once a join has returned a status,
/// every later join returns the same status, and the table stays as the
/// first join left it.
pub proof fn lemma_table_join_is_idempotent<M>(cells: Seq<ActorCellView<M>>, actor: int)
    requires
        join_status(cells, actor) is Some,
    ensures
        join_status(after_join(cells, actor), actor) == join_status(cells, actor),
        after_join(after_join(cells, actor), actor) == after_join(cells, actor),
{
    assert(after_join(after_join(cells, actor), actor) =~= after_join(cells, actor));
}

/// An actor that waits for its next message, when its last strong mailbox
/// is dropped, finds its channel closed at its next poll and ends with
/// success.
pub proof fn lemma_last_mailbox_dropped_ends_with_success<M>(
    cells: Seq<ActorCellView<M>>,
    actor: int,
)
    requires
        is_consistent(cells),
        poll_activity(cells, actor) == Activity::<M>::Idle,
        cells[actor].strong_mailboxes == 1,
    ensures
        poll_activity(with_released(cells, actor), actor) == Activity::<M>::Exit(
            ActorExitStatus::Success,
        ),
        join_status(polled(with_released(cells, actor), actor), actor) == Some(
            ActorExitStatus::Success,
        ),
        is_disconnected(with_released(cells, actor), actor),
{
}

/// What is on the high-priority channel goes first: while that channel
/// holds an item, a poll serves it and leaves the normal channel as it is,
/// whatever the normal channel holds.
pub proof fn lemma_high_priority_goes_first<M>(cells: Seq<ActorCellView<M>>, actor: int)
    requires
        is_running(cells, actor),
        cells[actor].high_priority.len() > 0,
    ensures
        poll_activity(cells, actor) == match cells[actor].high_priority.first() {
            crate::mailbox::Envelope::Command(crate::mailbox::Command::Quit) => Activity::Exit(
                ActorExitStatus::Success,
            ),
            crate::mailbox::Envelope::Command(crate::mailbox::Command::Observe) => Activity::Observe,
            crate::mailbox::Envelope::Message(message) => Activity::Message(message),
        },
        !(poll_activity(cells, actor) is Exit) ==> polled(cells, actor)[actor].low_priority
            == cells[actor].low_priority && polled(cells, actor)[actor].high_priority
            == cells[actor].high_priority.drop_first(),
{
}

/// A fan-out reaches live actors only: an actor that is disconnected is
/// left out of every observation, quit and join.
pub proof fn lemma_fan_out_reaches_the_live_only<M>(
    buckets: Seq<BucketView>,
    cells: Seq<ActorCellView<M>>,
)
    ensures
        forall|i: int|
            0 <= i < live_targets(buckets, cells).len() ==> !is_disconnected(
                cells,
                (#[trigger] live_targets(buckets, cells)[i]).actor as int,
            ),
    decreases buckets.len(),
{
    if buckets.len() > 0 {
        lemma_fan_out_reaches_the_live_only(buckets.drop_last(), cells);
        let earlier = live_targets(buckets.drop_last(), cells);
        let last = buckets.last();
        let alive = |entry: ObservableView| !entry_is_dead(cells, entry);
        assert forall|i: int| 0 <= i < live_targets(buckets, cells).len() implies !is_disconnected(
            cells,
            (#[trigger] live_targets(buckets, cells)[i]).actor as int,
        ) by {
            if i >= earlier.len() {
                let k = i - earlier.len();
                last.observables.lemma_filter_pred(alive, k);
                assert(live_targets(buckets, cells)[i] == bucket_targets(last, cells)[k]);
            } else {
                assert(live_targets(buckets, cells)[i] == earlier[i]);
            }
        }
    }
}

/// Commands change no actor's liveness: an observation and a request to
/// quit leave every actor as reachable as it was.
pub proof fn lemma_commands_keep_liveness<M>(
    cells: Seq<ActorCellView<M>>,
    targets: Seq<TargetView>,
    command: Command,
)
    ensures
        same_liveness(cells, with_commands(cells, targets, command)),
    decreases targets.len(),
{
    if targets.len() > 0 {
        lemma_commands_keep_liveness(cells, targets.drop_last(), command);
    }
}

/// The strong mailboxes that a lookup hands out change no actor's
/// liveness: the registry finds actors, it never keeps one alive nor brings
/// one back.
pub proof fn lemma_lookup_keeps_liveness<M>(
    buckets: Seq<BucketView>,
    cells: Seq<ActorCellView<M>>,
    type_id: u64,
)
    ensures
        same_liveness(
            cells,
            with_all_retained(cells, addresses(found_entries(buckets, cells, type_id))),
        ),
{
    lemma_found_actors_are_live(buckets, cells, type_id);
    let found = found_entries(buckets, cells, type_id);
    lemma_retained_live_keep_liveness(cells, addresses(found));
}

/// One more strong mailbox for each of a list of live actors changes no
/// actor's liveness.
pub proof fn lemma_retained_live_keep_liveness<M>(
    cells: Seq<ActorCellView<M>>,
    targets: Seq<Address>,
)
    requires
        forall|i: int|
            0 <= i < targets.len() ==> !is_disconnected(cells, (#[trigger] targets[i]).actor as int),
    ensures
        same_liveness(cells, with_all_retained(cells, targets)),
    decreases targets.len(),
{
    if targets.len() > 0 {
        let rest = targets.drop_last();
        assert forall|i: int| 0 <= i < rest.len() implies !is_disconnected(
            cells,
            (#[trigger] rest[i]).actor as int,
        ) by {
            assert(rest[i] == targets[i]);
        }
        lemma_retained_live_keep_liveness(cells, rest);
        let before = with_all_retained(cells, rest);
        assert(!is_disconnected(cells, targets[targets.len() - 1].actor as int));
        lemma_retain_keeps_liveness(before, targets.last().actor as int);
    }
}

/// The outcome of a task is assigned once: a task that has ended keeps its
/// outcome, whatever is reported of it later, and its actor stays
/// disconnected.
pub proof fn lemma_outcome_is_assigned_once<M>(
    cells: Seq<ActorCellView<M>>,
    actor: int,
    first: TaskOutcome,
    second: TaskOutcome,
)
    requires
        is_running(cells, actor),
    ensures
        finished(cells, actor, first)[actor].outcome == Some(first),
        finished(finished(cells, actor, first), actor, second) == finished(cells, actor, first),
        polled(finished(cells, actor, first), actor) == finished(cells, actor, first),
        poll_activity(finished(cells, actor, first), actor) == Activity::<M>::Terminated,
        is_disconnected(finished(cells, actor, first), actor),
{
}

/// The table after `times` polls of the loop of one actor.
pub open spec fn polled_times<M>(cells: Seq<ActorCellView<M>>, actor: int, times: nat) -> Seq<
    ActorCellView<M>,
>
    decreases times,
{
    if times == 0 {
        cells
    } else {
        polled_times(polled(cells, actor), actor, (times - 1) as nat)
    }
}

/// How many items wait on the high-priority channel of an actor.
pub open spec fn waiting_commands<M>(cells: Seq<ActorCellView<M>>, actor: int) -> nat {
    if 0 <= actor < cells.len() {
        cells[actor].high_priority.len()
    } else {
        0
    }
}

/// A poll, of whichever actor, leaves a quitting actor quitting and an
/// ended actor ended.
pub proof fn lemma_poll_keeps_quitting<M>(cells: Seq<ActorCellView<M>>, polling: int, actor: int)
    requires
        is_quitting(cells, actor),
    ensures
        is_quitting(polled(cells, polling), actor),
        !is_running(cells, actor) ==> !is_running(polled(cells, polling), actor),
        polled(cells, polling).len() == cells.len(),
{
    if is_running(cells, actor) && polling == actor {
        let queue = cells[actor].high_priority;
        if poll_activity(cells, actor) is Exit {
        } else {
            assert(queue.len() >= 2);
            assert(queue.drop_first().last() == queue.last());
        }
    }
}

/// Polls, of whichever actor, leave a quitting actor quitting and an ended
/// actor ended.
pub proof fn lemma_polls_keep_quitting<M>(
    cells: Seq<ActorCellView<M>>,
    polling: int,
    times: nat,
    actor: int,
)
    requires
        is_quitting(cells, actor),
    ensures
        is_quitting(polled_times(cells, polling, times), actor),
        !is_running(cells, actor) ==> !is_running(polled_times(cells, polling, times), actor),
        polled_times(cells, polling, times).len() == cells.len(),
    decreases times,
{
    if times > 0 {
        lemma_poll_keeps_quitting(cells, polling, actor);
        lemma_polls_keep_quitting(polled(cells, polling), polling, (times - 1) as nat, actor);
    }
}

/// An actor that is quitting ends: once its loop has polled as often as
/// items were waiting on its high-priority channel, its task has ended.
pub proof fn lemma_quitting_actor_ends<M>(cells: Seq<ActorCellView<M>>, actor: int)
    requires
        is_quitting(cells, actor),
    ensures
        !is_running(polled_times(cells, actor, waiting_commands(cells, actor)), actor),
    decreases waiting_commands(cells, actor),
{
    let times = waiting_commands(cells, actor);
    if !is_running(cells, actor) {
        lemma_polls_keep_quitting(cells, actor, times, actor);
    } else {
        let next = polled(cells, actor);
        lemma_poll_keeps_quitting(cells, actor, actor);
        if is_running(next, actor) {
            assert(waiting_commands(next, actor) == times - 1);
            lemma_quitting_actor_ends(next, actor);
        } else {
            lemma_polls_keep_quitting(next, actor, (times - 1) as nat, actor);
        }
    }
}

/// The table after each of the first `count` workers has served what was
/// waiting on its high-priority channel, one worker after the other.
pub open spec fn served<M>(cells: Seq<ActorCellView<M>>, workers: Seq<WorkerView>, count: int) -> Seq<
    ActorCellView<M>,
>
    decreases count,
{
    if count <= 0 || count > workers.len() {
        cells
    } else {
        let before = served(cells, workers, count - 1);
        let actor = workers[count - 1].handle@ as int;
        polled_times(before, actor, waiting_commands(before, actor))
    }
}

/// Workers that are quitting have all ended once each has served what was
/// waiting on its high-priority channel.
pub proof fn lemma_quitting_workers_end<M>(
    cells: Seq<ActorCellView<M>>,
    workers: Seq<WorkerView>,
    count: int,
)
    requires
        0 <= count <= workers.len(),
        forall|rank: int|
            0 <= rank < workers.len() ==> is_quitting(cells, (#[trigger] workers[rank]).handle@ as int),
    ensures
        forall|rank: int|
            0 <= rank < workers.len() ==> is_quitting(
                served(cells, workers, count),
                (#[trigger] workers[rank]).handle@ as int,
            ),
        forall|rank: int|
            0 <= rank < count ==> !is_running(
                served(cells, workers, count),
                (#[trigger] workers[rank]).handle@ as int,
            ),
    decreases count,
{
    if count > 0 {
        lemma_quitting_workers_end(cells, workers, count - 1);
        let before = served(cells, workers, count - 1);
        let actor = workers[count - 1].handle@ as int;
        let times = waiting_commands(before, actor);
        assert(is_quitting(before, actor));
        lemma_quitting_actor_ends(before, actor);
        assert forall|rank: int| 0 <= rank < workers.len() implies is_quitting(
            served(cells, workers, count),
            (#[trigger] workers[rank]).handle@ as int,
        ) by {
            lemma_polls_keep_quitting(before, actor, times, workers[rank].handle@ as int);
        }
        assert forall|rank: int| 0 <= rank < count implies !is_running(
            served(cells, workers, count),
            (#[trigger] workers[rank]).handle@ as int,
        ) by {
            if rank < count - 1 {
                lemma_polls_keep_quitting(before, actor, times, workers[rank].handle@ as int);
            }
        }
    }
}

/// An actor whose task has ended is reached by no fan-out and found by no
/// lookup.
pub proof fn lemma_ended_actor_is_nowhere<M>(
    buckets: Seq<BucketView>,
    cells: Seq<ActorCellView<M>>,
    actor: int,
    type_id: u64,
)
    requires
        !is_running(cells, actor),
    ensures
        is_disconnected(cells, actor),
        forall|i: int|
            0 <= i < live_targets(buckets, cells).len() ==> (#[trigger] live_targets(
                buckets,
                cells,
            )[i]).actor != actor,
        forall|i: int|
            0 <= i < found_entries(buckets, cells, type_id).len() ==> (#[trigger] found_entries(
                buckets,
                cells,
                type_id,
            )[i]).mailbox.actor != actor,
{
    lemma_fan_out_reaches_the_live_only(buckets, cells);
    lemma_found_actors_are_live(buckets, cells, type_id);
}

/// When a pipeline has let go of its workers, and each worker has served
/// what was waiting on its high-priority channel, no worker is left: each
/// task has ended, no observation, quit or join reaches a worker, and no
/// lookup finds one. It is so for the six workers of a pipeline that ends,
/// and for the workers that a failed spawning had made.
pub proof fn lemma_pipeline_leaves_no_worker<M>(
    buckets: Seq<BucketView>,
    cells: Seq<ActorCellView<M>>,
    workers: Seq<WorkerView>,
    rank: int,
    type_id: u64,
)
    requires
        0 <= rank < workers.len(),
    ensures
        !is_running(
            served(shut_down(cells, workers, workers.len() as int), workers, workers.len() as int),
            workers[rank].handle@ as int,
        ),
        forall|i: int|
            0 <= i < live_targets(
                buckets,
                served(
                    shut_down(cells, workers, workers.len() as int),
                    workers,
                    workers.len() as int,
                ),
            ).len() ==> (#[trigger] live_targets(
                buckets,
                served(
                    shut_down(cells, workers, workers.len() as int),
                    workers,
                    workers.len() as int,
                ),
            )[i]).actor != workers[rank].handle@,
        forall|i: int|
            0 <= i < found_entries(
                buckets,
                served(
                    shut_down(cells, workers, workers.len() as int),
                    workers,
                    workers.len() as int,
                ),
                type_id,
            ).len() ==> (#[trigger] found_entries(
                buckets,
                served(
                    shut_down(cells, workers, workers.len() as int),
                    workers,
                    workers.len() as int,
                ),
                type_id,
            )[i]).mailbox.actor != workers[rank].handle@,
{
    let count = workers.len() as int;
    let let_go = shut_down(cells, workers, count);
    assert forall|place: int| 0 <= place < workers.len() implies is_quitting(
        let_go,
        (#[trigger] workers[place]).handle@ as int,
    ) by {
        lemma_shut_down_quits_every_worker(cells, workers, count, place);
    }
    lemma_quitting_workers_end(let_go, workers, count);
    let after = served(let_go, workers, count);
    assert(!is_running(after, workers[rank].handle@ as int));
    lemma_ended_actor_is_nowhere(buckets, after, workers[rank].handle@ as int, type_id);
}

} // verus!

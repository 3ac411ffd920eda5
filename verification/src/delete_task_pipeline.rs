use vstd::prelude::*;
use vstd::string::StringExecFns;
use crate::actor_table::{
    fresh_cell,
    is_running,
    with_high_priority,
    with_released,
    with_retained,
    ActorCellView,
    ActorHandle,
};
use crate::duration::{duration_from_secs, duration_secs, duration_subsec_nanos};
use crate::mailbox::{Address, Command, Envelope, Mailbox};
use crate::registry::{registered, BucketView};
use crate::supervisor::SupervisorState;
use crate::universe::Universe;

verus! {

/// The time between two observations that the pipeline makes of its
/// workers, in seconds. It serves observation, not supervision.
pub const OBSERVE_PIPELINE_INTERVAL_SECS: u64 = 60;

/// The number of workers of a delete task pipeline.
pub const STAGE_COUNT: usize = 6;

/// The identity of the type of the first stage's worker; the types of the
/// other stages follow it, one by one.
pub const STAGE_TYPE_ID_BASE: u64 = 0x7374_6167_6500;

/// The stages of the pipeline, from the final consumer to the first
/// producer: the order in which their workers are spawned.
#[derive(Debug, Clone, Copy, PartialEq, Eq, Structural)]
pub enum PipelineStage {
    Publisher,
    Uploader,
    Packager,
    DeleteTaskExecutor,
    Downloader,
    DeleteTaskPlanner,
}

impl PipelineStage {
    /// The place of the stage in the order of spawning: 0 for the final
    /// consumer, 5 for the first producer.
    pub open spec fn rank(self) -> int {
        match self {
            PipelineStage::Publisher => 0,
            PipelineStage::Uploader => 1,
            PipelineStage::Packager => 2,
            PipelineStage::DeleteTaskExecutor => 3,
            PipelineStage::Downloader => 4,
            PipelineStage::DeleteTaskPlanner => 5,
        }
    }

    /// The stage in a given place; the first producer for a place past the
    /// end.
    pub open spec fn of_rank(rank: int) -> PipelineStage {
        if rank <= 0 {
            PipelineStage::Publisher
        } else if rank == 1 {
            PipelineStage::Uploader
        } else if rank == 2 {
            PipelineStage::Packager
        } else if rank == 3 {
            PipelineStage::DeleteTaskExecutor
        } else if rank == 4 {
            PipelineStage::Downloader
        } else {
            PipelineStage::DeleteTaskPlanner
        }
    }

    /// The stage to which this stage sends what it has worked on; none for
    /// the final consumer.
    pub open spec fn downstream(self) -> Option<PipelineStage> {
        if self.rank() == 0 {
            None
        } else {
            Some(Self::of_rank(self.rank() - 1))
        }
    }

    /// The name of the type of the stage's worker.
    pub open spec fn label(self) -> Seq<char> {
        match self {
            PipelineStage::Publisher => "Publisher"@,
            PipelineStage::Uploader => "Uploader"@,
            PipelineStage::Packager => "Packager"@,
            PipelineStage::DeleteTaskExecutor => "DeleteTaskExecutor"@,
            PipelineStage::Downloader => "MergeSplitDownloader"@,
            PipelineStage::DeleteTaskPlanner => "DeleteTaskPlanner"@,
        }
    }

    /// The identity of the type of the stage's worker.
    pub open spec fn id(self) -> u64 {
        (STAGE_TYPE_ID_BASE + self.rank()) as u64
    }

    /// The place of the stage in the order of spawning.
    pub fn position(&self) -> (rank: usize)
        ensures
            rank == self.rank(),
    {
        match self {
            PipelineStage::Publisher => 0,
            PipelineStage::Uploader => 1,
            PipelineStage::Packager => 2,
            PipelineStage::DeleteTaskExecutor => 3,
            PipelineStage::Downloader => 4,
            PipelineStage::DeleteTaskPlanner => 5,
        }
    }

    /// The stage in a given place.
    pub fn at(rank: usize) -> (stage: PipelineStage)
        ensures
            stage == Self::of_rank(rank as int),
    {
        if rank == 0 {
            PipelineStage::Publisher
        } else if rank == 1 {
            PipelineStage::Uploader
        } else if rank == 2 {
            PipelineStage::Packager
        } else if rank == 3 {
            PipelineStage::DeleteTaskExecutor
        } else if rank == 4 {
            PipelineStage::Downloader
        } else {
            PipelineStage::DeleteTaskPlanner
        }
    }

    /// The name of the type of the stage's worker.
    pub fn type_label(&self) -> (label: &'static str)
        ensures
            label@ == self.label(),
    {
        match self {
            PipelineStage::Publisher => "Publisher",
            PipelineStage::Uploader => "Uploader",
            PipelineStage::Packager => "Packager",
            PipelineStage::DeleteTaskExecutor => "DeleteTaskExecutor",
            PipelineStage::Downloader => "MergeSplitDownloader",
            PipelineStage::DeleteTaskPlanner => "DeleteTaskPlanner",
        }
    }

    /// The identity of the type of the stage's worker.
    pub fn type_id(&self) -> (type_id: u64)
        ensures
            type_id == self.id(),
    {
        STAGE_TYPE_ID_BASE + (self.position() as u64)
    }
}

/// The observable state of the pipeline: for each stage, what its
/// supervisor has counted.
#[derive(Debug, Clone, Copy, PartialEq, Eq, Structural)]
pub struct DeleteTaskPipelineState {
    pub delete_task_planner: SupervisorState,
    pub downloader: SupervisorState,
    pub delete_task_executor: SupervisorState,
    pub packager: SupervisorState,
    pub uploader: SupervisorState,
    pub publisher: SupervisorState,
}

impl Default for DeleteTaskPipelineState {
    fn default() -> (state: Self)
        ensures
            forall|stage: PipelineStage| #[trigger]
                state.of_stage(stage) == (SupervisorState {
                    num_panics: 0,
                    num_errors: 0,
                    num_kills: 0,
                }),
    {
        DeleteTaskPipelineState {
            delete_task_planner: SupervisorState::default(),
            downloader: SupervisorState::default(),
            delete_task_executor: SupervisorState::default(),
            packager: SupervisorState::default(),
            uploader: SupervisorState::default(),
            publisher: SupervisorState::default(),
        }
    }
}

impl DeleteTaskPipelineState {
    /// What the state holds for one stage.
    pub open spec fn of_stage(self, stage: PipelineStage) -> SupervisorState {
        match stage {
            PipelineStage::Publisher => self.publisher,
            PipelineStage::Uploader => self.uploader,
            PipelineStage::Packager => self.packager,
            PipelineStage::DeleteTaskExecutor => self.delete_task_executor,
            PipelineStage::Downloader => self.downloader,
            PipelineStage::DeleteTaskPlanner => self.delete_task_planner,
        }
    }

    /// What the state holds for one stage.
    pub fn stage(&self, stage: PipelineStage) -> (state: SupervisorState)
        ensures
            state == self.of_stage(stage),
    {
        match stage {
            PipelineStage::Publisher => self.publisher,
            PipelineStage::Uploader => self.uploader,
            PipelineStage::Packager => self.packager,
            PipelineStage::DeleteTaskExecutor => self.delete_task_executor,
            PipelineStage::Downloader => self.downloader,
            PipelineStage::DeleteTaskPlanner => self.delete_task_planner,
        }
    }
}

/// One worker of the pipeline, as the contracts see it.
pub struct WorkerView {
    /// The address of the strong mailbox that the pipeline holds.
    pub mailbox: Address,
    /// The handle on the worker's task.
    pub handle: ActorHandle,
}

/// The pipeline's hold on one of its workers: a strong mailbox, which
/// keeps the worker alive, and the handle on its task.
#[derive(Debug)]
pub struct WorkerHandle {
    mailbox: Mailbox,
    handle: ActorHandle,
}

impl View for WorkerHandle {
    type V = WorkerView;

    closed spec fn view(&self) -> WorkerView {
        WorkerView { mailbox: self.mailbox@, handle: self.handle }
    }
}

impl WorkerHandle {
    /// The strong mailbox of the worker.
    pub fn mailbox(&self) -> (mailbox: &Mailbox)
        ensures
            mailbox@ == self@.mailbox,
    {
        &self.mailbox
    }

    /// The handle on the worker's task.
    pub fn handle(&self) -> (handle: ActorHandle)
        ensures
            handle == self@.handle,
    {
        self.handle
    }
}

/// Why a pipeline could not be spawned: the stage whose preparation
/// failed, and the error that the preparation gave. The workers that were
/// spawned before the failure were let go of at once; `joins` names their
/// tasks, the last spawned first, for the caller to await.
#[derive(Debug)]
pub struct SpawnFailure<E> {
    pub stage: PipelineStage,
    pub error: E,
    pub joins: Vec<ActorHandle>,
}

/// The address of the worker of one stage, in a given slot, in a pipeline
/// for the index `index_uid`.
pub open spec fn stage_address(stage: PipelineStage, index_uid: Seq<char>, actor: usize) -> Address {
    Address {
        actor,
        instance_id: stage.label() + "-"@ + index_uid,
        type_id: stage.id(),
        type_label: stage.label(),
    }
}

/// The pipeline's hold on the worker of one stage, where the first worker
/// of the pipeline has the slot `first`.
pub open spec fn worker_view(
    rank: int,
    index_uid: Seq<char>,
    first: int,
    handle: ActorHandle,
) -> WorkerView {
    WorkerView {
        mailbox: stage_address(PipelineStage::of_rank(rank), index_uid, (first + rank) as usize),
        handle,
    }
}

/// The hold is the pipeline's hold on the worker of the stage in place
/// `rank`, where the first worker of the pipeline has the slot `first`.
pub open spec fn holds_stage(worker: WorkerView, rank: int, index_uid: Seq<char>, first: int) -> bool {
    &&& worker.mailbox == stage_address(
        PipelineStage::of_rank(rank),
        index_uid,
        (first + rank) as usize,
    )
    &&& worker.handle@ == first + rank
}

/// The table after the worker in place `rank` was spawned, where the
/// worker spawned before it, if any, is the last of the table. The new
/// worker gets the next slot. But for the final consumer, it holds a strong
/// mailbox of the worker that was spawned just before it: its downstream.
pub open spec fn after_stage<M>(actors: Seq<ActorCellView<M>>, rank: int) -> Seq<ActorCellView<M>> {
    if rank <= 0 {
        actors.push(fresh_cell(None))
    } else {
        with_retained(actors, actors.len() - 1).push(
            fresh_cell(Some((actors.len() - 1) as usize)),
        )
    }
}

/// The table after the first `count` workers were spawned, consumer first.
pub open spec fn after_stages<M>(actors: Seq<ActorCellView<M>>, count: int) -> Seq<
    ActorCellView<M>,
>
    decreases count,
{
    if count <= 0 {
        actors
    } else {
        after_stage(after_stages(actors, count - 1), count - 1)
    }
}

/// The registry after the first `count` workers were registered, where the
/// first worker has the slot `first`.
pub open spec fn registry_after_stages(
    buckets: Seq<BucketView>,
    index_uid: Seq<char>,
    first: int,
    count: int,
) -> Seq<BucketView>
    decreases count,
{
    if count <= 0 {
        buckets
    } else {
        registered(
            registry_after_stages(buckets, index_uid, first, count - 1),
            stage_address(
                PipelineStage::of_rank(count - 1),
                index_uid,
                (first + count - 1) as usize,
            ),
            (first + count - 1) as usize,
        )
    }
}

/// The table after the pipeline let go of one worker: the worker was asked
/// to quit, and the strong mailbox that the pipeline held was given back.
pub open spec fn let_go<M>(actors: Seq<ActorCellView<M>>, worker: WorkerView) -> Seq<
    ActorCellView<M>,
> {
    with_released(
        with_high_priority(actors, worker.handle@ as int, Envelope::Command(Command::Quit)),
        worker.mailbox.actor as int,
    )
}

/// The table after the pipeline let go of its first `count` workers, the
/// last of them first: the producer before the consumer.
pub open spec fn shut_down<M>(
    actors: Seq<ActorCellView<M>>,
    workers: Seq<WorkerView>,
    count: int,
) -> Seq<ActorCellView<M>>
    decreases count,
{
    if count <= 0 || count > workers.len() {
        actors
    } else {
        shut_down(let_go(actors, workers[count - 1]), workers, count - 1)
    }
}

/// The workers that a spawning had made when it failed, consumer first,
/// where `joins` names their tasks the last spawned first and the first of
/// them has the slot `first`.
pub open spec fn spawned_workers(joins: Seq<ActorHandle>, index_uid: Seq<char>, first: int) -> Seq<
    WorkerView,
> {
    Seq::new(
        joins.len(),
        |rank: int| worker_view(rank, index_uid, first, joins[joins.len() - 1 - rank]),
    )
}

/// The actor has ended, or the last item of its high-priority channel is
/// the quit command: it ends once it has served what was queued before.
pub open spec fn is_quitting<M>(cells: Seq<ActorCellView<M>>, actor: int) -> bool {
    is_running(cells, actor) ==> cells[actor].high_priority.len() > 0
        && cells[actor].high_priority.last() == Envelope::<M>::Command(Command::Quit)
}

/// An actor that is quitting stays so when the pipeline lets go of workers.
pub proof fn lemma_shut_down_keeps_quitting<M>(
    cells: Seq<ActorCellView<M>>,
    workers: Seq<WorkerView>,
    count: int,
    actor: int,
)
    requires
        is_quitting(cells, actor),
    ensures
        is_quitting(shut_down(cells, workers, count), actor),
    decreases count,
{
    if 0 < count <= workers.len() {
        lemma_shut_down_keeps_quitting(let_go(cells, workers[count - 1]), workers, count - 1, actor);
    }
}

/// When the pipeline lets go of its workers it leaves none of them running
/// for good: each has ended or has the quit command as the last item of its
/// high-priority channel.
pub proof fn lemma_shut_down_quits_every_worker<M>(
    cells: Seq<ActorCellView<M>>,
    workers: Seq<WorkerView>,
    count: int,
    rank: int,
)
    requires
        0 <= rank < count <= workers.len(),
    ensures
        is_quitting(shut_down(cells, workers, count), workers[rank].handle@ as int),
    decreases count,
{
    let next = let_go(cells, workers[count - 1]);
    if rank == count - 1 {
        lemma_shut_down_keeps_quitting(next, workers, count - 1, workers[rank].handle@ as int);
    } else {
        lemma_shut_down_quits_every_worker(next, workers, count - 1, rank);
    }
}

/// The pipeline, as the contracts see it.
pub struct PipelineView {
    pub index_uid: Seq<char>,
    pub delete_service_task_dir: Seq<char>,
    pub max_concurrent_split_uploads: usize,
    /// The workers, consumer first; absent until they are spawned and
    /// after the pipeline has let go of them.
    pub handles: Option<Seq<WorkerView>>,
    pub state: DeleteTaskPipelineState,
}

/// Orchestrating actor of a chain of six workers that carry out the delete
/// tasks of one index. It has no work of its own but to wire the workers,
/// to gather their states into its own, and to let go of them at the end.
pub struct DeleteTaskPipeline {
    index_uid: String,
    delete_service_task_dir: String,
    max_concurrent_split_uploads: usize,
    handles: Option<Vec<WorkerHandle>>,
    state: DeleteTaskPipelineState,
}

impl View for DeleteTaskPipeline {
    type V = PipelineView;

    closed spec fn view(&self) -> PipelineView {
        PipelineView {
            index_uid: self.index_uid@,
            delete_service_task_dir: self.delete_service_task_dir@,
            max_concurrent_split_uploads: self.max_concurrent_split_uploads,
            handles: match self.handles {
                Some(workers) => Some(Seq::new(workers@.len(), |i: int| workers@[i]@)),
                None => None,
            },
            state: self.state,
        }
    }
}

impl DeleteTaskPipeline {
    /// A pipeline that holds its workers holds all six of them.
    #[verifier::type_invariant]
    spec fn well_formed(self) -> bool {
        self.handles matches Some(workers) ==> workers@.len() == STAGE_COUNT
    }

    /// A pipeline for one index, without workers yet.
    pub fn new(
        index_uid: &str,
        delete_service_task_dir: &str,
        max_concurrent_split_uploads: usize,
    ) -> (pipeline: Self)
        ensures
            pipeline@.index_uid == index_uid@,
            pipeline@.delete_service_task_dir == delete_service_task_dir@,
            pipeline@.max_concurrent_split_uploads == max_concurrent_split_uploads,
            pipeline@.handles is None,
            forall|stage: PipelineStage| #[trigger]
                pipeline@.state.of_stage(stage) == (SupervisorState {
                    num_panics: 0,
                    num_errors: 0,
                    num_kills: 0,
                }),
    {
        DeleteTaskPipeline {
            index_uid: index_uid.to_owned(),
            delete_service_task_dir: delete_service_task_dir.to_owned(),
            max_concurrent_split_uploads,
            handles: None,
            state: DeleteTaskPipelineState::default(),
        }
    }

    /// The observable state of the pipeline: what it last gathered from its
    /// workers.
    pub fn observable_state(&self) -> (state: DeleteTaskPipelineState)
        ensures
            state == self@.state,
    {
        self.state
    }

    /// The name of the actor.
    pub fn name(&self) -> (name: String)
        ensures
            name@ == "DeleteTaskPipeline"@,
    {
        "DeleteTaskPipeline".to_owned()
    }

    /// The index whose delete tasks the pipeline carries out.
    pub fn index_uid(&self) -> (index_uid: &str)
        ensures
            index_uid@ == self@.index_uid,
    {
        self.index_uid.as_str()
    }

    /// The directory under which the pipeline keeps its scratch files.
    pub fn delete_service_task_dir(&self) -> (dir: &str)
        ensures
            dir@ == self@.delete_service_task_dir,
    {
        self.delete_service_task_dir.as_str()
    }

    /// How many splits the uploader may upload at once.
    pub fn max_concurrent_split_uploads(&self) -> (max: usize)
        ensures
            max == self@.max_concurrent_split_uploads,
    {
        self.max_concurrent_split_uploads
    }

    /// The pipeline's hold on the worker of one stage, while it has workers.
    pub fn worker(&self, stage: PipelineStage) -> (worker: Option<&WorkerHandle>)
        ensures
            match worker {
                Some(held) => self@.handles matches Some(workers) && stage.rank() < workers.len()
                    && held@ == workers[stage.rank()],
                None => self@.handles is None,
            },
    {
        proof {
            use_type_invariant(&*self);
        }
        match &self.handles {
            Some(workers) => Some(&workers[stage.position()]),
            None => None,
        }
    }

    /// Spawns the six workers, downstream first: the final consumer is
    /// spawned first, and each later worker takes over a strong mailbox of
    /// the one spawned before it, until the first producer is spawned last.
    /// Before it spawns the worker of a stage the pipeline calls `prepare`
    /// for that stage, which does what the making of that worker needs
    /// outside the runtime. The first preparation that fails ends the
    /// spawning: the pipeline lets go of the workers spawned so far as
    /// `finalize` does, the last spawned first, so that none of them is left
    /// running; it keeps no handles, and returns the failed stage with its
    /// error and the tasks to await. When all six are spawned the pipeline
    /// holds them.
    pub fn spawn_pipeline<M, E, F: Fn(PipelineStage) -> Result<(), E>>(
        &mut self,
        universe: &mut Universe<M>,
        prepare: F,
    ) -> (spawned: Result<(), SpawnFailure<E>>)
        requires
            old(self)@.handles is None,
            forall|stage: PipelineStage| prepare.requires((stage,)),
        ensures
            final(self)@.index_uid == old(self)@.index_uid,
            final(self)@.delete_service_task_dir == old(self)@.delete_service_task_dir,
            final(self)@.max_concurrent_split_uploads == old(self)@.max_concurrent_split_uploads,
            final(self)@.state == old(self)@.state,
            match spawned {
                Ok(_) => {
                    &&& forall|stage: PipelineStage| #[trigger]
                        prepare.ensures((stage,), Ok::<(), E>(()))
                    &&& final(universe).actors@ == after_stages(
                        old(universe).actors@,
                        STAGE_COUNT as int,
                    )
                    &&& final(universe).registry@ == registry_after_stages(
                        old(universe).registry@,
                        old(self)@.index_uid,
                        old(universe).actors@.len() as int,
                        STAGE_COUNT as int,
                    )
                    &&& final(self)@.handles matches Some(workers)
                    &&& workers.len() == STAGE_COUNT
                    &&& forall|rank: int|
                        0 <= rank < STAGE_COUNT ==> #[trigger] workers[rank].mailbox
                            == stage_address(
                            PipelineStage::of_rank(rank),
                            old(self)@.index_uid,
                            (old(universe).actors@.len() + rank) as usize,
                        ) && workers[rank].handle@ == old(universe).actors@.len() + rank
                },
                Err(failure) => {
                    &&& prepare.ensures((failure.stage,), Err::<(), E>(failure.error))
                    &&& forall|stage: PipelineStage|
                        stage.rank() < failure.stage.rank() ==> #[trigger] prepare.ensures(
                            (stage,),
                            Ok::<(), E>(()),
                        )
                    &&& failure.joins@.len() == failure.stage.rank()
                    &&& forall|i: int|
                        0 <= i < failure.joins@.len() ==> (#[trigger] failure.joins@[i])@
                            == old(universe).actors@.len() + failure.stage.rank() - 1 - i
                    &&& final(universe).actors@ == shut_down(
                        after_stages(old(universe).actors@, failure.stage.rank()),
                        spawned_workers(
                            failure.joins@,
                            old(self)@.index_uid,
                            old(universe).actors@.len() as int,
                        ),
                        failure.stage.rank(),
                    )
                    &&& forall|rank: int|
                        0 <= rank < failure.stage.rank() ==> is_quitting(
                            final(universe).actors@,
                            #[trigger] (old(universe).actors@.len() + rank),
                        )
                    &&& final(universe).registry@ == registry_after_stages(
                        old(universe).registry@,
                        old(self)@.index_uid,
                        old(universe).actors@.len() as int,
                        failure.stage.rank(),
                    )
                    &&& final(self)@.handles is None
                },
            },
    {
        match spawn_workers(self.index_uid.as_str(), universe, prepare) {
            Ok(workers) => {
                let ghost held = workers@;
                self.handles = Some(workers);
                proof {
                    let kept = self@.handles->0;
                    assert forall|rank: int| 0 <= rank < STAGE_COUNT implies #[trigger] kept[rank].mailbox
                        == stage_address(
                        PipelineStage::of_rank(rank),
                        old(self)@.index_uid,
                        (old(universe).actors@.len() + rank) as usize,
                    ) && kept[rank].handle@ == old(universe).actors@.len() + rank by {
                        assert(kept[rank] == held[rank]@);
                        assert(holds_stage(
                            held[rank]@,
                            rank,
                            old(self)@.index_uid,
                            old(universe).actors@.len() as int,
                        ));
                    }
                }
                Ok(())
            },
            Err(failure) => Err(failure),
        }
    }

    /// Handles the pipeline's request to itself to observe its workers.
    /// While the pipeline holds its workers it asks each of them for what
    /// its supervisor has counted, through `observe_worker`, and makes the
    /// six answers its own observable state. A pipeline without workers
    /// keeps its state. In both cases the request is to be sent again: the
    /// result is the time after which the pipeline wants it back.
    pub fn handle<O: Fn(PipelineStage, ActorHandle) -> SupervisorState>(
        &mut self,
        observe_worker: O,
    ) -> (again_in: core::time::Duration)
        requires
            forall|stage: PipelineStage, handle: ActorHandle|
                observe_worker.requires((stage, handle)),
        ensures
            final(self)@.index_uid == old(self)@.index_uid,
            final(self)@.delete_service_task_dir == old(self)@.delete_service_task_dir,
            final(self)@.max_concurrent_split_uploads == old(self)@.max_concurrent_split_uploads,
            final(self)@.handles == old(self)@.handles,
            duration_secs(again_in) == OBSERVE_PIPELINE_INTERVAL_SECS,
            duration_subsec_nanos(again_in) == 0,
            match old(self)@.handles {
                Some(workers) => forall|stage: PipelineStage| #[trigger]
                    observe_worker.ensures(
                        (stage, workers[stage.rank()].handle),
                        final(self)@.state.of_stage(stage),
                    ),
                None => final(self)@.state == old(self)@.state,
            },
    {
        proof {
            use_type_invariant(&*self);
        }
        match &self.handles {
            Some(workers) => {
                let delete_task_planner = observe_worker(
                    PipelineStage::DeleteTaskPlanner,
                    workers[5].handle,
                );
                let downloader = observe_worker(PipelineStage::Downloader, workers[4].handle);
                let delete_task_executor = observe_worker(
                    PipelineStage::DeleteTaskExecutor,
                    workers[3].handle,
                );
                let packager = observe_worker(PipelineStage::Packager, workers[2].handle);
                let uploader = observe_worker(PipelineStage::Uploader, workers[1].handle);
                let publisher = observe_worker(PipelineStage::Publisher, workers[0].handle);
                self.state = DeleteTaskPipelineState {
                    delete_task_planner,
                    downloader,
                    delete_task_executor,
                    packager,
                    uploader,
                    publisher,
                };
            },
            None => {},
        }
        duration_from_secs(OBSERVE_PIPELINE_INTERVAL_SECS)
    }

    /// Starts the pipeline: spawns the workers, and at once observes them
    /// for the first time. The result is the time after which the pipeline
    /// wants to observe them again.
    pub fn initialize<
        M,
        E,
        F: Fn(PipelineStage) -> Result<(), E>,
        O: Fn(PipelineStage, ActorHandle) -> SupervisorState,
    >(&mut self, universe: &mut Universe<M>, prepare: F, observe_worker: O) -> (started: Result<
        core::time::Duration,
        SpawnFailure<E>,
    >)
        requires
            old(self)@.handles is None,
            forall|stage: PipelineStage| prepare.requires((stage,)),
            forall|stage: PipelineStage, handle: ActorHandle|
                observe_worker.requires((stage, handle)),
        ensures
            final(self)@.index_uid == old(self)@.index_uid,
            final(self)@.delete_service_task_dir == old(self)@.delete_service_task_dir,
            final(self)@.max_concurrent_split_uploads == old(self)@.max_concurrent_split_uploads,
            match started {
                Ok(again_in) => {
                    &&& duration_secs(again_in) == OBSERVE_PIPELINE_INTERVAL_SECS
                    &&& duration_subsec_nanos(again_in) == 0
                    &&& final(universe).actors@ == after_stages(
                        old(universe).actors@,
                        STAGE_COUNT as int,
                    )
                    &&& final(universe).registry@ == registry_after_stages(
                        old(universe).registry@,
                        old(self)@.index_uid,
                        old(universe).actors@.len() as int,
                        STAGE_COUNT as int,
                    )
                    &&& final(self)@.handles matches Some(workers)
                    &&& workers.len() == STAGE_COUNT
                    &&& forall|rank: int|
                        0 <= rank < STAGE_COUNT ==> #[trigger] workers[rank].mailbox
                            == stage_address(
                            PipelineStage::of_rank(rank),
                            old(self)@.index_uid,
                            (old(universe).actors@.len() + rank) as usize,
                        ) && workers[rank].handle@ == old(universe).actors@.len() + rank
                    &&& forall|stage: PipelineStage| #[trigger]
                        observe_worker.ensures(
                            (stage, workers[stage.rank()].handle),
                            final(self)@.state.of_stage(stage),
                        )
                },
                Err(failure) => {
                    &&& prepare.ensures((failure.stage,), Err::<(), E>(failure.error))
                    &&& failure.joins@.len() == failure.stage.rank()
                    &&& forall|i: int|
                        0 <= i < failure.joins@.len() ==> (#[trigger] failure.joins@[i])@
                            == old(universe).actors@.len() + failure.stage.rank() - 1 - i
                    &&& final(universe).actors@ == shut_down(
                        after_stages(old(universe).actors@, failure.stage.rank()),
                        spawned_workers(
                            failure.joins@,
                            old(self)@.index_uid,
                            old(universe).actors@.len() as int,
                        ),
                        failure.stage.rank(),
                    )
                    &&& forall|rank: int|
                        0 <= rank < failure.stage.rank() ==> is_quitting(
                            final(universe).actors@,
                            #[trigger] (old(universe).actors@.len() + rank),
                        )
                    &&& final(universe).registry@ == registry_after_stages(
                        old(universe).registry@,
                        old(self)@.index_uid,
                        old(universe).actors@.len() as int,
                        failure.stage.rank(),
                    )
                    &&& final(self)@.handles is None
                    &&& final(self)@.state == old(self)@.state
                },
            },
    {
        match self.spawn_pipeline(universe, prepare) {
            Ok(_) => Ok(self.handle(observe_worker)),
            Err(failure) => Err(failure),
        }
    }

    /// Ends the pipeline, whatever made it end. The pipeline lets go of
    /// every worker it holds, the first producer first: it asks the worker
    /// to quit and gives back the strong mailbox that it held. The result
    /// names the tasks to await before the pipeline's own task ends, so that
    /// no worker is left running. A pipeline without workers has nothing to
    /// do.
    pub fn finalize<M>(&mut self, universe: &mut Universe<M>) -> (joins: Vec<ActorHandle>)
        ensures
            final(self)@.index_uid == old(self)@.index_uid,
            final(self)@.delete_service_task_dir == old(self)@.delete_service_task_dir,
            final(self)@.max_concurrent_split_uploads == old(self)@.max_concurrent_split_uploads,
            final(self)@.state == old(self)@.state,
            final(self)@.handles is None,
            final(universe).registry@ == old(universe).registry@,
            match old(self)@.handles {
                Some(workers) => {
                    &&& final(universe).actors@ == shut_down(
                        old(universe).actors@,
                        workers,
                        STAGE_COUNT as int,
                    )
                    &&& joins@.len() == STAGE_COUNT
                    &&& forall|i: int|
                        0 <= i < STAGE_COUNT ==> #[trigger] joins@[i] == workers[STAGE_COUNT - 1
                            - i].handle
                    &&& forall|rank: int|
                        0 <= rank < STAGE_COUNT ==> is_quitting(
                            final(universe).actors@,
                            (#[trigger] workers[rank]).handle@ as int,
                        )
                },
                None => final(universe).actors@ == old(universe).actors@ && joins@.len() == 0,
            },
    {
        proof {
            use_type_invariant(&*self);
        }
        let mut held: Option<Vec<WorkerHandle>> = None;
        std::mem::swap(&mut self.handles, &mut held);
        match held {
            Some(workers) => {
                let mut workers = workers;
                let_go_of(universe, &mut workers)
            },
            None => Vec::new(),
        }
    }
}

/// Spawns the workers of a pipeline for the index `index_uid`, downstream
/// first, and asks `prepare` before each. When a preparation fails, the
/// workers that were spawned are let go of, the last spawned first.
fn spawn_workers<M, E, F: Fn(PipelineStage) -> Result<(), E>>(
    index_uid: &str,
    universe: &mut Universe<M>,
    prepare: F,
) -> (spawned: Result<Vec<WorkerHandle>, SpawnFailure<E>>)
    requires
        forall|stage: PipelineStage| prepare.requires((stage,)),
    ensures
        match spawned {
            Ok(workers) => {
                &&& forall|stage: PipelineStage| #[trigger]
                    prepare.ensures((stage,), Ok::<(), E>(()))
                &&& final(universe).actors@ == after_stages(
                    old(universe).actors@,
                    STAGE_COUNT as int,
                )
                &&& final(universe).registry@ == registry_after_stages(
                    old(universe).registry@,
                    index_uid@,
                    old(universe).actors@.len() as int,
                    STAGE_COUNT as int,
                )
                &&& workers@.len() == STAGE_COUNT
                &&& forall|rank: int|
                    0 <= rank < STAGE_COUNT ==> holds_stage(
                        (#[trigger] workers@[rank])@,
                        rank,
                        index_uid@,
                        old(universe).actors@.len() as int,
                    )
            },
            Err(failure) => {
                &&& prepare.ensures((failure.stage,), Err::<(), E>(failure.error))
                &&& forall|stage: PipelineStage|
                    stage.rank() < failure.stage.rank() ==> #[trigger] prepare.ensures(
                        (stage,),
                        Ok::<(), E>(()),
                    )
                &&& failure.joins@.len() == failure.stage.rank()
                &&& forall|i: int|
                    0 <= i < failure.joins@.len() ==> (#[trigger] failure.joins@[i])@
                        == old(universe).actors@.len() + failure.stage.rank() - 1 - i
                &&& final(universe).actors@ == shut_down(
                    after_stages(old(universe).actors@, failure.stage.rank()),
                    spawned_workers(
                        failure.joins@,
                        index_uid@,
                        old(universe).actors@.len() as int,
                    ),
                    failure.stage.rank(),
                )
                &&& forall|rank: int|
                    0 <= rank < failure.stage.rank() ==> is_quitting(
                        final(universe).actors@,
                        #[trigger] (old(universe).actors@.len() + rank),
                    )
                &&& final(universe).registry@ == registry_after_stages(
                    old(universe).registry@,
                    index_uid@,
                    old(universe).actors@.len() as int,
                    failure.stage.rank(),
                )
            },
        },
{
    let ghost first = universe.actors@.len() as int;
    let ghost start = universe.actors@;
    let ghost start_registry = universe.registry@;
    let ghost uid = index_uid@;
    let mut workers: Vec<WorkerHandle> = Vec::new();
    let mut failed: Option<(PipelineStage, E)> = None;
    let mut rank: usize = 0;
    while rank < STAGE_COUNT && failed.is_none()
        invariant
            rank <= STAGE_COUNT,
            workers@.len() == rank,
            first == start.len(),
            start == old(universe).actors@,
            start_registry == old(universe).registry@,
            uid == index_uid@,
            universe.actors@ == after_stages(start, rank as int),
            universe.actors@.len() == first + rank,
            universe.registry@ == registry_after_stages(
                start_registry,
                uid,
                first,
                rank as int,
            ),
            forall|j: int| 0 <= j < rank ==> holds_stage((#[trigger] workers@[j])@, j, uid, first),
            forall|stage: PipelineStage|
                stage.rank() < rank ==> #[trigger] prepare.ensures((stage,), Ok::<(), E>(())),
            forall|stage: PipelineStage| prepare.requires((stage,)),
            failed matches Some(failure) ==> failure.0.rank() == rank && prepare.ensures(
                (failure.0,),
                Err::<(), E>(failure.1),
            ),
        decreases
                STAGE_COUNT - rank + if failed is None {
                    1int
                } else {
                    0int
                },
    {
        let stage = PipelineStage::at(rank);
        assert(stage.rank() == rank);
        let prepared = prepare(stage);
        match prepared {
            Err(error) => {
                failed = Some((stage, error));
            },
            Ok(done) => {
                // The stage is prepared: `prepare` has returned `Ok(())`.
                assert(done == ());
                assert(prepared == Ok::<(), E>(done));
                assert forall|earlier: PipelineStage|
                    earlier.rank() < rank + 1 implies #[trigger] prepare.ensures(
                    (earlier,),
                    Ok::<(), E>(()),
                ) by {
                    if earlier.rank() == rank {
                        assert(earlier == stage);
                    }
                }
                let slot = universe.actors.len();
                assert(slot == first + rank);
                let ghost mid = universe.actors@;
                let ghost held = workers@;
                let downstream = if rank == 0 {
                    None
                } else {
                    Some(universe.actors.clone_mailbox(&workers[rank - 1].mailbox))
                };
                let instance_id = String::from_str(stage.type_label()).concat("-").concat(
                    index_uid,
                );
                let (mailbox, handle) = universe.spawn(
                    stage.type_id(),
                    stage.type_label(),
                    instance_id.as_str(),
                    downstream,
                );
                workers.push(WorkerHandle { mailbox, handle });
                proof {
                    if rank > 0 {
                        assert(held[rank - 1]@.mailbox.actor == slot - 1);
                    }
                    assert(universe.actors@ == after_stage(mid, rank as int));
                    assert(after_stages(start, rank + 1) == after_stage(
                        after_stages(start, rank as int),
                        rank as int,
                    ));
                    assert(mailbox@ == stage_address(stage, uid, slot));
                    assert forall|j: int| 0 <= j < rank + 1 implies holds_stage(
                        (#[trigger] workers@[j])@,
                        j,
                        uid,
                        first,
                    ) by {
                        if j < rank {
                            assert(workers@[j] == held[j]);
                            assert(holds_stage(held[j]@, j, uid, first));
                        }
                    }
                }
                rank += 1;
            },
        }
    }
    match failed {
        Some((stage, error)) => {
            let ghost held = workers@;
            let ghost made = Seq::new(held.len(), |j: int| held[j]@);
            let joins = let_go_of(universe, &mut workers);
            proof {
                assert forall|place: int| 0 <= place < rank implies (#[trigger] made[place])
                    == worker_view(place, uid, first, joins@[rank - 1 - place]) by {
                    assert(holds_stage(held[place]@, place, uid, first));
                    assert(joins@[rank - 1 - place] == held[place]@.handle);
                }
                assert(made =~= spawned_workers(joins@, uid, first));
                assert forall|place: int| 0 <= place < rank implies is_quitting(
                    universe.actors@,
                    #[trigger] (first + place),
                ) by {
                    assert(holds_stage(held[place]@, place, uid, first));
                    assert(is_quitting(universe.actors@, held[place]@.handle@ as int));
                }
                assert forall|i: int| 0 <= i < joins@.len() implies (#[trigger] joins@[i])@
                    == first + rank - 1 - i by {
                    assert(holds_stage(held[rank - 1 - i]@, rank - 1 - i, uid, first));
                }
            }
            return Err(SpawnFailure { stage, error, joins });
        },
        None => {},
    }
    proof {
        assert(rank == STAGE_COUNT);
        assert forall|stage: PipelineStage| #[trigger]
            prepare.ensures((stage,), Ok::<(), E>(())) by {
            assert(stage.rank() < STAGE_COUNT);
        }
    }
    Ok(workers)
}

/// Lets go of workers, the last of them first: asks each to quit and gives
/// back the strong mailbox that the pipeline held on it. The result names
/// their tasks, in the order in which they were let go of.
fn let_go_of<M>(universe: &mut Universe<M>, workers: &mut Vec<WorkerHandle>) -> (joins: Vec<
    ActorHandle,
>)
    ensures
        final(workers)@.len() == 0,
        final(universe).registry@ == old(universe).registry@,
        final(universe).actors@ == shut_down(
            old(universe).actors@,
            Seq::new(old(workers)@.len(), |i: int| old(workers)@[i]@),
            old(workers)@.len() as int,
        ),
        joins@.len() == old(workers)@.len(),
        forall|i: int|
            0 <= i < joins@.len() ==> #[trigger] joins@[i] == old(workers)@[old(workers)@.len() - 1
                - i]@.handle,
        forall|rank: int|
            0 <= rank < old(workers)@.len() ==> is_quitting(
                final(universe).actors@,
                (#[trigger] old(workers)@[rank])@.handle@ as int,
            ),
{
    let ghost all = Seq::new(workers@.len(), |i: int| workers@[i]@);
    let ghost count = workers@.len() as int;
    let ghost start = universe.actors@;
    let mut joins: Vec<ActorHandle> = Vec::new();
    while workers.len() > 0
        invariant
            workers@.len() <= count,
            all.len() == count,
            forall|i: int| 0 <= i < workers@.len() ==> #[trigger] workers@[i]@ == all[i],
            universe.registry@ == old(universe).registry@,
            shut_down(universe.actors@, all, workers@.len() as int) == shut_down(start, all, count),
            joins@.len() == count - workers@.len(),
            forall|i: int| 0 <= i < joins@.len() ==> #[trigger] joins@[i] == all[count - 1 - i].handle,
        decreases workers@.len(),
    {
        let ghost left = workers@.len() as int;
        let ghost before = universe.actors@;
        let ghost waiting = joins@;
        let worker = workers.pop().unwrap();
        assert(worker@ == all[left - 1]);
        let _ = universe.actors.quit(&worker.handle);
        universe.actors.drop_mailbox(worker.mailbox);
        assert(universe.actors@ == let_go(before, all[left - 1]));
        assert(shut_down(before, all, left) == shut_down(universe.actors@, all, left - 1));
        joins.push(worker.handle);
        assert forall|i: int| 0 <= i < joins@.len() implies #[trigger] joins@[i] == all[count - 1
            - i].handle by {
            if i < waiting.len() {
                assert(joins@[i] == waiting[i]);
            }
        }
    }
    proof {
        assert forall|rank: int| 0 <= rank < count implies is_quitting(
            universe.actors@,
            (#[trigger] old(workers)@[rank])@.handle@ as int,
        ) by {
            lemma_shut_down_quits_every_worker(start, all, count, rank);
            assert(all[rank] == old(workers)@[rank]@);
        }
    }
    joins
}

} // verus!

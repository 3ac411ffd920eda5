use std::time::Duration;

use actor_runtime::actor_table::{Activity, ActorHandle};
use actor_runtime::delete_task_pipeline::{
    DeleteTaskPipeline, DeleteTaskPipelineState, PipelineStage, OBSERVE_PIPELINE_INTERVAL_SECS,
};
use actor_runtime::exit_status::ActorExitStatus;
use actor_runtime::supervisor::SupervisorState;
use actor_runtime::universe::Universe;

const STAGES: [PipelineStage; 6] = [
    PipelineStage::Publisher,
    PipelineStage::Uploader,
    PipelineStage::Packager,
    PipelineStage::DeleteTaskExecutor,
    PipelineStage::Downloader,
    PipelineStage::DeleteTaskPlanner,
];

fn ready(_stage: PipelineStage) -> Result<(), String> {
    Ok(())
}

fn untouched(_stage: PipelineStage, _handle: ActorHandle) -> SupervisorState {
    SupervisorState::default()
}

#[test]
fn test_delete_pipeline_simple() {
    let mut universe: Universe<u32> = Universe::new();
    let mut pipeline = DeleteTaskPipeline::new(
        "test-delete-pipeline-simple",
        "/tmp/delete-service",
        4,
    );
    assert_eq!(pipeline.name(), "DeleteTaskPipeline");
    assert_eq!(pipeline.index_uid(), "test-delete-pipeline-simple");
    assert_eq!(pipeline.delete_service_task_dir(), "/tmp/delete-service");
    assert_eq!(pipeline.max_concurrent_split_uploads(), 4);

    let again_in = pipeline
        .initialize(&mut universe, ready, untouched)
        .unwrap();
    assert_eq!(again_in, Duration::from_secs(OBSERVE_PIPELINE_INTERVAL_SECS));
    assert_eq!(pipeline.observable_state(), DeleteTaskPipelineState::default());

    // The planner fails once; its supervisor counts the error and starts it
    // again.
    let mut planner = SupervisorState::default();
    assert!(planner.record_exit(&ActorExitStatus::Failure("leaf search error".to_string())));
    let observe = |stage: PipelineStage, _handle: ActorHandle| {
        if stage == PipelineStage::DeleteTaskPlanner {
            planner
        } else {
            SupervisorState::default()
        }
    };
    pipeline.handle(observe);
    let pipeline_state = pipeline.observable_state();
    assert_eq!(pipeline_state.delete_task_planner.num_errors, 1);
    assert_eq!(pipeline_state.downloader.num_errors, 0);
    assert_eq!(pipeline_state.delete_task_executor.num_errors, 0);
    assert_eq!(pipeline_state.packager.num_errors, 0);
    assert_eq!(pipeline_state.uploader.num_errors, 0);
    assert_eq!(pipeline_state.publisher.num_errors, 0);

    let joins = pipeline.finalize(&mut universe);
    assert_eq!(joins.len(), 6);
    for handle in &joins {
        assert!(matches!(
            universe.actors.poll(handle),
            Activity::Exit(ActorExitStatus::Success)
        ));
        assert_eq!(universe.actors.join(handle), Some(ActorExitStatus::Success));
    }
    assert!(universe.quit().is_empty());
}

#[test]
fn test_delete_pipeline_shut_down() {
    let mut universe: Universe<u32> = Universe::new();
    let (_pipeline_mailbox, pipeline_handle) = universe.spawn(
        77,
        "DeleteTaskPipeline",
        "DeleteTaskPipeline-test-delete-pipeline-shut-down",
        None,
    );
    let mut pipeline = DeleteTaskPipeline::new(
        "test-delete-pipeline-shut-down",
        "/tmp/delete-service",
        4,
    );
    pipeline
        .initialize(&mut universe, ready, untouched)
        .unwrap();
    assert_eq!(universe.actors.quit(&pipeline_handle), Ok(()));
    assert!(matches!(
        universe.actors.poll(&pipeline_handle),
        Activity::Exit(ActorExitStatus::Success)
    ));
    let joins = pipeline.finalize(&mut universe);
    for handle in &joins {
        let _ = universe.actors.poll(handle);
        assert!(universe.actors.join(handle).is_some());
    }
    let round = universe.observe(Duration::from_secs(OBSERVE_PIPELINE_INTERVAL_SECS));
    let observations = round.complete(Vec::new());
    assert!(observations
        .into_iter()
        .all(|observation| observation.type_label != "DeleteTaskPipeline"));
    assert!(universe.quit().is_empty());
}

#[test]
fn planner_that_fails_twice_shows_two_errors() {
    let mut universe: Universe<u32> = Universe::new();
    let mut pipeline = DeleteTaskPipeline::new("index", "/tmp/delete-service", 4);
    pipeline
        .initialize(&mut universe, ready, untouched)
        .unwrap();
    let mut planner = SupervisorState::default();
    assert!(planner.record_exit(&ActorExitStatus::Failure("first".to_string())));
    assert!(planner.record_exit(&ActorExitStatus::Failure("second".to_string())));
    assert!(!planner.record_exit(&ActorExitStatus::Success));
    for _cycle in 0..3 {
        let again_in = pipeline.handle(|stage: PipelineStage, _handle: ActorHandle| {
            if stage == PipelineStage::DeleteTaskPlanner {
                planner
            } else {
                SupervisorState::default()
            }
        });
        assert_eq!(again_in, Duration::from_secs(60));
    }
    let state = pipeline.observable_state();
    for stage in STAGES {
        let expected = if stage == PipelineStage::DeleteTaskPlanner { 2 } else { 0 };
        assert_eq!(state.stage(stage).num_errors, expected);
        assert_eq!(state.stage(stage).num_panics, 0);
        assert_eq!(state.stage(stage).num_kills, 0);
    }
    let joins = pipeline.finalize(&mut universe);
    for handle in &joins {
        let _ = universe.actors.poll(handle);
    }
    let round = universe.observe(Duration::from_millis(500));
    assert_eq!(round.len(), 0);
    assert!(pipeline.finalize(&mut universe).is_empty());
}

#[test]
fn workers_are_spawned_downstream_first() {
    let mut universe: Universe<u32> = Universe::new();
    let mut pipeline = DeleteTaskPipeline::new("my-index", "/tmp/delete-service", 2);
    assert!(pipeline.worker(PipelineStage::Publisher).is_none());
    let order = std::cell::RefCell::new(Vec::new());
    let prepare = |stage: PipelineStage| -> Result<(), String> {
        order.borrow_mut().push(stage);
        Ok(())
    };
    assert!(pipeline.spawn_pipeline(&mut universe, prepare).is_ok());
    assert_eq!(order.into_inner(), STAGES.to_vec());
    for (rank, stage) in STAGES.iter().enumerate() {
        assert_eq!(stage.position(), rank);
        assert_eq!(PipelineStage::at(rank), *stage);
        let worker = pipeline.worker(*stage).unwrap();
        assert_eq!(worker.handle().actor(), rank);
        assert_eq!(worker.mailbox().actor(), rank);
        assert_eq!(worker.mailbox().type_id(), stage.type_id());
        assert_eq!(worker.mailbox().type_label(), stage.type_label());
        assert_eq!(
            worker.mailbox().actor_instance_id(),
            format!("{}-my-index", stage.type_label())
        );
        let found = universe.get(stage.type_id());
        assert_eq!(found.len(), 1);
        assert_eq!(found[0].actor(), rank);
    }
    // Every producer sends to the stage that was spawned just before it.
    for rank in 1..6 {
        let producer = pipeline.worker(STAGES[rank]).unwrap().handle();
        let consumer = pipeline.worker(STAGES[rank - 1]).unwrap().handle();
        assert_eq!(universe.actors.send_downstream(&producer, rank as u32), Ok(()));
        assert!(matches!(
            universe.actors.poll(&consumer),
            Activity::Message(message) if message == rank as u32
        ));
    }
    let publisher = pipeline.worker(PipelineStage::Publisher).unwrap().handle();
    assert!(universe.actors.send_downstream(&publisher, 0).is_err());
}

#[test]
fn a_preparation_that_fails_ends_the_spawning() {
    let mut universe: Universe<u32> = Universe::new();
    let mut pipeline = DeleteTaskPipeline::new("my-index", "/tmp/delete-service", 2);
    let prepare = |stage: PipelineStage| -> Result<(), String> {
        if stage == PipelineStage::Packager {
            Err("no doc mapper".to_string())
        } else {
            Ok(())
        }
    };
    let failure = pipeline
        .initialize(&mut universe, prepare, untouched)
        .unwrap_err();
    assert_eq!(failure.stage, PipelineStage::Packager);
    assert_eq!(failure.error, "no doc mapper");
    assert!(pipeline.worker(PipelineStage::Publisher).is_none());
    assert_eq!(universe.actors.len(), 2);
    // The two workers that were spawned are let go of, the uploader first:
    // each finds the quit command at its next poll and ends.
    let slots: Vec<usize> = failure.joins.iter().map(|handle| handle.actor()).collect();
    assert_eq!(slots, vec![1, 0]);
    for handle in &failure.joins {
        assert_eq!(universe.actors.join(handle), None);
        assert!(matches!(
            universe.actors.poll(handle),
            Activity::Exit(ActorExitStatus::Success)
        ));
        assert_eq!(universe.actors.join(handle), Some(ActorExitStatus::Success));
    }
    assert!(universe.join().is_empty());
    assert!(universe.get_one(PipelineStage::Publisher.type_id()).is_none());
    assert!(universe.get_one(PipelineStage::Uploader.type_id()).is_none());
    let round = universe.observe(Duration::from_millis(500));
    assert_eq!(round.len(), 0);
}

#[test]
fn a_failure_at_any_stage_leaves_no_worker_running() {
    for failing in 0..6 {
        let mut universe: Universe<u32> = Universe::new();
        let (_bystander, bystander) = universe.spawn(9, "Bystander", "Bystander-1", None);
        let mut pipeline = DeleteTaskPipeline::new("my-index", "/tmp/delete-service", 2);
        let failure = pipeline
            .spawn_pipeline(&mut universe, |stage: PipelineStage| -> Result<(), u8> {
                if stage.position() == failing {
                    Err(3)
                } else {
                    Ok(())
                }
            })
            .unwrap_err();
        assert_eq!(failure.stage, STAGES[failing]);
        assert_eq!(failure.error, 3);
        assert_eq!(failure.joins.len(), failing);
        assert_eq!(universe.actors.len(), 1 + failing);
        for (place, handle) in failure.joins.iter().enumerate() {
            assert_eq!(handle.actor(), failing - place);
            assert!(matches!(
                universe.actors.poll(handle),
                Activity::Exit(ActorExitStatus::Success)
            ));
        }
        let live = universe.join();
        assert_eq!(live.len(), 1);
        assert_eq!(live[0].join_handle(), bystander);
        assert!(pipeline.worker(PipelineStage::Publisher).is_none());
        assert!(pipeline.finalize(&mut universe).is_empty());
    }
}

#[test]
fn supervisor_counts_each_kind_of_exit() {
    let mut state = SupervisorState::default();
    assert!(state.record_exit(&ActorExitStatus::Panicked));
    assert!(state.record_exit(&ActorExitStatus::Killed));
    assert!(state.record_exit(&ActorExitStatus::Killed));
    assert!(state.record_exit(&ActorExitStatus::Failure("x".to_string())));
    assert!(!state.record_exit(&ActorExitStatus::Success));
    assert_eq!(
        state,
        SupervisorState {
            num_panics: 1,
            num_errors: 1,
            num_kills: 2
        }
    );
    let mut full = SupervisorState {
        num_panics: usize::MAX,
        num_errors: 0,
        num_kills: 0,
    };
    assert!(full.record_exit(&ActorExitStatus::Panicked));
    assert_eq!(full.num_panics, usize::MAX);
}

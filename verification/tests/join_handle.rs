use actor_runtime::exit_status::{ActorExitStatus, TaskOutcome};
use actor_runtime::join_handle::ActorJoinHandle;

#[test]
fn join_awaits_the_task_once_and_caches_the_status() {
    let awaited = std::cell::Cell::new(0u32);
    let mut handle = ActorJoinHandle::new(17u32);
    assert_eq!(handle.exit_status(), None);
    for _ in 0..5 {
        let status = handle.join(|task| {
            assert_eq!(task, 17);
            awaited.set(awaited.get() + 1);
            TaskOutcome::Returned(ActorExitStatus::Failure("disk full".to_string()))
        });
        assert_eq!(status, ActorExitStatus::Failure("disk full".to_string()));
    }
    assert_eq!(awaited.get(), 1);
    assert_eq!(
        handle.exit_status(),
        Some(ActorExitStatus::Failure("disk full".to_string()))
    );
}

#[test]
fn a_panic_in_the_loop_maps_to_panicked() {
    let mut handle = ActorJoinHandle::new(());
    assert_eq!(handle.join(|_| TaskOutcome::Panicked), ActorExitStatus::Panicked);
    assert_eq!(
        handle.join(|_| TaskOutcome::Returned(ActorExitStatus::Success)),
        ActorExitStatus::Panicked
    );
}

#[test]
fn a_cancelled_task_maps_to_killed() {
    let mut handle = ActorJoinHandle::new(());
    assert_eq!(handle.join(|_| TaskOutcome::Cancelled), ActorExitStatus::Killed);
    assert_eq!(TaskOutcome::Cancelled.into_exit_status(), ActorExitStatus::Killed);
    assert_eq!(TaskOutcome::Panicked.into_exit_status(), ActorExitStatus::Panicked);
    assert_eq!(
        TaskOutcome::Returned(ActorExitStatus::Success).into_exit_status(),
        ActorExitStatus::Success
    );
}

#[test]
fn a_join_in_two_halves_gives_the_task_away_once() {
    let mut handle = ActorJoinHandle::new("task");
    assert_eq!(handle.take_task(), Some("task"));
    assert_eq!(handle.take_task(), None);
    assert_eq!(
        handle.record_exit(TaskOutcome::Returned(ActorExitStatus::Success)),
        ActorExitStatus::Success
    );
    assert_eq!(handle.take_task(), None);
    assert_eq!(handle.exit_status(), Some(ActorExitStatus::Success));
}

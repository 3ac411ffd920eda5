use std::time::Duration;

use actor_runtime::actor_table::{Activity, ActorHandle};
use actor_runtime::exit_status::{ActorExitStatus, TaskOutcome};
use actor_runtime::mailbox::{Command, Envelope, Mailbox, SendError};
use actor_runtime::registry::exit_statuses;
use actor_runtime::universe::Universe;

const PING_RECEIVER: u64 = 1;
const PING_SENDER: u64 = 2;

fn spawn_ping_receiver(universe: &mut Universe<u32>, instance: &str) -> (Mailbox, ActorHandle) {
    universe.spawn(PING_RECEIVER, "PingReceiverActor", instance, None)
}

#[test]
fn test_registry() {
    let mut universe: Universe<u32> = Universe::new();
    let (_mailbox, _handle) = spawn_ping_receiver(&mut universe, "PingReceiverActor-1");
    let _actor_mailbox = universe.get_one(PING_RECEIVER).unwrap();
}

#[test]
fn test_registry_killed_actor() {
    let mut universe: Universe<u32> = Universe::new();
    let (_mailbox, handle) = spawn_ping_receiver(&mut universe, "PingReceiverActor-1");
    universe.actors.kill(&handle);
    assert!(universe.get_one(PING_RECEIVER).is_none());
}

#[test]
fn test_registry_last_mailbox_dropped_actor() {
    let mut universe: Universe<u32> = Universe::new();
    let (mailbox, handle) = spawn_ping_receiver(&mut universe, "PingReceiverActor-1");
    universe.actors.drop_mailbox(mailbox);
    let _ = universe.actors.poll(&handle);
    universe.actors.join(&handle);
    assert!(universe.get_one(PING_RECEIVER).is_none());
}

#[test]
fn test_get_actor_states() {
    let mut universe: Universe<u32> = Universe::new();
    let (_mailbox, _handle) = spawn_ping_receiver(&mut universe, "PingReceiverActor-1");
    let round = universe.observe(Duration::from_millis(1000));
    let obs = round.complete(vec![Some(serde_json::Value::from(0))]);
    assert_eq!(obs.len(), 1);
}

#[test]
fn observe_then_kill_then_observe() {
    let mut universe: Universe<u32> = Universe::new();
    let (_mailbox, handle) = spawn_ping_receiver(&mut universe, "PingReceiverActor-1");
    let round = universe.observe(Duration::from_millis(1000));
    assert_eq!(round.reply_timeout(), Duration::from_millis(1000));
    assert_eq!(round.len(), 1);
    assert!(matches!(universe.actors.poll(&handle), Activity::Observe));
    let obs = round.complete(vec![Some(serde_json::Value::from("pong"))]);
    assert_eq!(obs.len(), 1);
    assert_eq!(obs[0].type_label, "PingReceiverActor");
    assert_eq!(obs[0].instance_id, "PingReceiverActor-1");
    assert_eq!(obs[0].obs, Some(serde_json::Value::from("pong")));

    universe.actors.kill(&handle);
    assert!(universe.get_one(PING_RECEIVER).is_none());
    assert_eq!(universe.actors.join(&handle), Some(ActorExitStatus::Killed));

    let round = universe.observe(Duration::from_millis(1000));
    assert_eq!(round.len(), 0);
    assert_eq!(round.complete(Vec::new()).len(), 0);
}

#[test]
fn last_mailbox_dropped_ends_with_success() {
    let mut universe: Universe<u32> = Universe::new();
    let (mailbox, handle) = spawn_ping_receiver(&mut universe, "PingReceiverActor-1");
    assert!(matches!(universe.actors.poll(&handle), Activity::Idle));
    assert_eq!(universe.actors.join(&handle), None);
    universe.actors.drop_mailbox(mailbox);
    assert!(matches!(
        universe.actors.poll(&handle),
        Activity::Exit(ActorExitStatus::Success)
    ));
    assert_eq!(universe.actors.join(&handle), Some(ActorExitStatus::Success));
    assert!(matches!(universe.actors.poll(&handle), Activity::Terminated));
}

#[test]
fn queued_messages_are_drained_before_the_actor_ends() {
    let mut universe: Universe<u32> = Universe::new();
    let (mailbox, handle) = spawn_ping_receiver(&mut universe, "PingReceiverActor-1");
    assert_eq!(universe.actors.send_message(&mailbox, 7), Ok(()));
    universe.actors.drop_mailbox(mailbox);
    assert!(matches!(universe.actors.poll(&handle), Activity::Message(7)));
    assert!(matches!(
        universe.actors.poll(&handle),
        Activity::Exit(ActorExitStatus::Success)
    ));
}

#[test]
fn high_priority_is_served_first() {
    let mut universe: Universe<u32> = Universe::new();
    let (mailbox, handle) = spawn_ping_receiver(&mut universe, "PingReceiverActor-1");
    assert_eq!(universe.actors.send_message(&mailbox, 1), Ok(()));
    assert_eq!(universe.actors.send_message(&mailbox, 2), Ok(()));
    assert_eq!(
        universe
            .actors
            .send_message_with_high_priority(&mailbox, Envelope::Message(3)),
        Ok(())
    );
    assert_eq!(
        universe
            .actors
            .send_message_with_high_priority(&mailbox, Envelope::Command(Command::Observe)),
        Ok(())
    );
    assert!(matches!(universe.actors.poll(&handle), Activity::Message(3)));
    assert!(matches!(universe.actors.poll(&handle), Activity::Observe));
    assert!(matches!(universe.actors.poll(&handle), Activity::Message(1)));
    assert!(matches!(universe.actors.poll(&handle), Activity::Message(2)));
    assert!(matches!(universe.actors.poll(&handle), Activity::Idle));
}

#[test]
fn quit_is_not_starved_by_a_backlog() {
    let mut universe: Universe<u32> = Universe::new();
    let (mailbox, handle) = spawn_ping_receiver(&mut universe, "PingReceiverActor-1");
    for message in 0..100 {
        assert_eq!(universe.actors.send_message(&mailbox, message), Ok(()));
    }
    assert_eq!(universe.actors.quit(&handle), Ok(()));
    assert!(matches!(
        universe.actors.poll(&handle),
        Activity::Exit(ActorExitStatus::Success)
    ));
    assert_eq!(universe.actors.join(&handle), Some(ActorExitStatus::Success));
}

#[test]
fn sending_to_a_disconnected_actor_fails() {
    let mut universe: Universe<u32> = Universe::new();
    let (mailbox, handle) = spawn_ping_receiver(&mut universe, "PingReceiverActor-1");
    assert!(!universe.actors.is_disconnected(&mailbox));
    universe.actors.kill(&handle);
    assert!(universe.actors.is_disconnected(&mailbox));
    assert_eq!(
        universe.actors.send_message(&mailbox, 1),
        Err(SendError::Disconnected)
    );
    assert_eq!(
        universe
            .actors
            .send_message_with_high_priority(&mailbox, Envelope::Message(1)),
        Err(SendError::Disconnected)
    );
    assert_eq!(universe.actors.quit(&handle), Err(SendError::Disconnected));
}

#[test]
fn upgrade_fails_once_the_actor_is_disconnected() {
    let mut universe: Universe<u32> = Universe::new();
    let (mailbox, _handle) = spawn_ping_receiver(&mut universe, "PingReceiverActor-1");
    let weak = mailbox.downgrade();
    assert_eq!(weak.actor_instance_id(), "PingReceiverActor-1");
    assert_eq!(weak.type_label(), "PingReceiverActor");
    assert_eq!(weak.type_id(), PING_RECEIVER);
    let second = universe.actors.upgrade(&weak).unwrap();
    assert_eq!(second.actor(), mailbox.actor());
    universe.actors.drop_mailbox(mailbox);
    assert!(!universe.actors.is_unreachable(&weak));
    universe.actors.drop_mailbox(second);
    assert!(universe.actors.is_unreachable(&weak));
    assert!(universe.actors.upgrade(&weak).is_none());
}

#[test]
fn cloned_mailbox_keeps_the_actor_alive() {
    let mut universe: Universe<u32> = Universe::new();
    let (mailbox, handle) = spawn_ping_receiver(&mut universe, "PingReceiverActor-1");
    let copy = universe.actors.clone_mailbox(&mailbox);
    universe.actors.drop_mailbox(mailbox);
    assert!(matches!(universe.actors.poll(&handle), Activity::Idle));
    universe.actors.drop_mailbox(copy);
    assert!(matches!(
        universe.actors.poll(&handle),
        Activity::Exit(ActorExitStatus::Success)
    ));
}

#[test]
fn lookup_of_a_type_that_was_never_registered_is_empty() {
    let mut universe: Universe<u32> = Universe::new();
    let (_mailbox, _handle) = spawn_ping_receiver(&mut universe, "PingReceiverActor-1");
    assert!(universe.get(PING_SENDER).is_empty());
    assert!(universe.get_one(PING_SENDER).is_none());
}

#[test]
fn get_returns_every_live_actor_of_the_type() {
    let mut universe: Universe<u32> = Universe::new();
    let (_first, first_handle) = spawn_ping_receiver(&mut universe, "PingReceiverActor-1");
    let (_second, _second_handle) = spawn_ping_receiver(&mut universe, "PingReceiverActor-2");
    let (_third, _third_handle) = spawn_ping_receiver(&mut universe, "PingReceiverActor-3");
    let (_sender, _sender_handle) =
        universe.spawn(PING_SENDER, "PingSenderActor", "PingSenderActor-1", None);
    let found = universe.get(PING_RECEIVER);
    let ids: Vec<&str> = found.iter().map(|mailbox| mailbox.actor_instance_id()).collect();
    assert_eq!(
        ids,
        vec![
            "PingReceiverActor-1",
            "PingReceiverActor-2",
            "PingReceiverActor-3"
        ]
    );
    universe.actors.kill(&first_handle);
    let found = universe.get(PING_RECEIVER);
    let ids: Vec<&str> = found.iter().map(|mailbox| mailbox.actor_instance_id()).collect();
    assert_eq!(ids, vec!["PingReceiverActor-2", "PingReceiverActor-3"]);
    let one = universe.get_one(PING_RECEIVER).unwrap();
    assert_eq!(one.actor_instance_id(), "PingReceiverActor-2");
}

#[test]
fn gc_removes_dead_entries_and_is_idempotent() {
    let mut universe: Universe<u32> = Universe::new();
    let (_first, first_handle) = spawn_ping_receiver(&mut universe, "PingReceiverActor-1");
    let (_second, _second_handle) = spawn_ping_receiver(&mut universe, "PingReceiverActor-2");
    let (_third, _third_handle) = spawn_ping_receiver(&mut universe, "PingReceiverActor-3");
    universe.actors.kill(&first_handle);
    universe.gc();
    let found = universe.get(PING_RECEIVER);
    let ids: Vec<&str> = found.iter().map(|mailbox| mailbox.actor_instance_id()).collect();
    assert_eq!(ids, vec!["PingReceiverActor-3", "PingReceiverActor-2"]);
    universe.gc();
    let found = universe.get(PING_RECEIVER);
    let ids: Vec<&str> = found.iter().map(|mailbox| mailbox.actor_instance_id()).collect();
    assert_eq!(ids, vec!["PingReceiverActor-3", "PingReceiverActor-2"]);
}

#[test]
fn observe_reaches_every_live_actor_of_mixed_types() {
    let mut universe: Universe<u32> = Universe::new();
    let (_r1, _h1) = spawn_ping_receiver(&mut universe, "PingReceiverActor-1");
    let (_s1, _h2) = universe.spawn(PING_SENDER, "PingSenderActor", "PingSenderActor-1", None);
    let (_r2, dead) = spawn_ping_receiver(&mut universe, "PingReceiverActor-2");
    let (_r3, _h4) = spawn_ping_receiver(&mut universe, "PingReceiverActor-3");
    universe.actors.kill(&dead);
    let round = universe.observe(Duration::from_millis(200));
    assert_eq!(round.len(), 3);
    let observations = round.complete(vec![Some(serde_json::Value::from(1)), None]);
    let tags: Vec<(&str, &str, bool)> = observations
        .iter()
        .map(|observation| {
            (
                observation.type_label.as_str(),
                observation.instance_id.as_str(),
                observation.obs.is_some(),
            )
        })
        .collect();
    assert_eq!(
        tags,
        vec![
            ("PingReceiverActor", "PingReceiverActor-1", true),
            ("PingReceiverActor", "PingReceiverActor-3", false),
            ("PingSenderActor", "PingSenderActor-1", false),
        ]
    );
}

#[test]
fn quit_reaches_every_live_actor() {
    let mut universe: Universe<u32> = Universe::new();
    let (_r1, h1) = spawn_ping_receiver(&mut universe, "PingReceiverActor-1");
    let (_s1, h2) = universe.spawn(PING_SENDER, "PingSenderActor", "PingSenderActor-1", None);
    let (_r2, dead) = spawn_ping_receiver(&mut universe, "PingReceiverActor-2");
    universe
        .actors
        .finish(&dead, TaskOutcome::Returned(ActorExitStatus::Failure("boom".to_string())));
    let targets = universe.quit();
    assert_eq!(targets.len(), 2);
    assert_eq!(targets[0].instance_id(), "PingReceiverActor-1");
    assert_eq!(targets[0].type_label(), "PingReceiverActor");
    assert_eq!(targets[0].join_handle(), h1);
    assert_eq!(targets[1].join_handle(), h2);
    assert!(matches!(
        universe.actors.poll(&h1),
        Activity::Exit(ActorExitStatus::Success)
    ));
    assert_eq!(
        exit_statuses(&mut universe.actors, &targets),
        vec![Some(ActorExitStatus::Success), None]
    );
    universe.actors.finish(&h2, TaskOutcome::Panicked);
    assert_eq!(
        exit_statuses(&mut universe.actors, &targets),
        vec![
            Some(ActorExitStatus::Success),
            Some(ActorExitStatus::Panicked)
        ]
    );
    assert_eq!(
        universe.actors.join(&dead),
        Some(ActorExitStatus::Failure("boom".to_string()))
    );
    assert!(universe.join().is_empty());
}

#[test]
fn join_names_the_live_actors_and_sends_nothing() {
    let mut universe: Universe<u32> = Universe::new();
    let (_r1, h1) = spawn_ping_receiver(&mut universe, "PingReceiverActor-1");
    let targets = universe.join();
    assert_eq!(targets.len(), 1);
    assert_eq!(targets[0].actor(), h1.actor());
    assert!(matches!(universe.actors.poll(&h1), Activity::Idle));
}

#[test]
fn an_actor_that_ends_gives_back_its_downstream_mailbox() {
    let mut universe: Universe<u32> = Universe::new();
    let (consumer, consumer_handle) = spawn_ping_receiver(&mut universe, "PingReceiverActor-1");
    let (producer, producer_handle) =
        universe.spawn(PING_SENDER, "PingSenderActor", "PingSenderActor-1", Some(consumer));
    assert_eq!(universe.actors.send_downstream(&producer_handle, 5), Ok(()));
    assert!(matches!(universe.actors.poll(&consumer_handle), Activity::Message(5)));
    assert!(matches!(universe.actors.poll(&consumer_handle), Activity::Idle));
    universe.actors.drop_mailbox(producer);
    assert!(matches!(
        universe.actors.poll(&producer_handle),
        Activity::Exit(ActorExitStatus::Success)
    ));
    assert_eq!(
        universe.actors.send_downstream(&producer_handle, 6),
        Err(SendError::Disconnected)
    );
    assert!(matches!(
        universe.actors.poll(&consumer_handle),
        Activity::Exit(ActorExitStatus::Success)
    ));
}

#[test]
fn a_gone_actor_is_absent_before_and_after_gc() {
    let mut universe: Universe<u32> = Universe::default();
    let (mailbox, handle) = spawn_ping_receiver(&mut universe, "PingReceiverActor-1");
    universe.actors.drop_mailbox(mailbox);
    universe
        .actors
        .finish(&handle, TaskOutcome::Returned(ActorExitStatus::Success));
    assert!(universe.get_one(PING_RECEIVER).is_none());
    assert!(universe.get(PING_RECEIVER).is_empty());
    universe.gc();
    assert!(universe.get_one(PING_RECEIVER).is_none());
    assert!(universe.join().is_empty());
}

#[test]
fn every_join_of_an_actor_returns_the_same_status() {
    let mut universe: Universe<u32> = Universe::new();
    let (_mailbox, handle) = spawn_ping_receiver(&mut universe, "PingReceiverActor-1");
    assert_eq!(universe.actors.join(&handle), None);
    universe.actors.finish(&handle, TaskOutcome::Panicked);
    universe
        .actors
        .finish(&handle, TaskOutcome::Returned(ActorExitStatus::Success));
    universe.actors.kill(&handle);
    for _ in 0..4 {
        assert_eq!(universe.actors.join(&handle), Some(ActorExitStatus::Panicked));
    }
}

#[test]
fn a_message_to_itself_needs_no_mailbox() {
    let mut universe: Universe<u32> = Universe::new();
    let (mailbox, handle) = spawn_ping_receiver(&mut universe, "PingReceiverActor-1");
    assert_eq!(universe.actors.send_self_message(&handle, 9), Ok(()));
    universe.actors.drop_mailbox(mailbox);
    assert!(matches!(universe.actors.poll(&handle), Activity::Message(9)));
    assert!(matches!(
        universe.actors.poll(&handle),
        Activity::Exit(ActorExitStatus::Success)
    ));
    assert_eq!(
        universe.actors.send_self_message(&handle, 9),
        Err(SendError::Disconnected)
    );
}

#[test]
fn buckets_are_found_by_type_among_many() {
    let mut universe: Universe<u32> = Universe::new();
    let mut handles = Vec::new();
    for type_id in 0..64u64 {
        for instance in 0..3 {
            let (_mailbox, handle) = universe.spawn(
                type_id * 1_000_003,
                &format!("Type{type_id}"),
                &format!("Type{type_id}-{instance}"),
                None,
            );
            handles.push(handle);
        }
    }
    for type_id in 0..64u64 {
        let found = universe.get(type_id * 1_000_003);
        let ids: Vec<String> = found
            .iter()
            .map(|mailbox| mailbox.actor_instance_id().to_string())
            .collect();
        assert_eq!(
            ids,
            vec![
                format!("Type{type_id}-0"),
                format!("Type{type_id}-1"),
                format!("Type{type_id}-2")
            ]
        );
    }
    assert!(universe.get(7).is_empty());
    for handle in &handles {
        universe.actors.kill(handle);
    }
    universe.gc();
    for type_id in 0..64u64 {
        assert!(universe.get_one(type_id * 1_000_003).is_none());
    }
    let (_mailbox, _handle) = universe.spawn(5 * 1_000_003, "Type5", "Type5-again", None);
    assert_eq!(
        universe
            .get_one(5 * 1_000_003)
            .unwrap()
            .actor_instance_id(),
        "Type5-again"
    );
    assert_eq!(universe.join().len(), 1);
}

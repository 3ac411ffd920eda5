use actor_runtime::cli::{index_checklist, needs_actor_runtimes, ChecklistTarget, QuickwitService};

#[test]
fn actor_runtimes_are_needed_by_the_services_that_run_actors() {
    assert!(!needs_actor_runtimes(&[]));
    assert!(!needs_actor_runtimes(&[
        QuickwitService::Searcher,
        QuickwitService::Metastore
    ]));
    assert!(needs_actor_runtimes(&[QuickwitService::Indexer]));
    assert!(needs_actor_runtimes(&[QuickwitService::Janitor]));
    assert!(needs_actor_runtimes(&[QuickwitService::ControlPlane]));
    assert!(needs_actor_runtimes(&[
        QuickwitService::Searcher,
        QuickwitService::Metastore,
        QuickwitService::Janitor
    ]));
}

#[test]
fn the_checklist_of_an_index() {
    let sources = vec!["kafka".to_string(), "file".to_string()];
    let all = index_checklist(None, &sources);
    assert_eq!(
        all,
        vec![
            ChecklistTarget::Metastore,
            ChecklistTarget::Storage,
            ChecklistTarget::Source("kafka".to_string()),
            ChecklistTarget::Source("file".to_string()),
        ]
    );
    let labels: Vec<&str> = all.iter().map(|target| target.label()).collect();
    assert_eq!(labels, vec!["metastore", "storage", "kafka", "file"]);
    assert_eq!(
        index_checklist(Some("kinesis"), &sources),
        vec![
            ChecklistTarget::Metastore,
            ChecklistTarget::Storage,
            ChecklistTarget::Source("kinesis".to_string()),
        ]
    );
    assert_eq!(
        index_checklist(None, &Vec::new()),
        vec![ChecklistTarget::Metastore, ChecklistTarget::Storage]
    );
}

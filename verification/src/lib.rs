/// The table of all actors: channels, strong counts, tasks, and the loop's
/// next step.
pub mod actor_table;
/// Detection of threads that stay unparked for too long.
pub mod busy_detector;
/// What the command line decides before it acts.
pub mod cli;
/// The pipeline that carries out delete tasks: six supervised workers,
/// wired downstream first.
pub mod delete_task_pipeline;
/// Durations with a unit, such as `3h`.
pub mod duration;
/// The terminal status of an actor.
pub mod exit_status;
/// The join handle: a task is awaited once, its status is kept.
pub mod join_handle;
/// What holds of the runtime as a whole, proved from the contracts.
pub mod laws;
/// Commands, envelopes, and strong and weak mailboxes.
pub mod mailbox;
/// Attributes and log record bodies as JSON.
pub mod otlp;
/// The registry of actors by type: lookup, garbage collection, fan-out.
pub mod registry;
/// The search service's choice of a metastore.
pub mod search_service;
/// What a supervisor counts.
pub mod supervisor;
/// Trace identifiers and their Base64 text.
pub mod trace_id;
/// The context of one running system: actor table and registry together.
pub mod universe;

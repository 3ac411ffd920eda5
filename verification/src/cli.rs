use vstd::prelude::*;

verus! {

/// The services that a node can run.
#[derive(Debug, Clone, Copy, PartialEq, Eq, Hash, Structural)]
pub enum QuickwitService {
    ControlPlane,
    Indexer,
    Searcher,
    Janitor,
    Metastore,
}

/// The service runs actors: the indexer, the janitor and the control plane
/// do.
pub open spec fn runs_actors(service: QuickwitService) -> bool {
    service is Indexer || service is Janitor || service is ControlPlane
}

/// Whether a node that runs the given services has to start the actor
/// runtimes: it has if one of the services runs actors.
pub fn needs_actor_runtimes(services: &[QuickwitService]) -> (needed: bool)
    ensures
        needed == exists|i: int| 0 <= i < services@.len() && runs_actors(#[trigger] services@[i]),
{
    let mut i: usize = 0;
    while i < services.len()
        invariant
            i <= services@.len(),
            forall|j: int| 0 <= j < i ==> !runs_actors(#[trigger] services@[j]),
        decreases services@.len() - i,
    {
        match services[i] {
            QuickwitService::Indexer | QuickwitService::Janitor | QuickwitService::ControlPlane => {
                assert(runs_actors(services@[i as int]));
                return true;
            },
            _ => {},
        }
        i += 1;
    }
    false
}

/// What a connectivity check looks at.
#[derive(Debug, Clone, PartialEq, Eq)]
pub enum ChecklistTarget {
    Metastore,
    Storage,
    Source(String),
}

/// The name under which a check is reported, as the contracts see it.
pub open spec fn target_label(target: ChecklistTarget) -> Seq<char> {
    match target {
        ChecklistTarget::Metastore => "metastore"@,
        ChecklistTarget::Storage => "storage"@,
        ChecklistTarget::Source(source_id) => source_id@,
    }
}

/// The sources that the checks of an index look at: the one that was asked
/// for, if one was, and else all sources of the index.
pub open spec fn checked_sources(
    source_to_check: Option<Seq<char>>,
    index_sources: Seq<Seq<char>>,
) -> Seq<Seq<char>> {
    match source_to_check {
        Some(source_id) => seq![source_id],
        None => index_sources,
    }
}

/// The labels of the checks of an index, in their order: the metastore,
/// the storage, and the sources.
pub open spec fn checklist_labels(
    source_to_check: Option<Seq<char>>,
    index_sources: Seq<Seq<char>>,
) -> Seq<Seq<char>> {
    seq!["metastore"@, "storage"@] + checked_sources(source_to_check, index_sources)
}

impl ChecklistTarget {
    /// The name under which the check is reported.
    pub fn label(&self) -> (label: &str)
        ensures
            label@ == target_label(*self),
    {
        match self {
            ChecklistTarget::Metastore => "metastore",
            ChecklistTarget::Storage => "storage",
            ChecklistTarget::Source(source_id) => source_id.as_str(),
        }
    }
}

/// The connectivity checks to run for an index, in their order: first the
/// metastore, then the storage, then the source that was asked for or,
/// where none was, every source of the index.
pub fn index_checklist(source_to_check: Option<&str>, index_sources: &Vec<String>) -> (targets:
    Vec<ChecklistTarget>)
    ensures
        targets@.len() == checklist_labels(
            match source_to_check {
                Some(source_id) => Some(source_id@),
                None => None,
            },
            index_sources@.map_values(|source_id: String| source_id@),
        ).len(),
        targets@[0] == ChecklistTarget::Metastore,
        targets@[1] == ChecklistTarget::Storage,
        forall|i: int| 2 <= i < targets@.len() ==> (#[trigger] targets@[i]) is Source,
        forall|i: int|
            0 <= i < targets@.len() ==> target_label(#[trigger] targets@[i]) == checklist_labels(
                match source_to_check {
                    Some(source_id) => Some(source_id@),
                    None => None,
                },
                index_sources@.map_values(|source_id: String| source_id@),
            )[i],
{
    let mut targets: Vec<ChecklistTarget> = Vec::new();
    targets.push(ChecklistTarget::Metastore);
    targets.push(ChecklistTarget::Storage);
    match source_to_check {
        Some(source_id) => {
            targets.push(ChecklistTarget::Source(source_id.to_owned()));
        },
        None => {
            let mut i: usize = 0;
            while i < index_sources.len()
                invariant
                    i <= index_sources@.len(),
                    targets@.len() == 2 + i,
                    targets@[0] == ChecklistTarget::Metastore,
                    targets@[1] == ChecklistTarget::Storage,
                    forall|j: int|
                        0 <= j < i ==> (#[trigger] targets@[2 + j]) is Source && target_label(
                            targets@[2 + j],
                        ) == index_sources@[j]@,
                decreases index_sources@.len() - i,
            {
                targets.push(ChecklistTarget::Source(index_sources[i].clone()));
                i += 1;
            }
            assert forall|k: int| 0 <= k < targets@.len() implies target_label(
                #[trigger] targets@[k],
            ) == checklist_labels(
                None,
                index_sources@.map_values(|source_id: String| source_id@),
            )[k] by {
                if k >= 2 {
                    assert(target_label(targets@[2 + (k - 2)]) == index_sources@[k - 2]@);
                }
            }
            assert forall|k: int| 2 <= k < targets@.len() implies (#[trigger] targets@[k])
                is Source by {
                assert(targets@[2 + (k - 2)] is Source);
            }
        },
    }
    targets
}

} // verus!

//! The mathematical model of a run.
//!
//! A run is a sequence of visits, in the order of the traversal. Each visit
//! is answered by one outcome and may change the registry. Everything here
//! is ghost code: the contracts of the executable engine are stated over it,
//! and the laws of the crate are proved of it.

use crate::config::{ConfigView, PolicyView};
use crate::path::{reroot, shorter};
use vstd::prelude::*;

verus! {

/// What the traversal found at a path.
pub enum ObservationView {
    /// A directory: never hashed.
    Directory,
    /// A regular file that was read, with the fingerprint of its content.
    Digest(Seq<char>),
    /// A regular file whose content could not be read.
    Unreadable,
}

/// One step of the traversal: a path and what was found there.
pub struct VisitView {
    pub path: Seq<char>,
    pub observation: ObservationView,
}

/// What the engine decides for one visit.
pub enum OutcomeView {
    /// A directory was passed over.
    Ignored,
    /// An unreadable file was left alone: neither registered nor touched.
    Skipped,
    /// The file became canonical for its fingerprint.
    Registered,
    /// The file is a duplicate and is to be removed.
    Deleted,
    /// The file is a duplicate and is to be moved to `destination`.
    Relocated { destination: Seq<char> },
    /// The file is a duplicate with a shorter path: it is to be moved to
    /// `destination`, and the registry now names its path as canonical.
    CanonicalReplaced { destination: Seq<char> },
}

impl OutcomeView {
    /// Whether the outcome leaves the file where it is.
    pub open spec fn keeps_file(self) -> bool {
        self is Ignored || self is Skipped || self is Registered
    }
}

/// The registry of a run: a map from fingerprint to canonical path.
pub type RegistryView = Map<Seq<char>, Seq<char>>;

/// The state of a run after some visits: the registry, and the outcome of
/// each visit so far.
pub struct RunView {
    pub registry: RegistryView,
    pub outcomes: Seq<OutcomeView>,
}

/// What happens to a readable file with fingerprint `digest` at `path`.
///
/// A fingerprint not seen before is registered with the path. A duplicate is
/// treated as the policy says. Under the keep-shortest policy a duplicate
/// with a strictly shorter path is moved away and the registry then names
/// that path, the one the file was moved from, as canonical.
pub open spec fn step_file(
    config: ConfigView,
    registry: RegistryView,
    path: Seq<char>,
    digest: Seq<char>,
) -> (RegistryView, OutcomeView) {
    if !registry.contains_key(digest) {
        (registry.insert(digest, path), OutcomeView::Registered)
    } else {
        match config.policy {
            PolicyView::Delete => (registry, OutcomeView::Deleted),
            PolicyView::Relocate { target } => (
                registry,
                OutcomeView::Relocated { destination: reroot(config.source, target, path) },
            ),
            PolicyView::RelocateKeepShortest { target } => {
                if shorter(path, registry[digest]) {
                    (
                        registry.insert(digest, path),
                        OutcomeView::CanonicalReplaced {
                            destination: reroot(config.source, target, path),
                        },
                    )
                } else {
                    (registry, OutcomeView::Deleted)
                }
            },
        }
    }
}

/// The registry after `visit`, and the outcome of the visit.
pub open spec fn step(config: ConfigView, registry: RegistryView, visit: VisitView) -> (
    RegistryView,
    OutcomeView,
) {
    match visit.observation {
        ObservationView::Directory => (registry, OutcomeView::Ignored),
        ObservationView::Unreadable => (registry, OutcomeView::Skipped),
        ObservationView::Digest(digest) => step_file(config, registry, visit.path, digest),
    }
}

/// The run over `visits`, from an empty registry.
pub open spec fn run(config: ConfigView, visits: Seq<VisitView>) -> RunView
    decreases visits.len(),
{
    if visits.len() == 0 {
        RunView { registry: Map::empty(), outcomes: Seq::empty() }
    } else {
        let before = run(config, visits.drop_last());
        let (registry, outcome) = step(config, before.registry, visits.last());
        RunView { registry, outcomes: before.outcomes.push(outcome) }
    }
}

/// Whether `visit` is a readable file with fingerprint `digest`.
pub open spec fn has_digest(visit: VisitView, digest: Seq<char>) -> bool {
    visit.observation == ObservationView::Digest(digest)
}

/// Whether one of the first `count` visits is a readable file with
/// fingerprint `digest`.
pub open spec fn seen_before(visits: Seq<VisitView>, count: int, digest: Seq<char>) -> bool {
    exists|j: int| 0 <= j < count && j < visits.len() && #[trigger] has_digest(visits[j], digest)
}

/// Whether no two readable files among `visits` have the same fingerprint.
pub open spec fn distinct_digests(visits: Seq<VisitView>) -> bool {
    forall|i: int, j: int|
        0 <= i < j < visits.len() && (#[trigger] visits[i]).observation is Digest ==> (
        #[trigger] visits[j]).observation != visits[i].observation
}

/// The number of readable files among `visits`.
pub open spec fn files_read(visits: Seq<VisitView>) -> nat
    decreases visits.len(),
{
    if visits.len() == 0 {
        0
    } else if visits.last().observation is Digest {
        files_read(visits.drop_last()) + 1
    } else {
        files_read(visits.drop_last())
    }
}

/// The visits whose entries are still in place after the run over `visits`,
/// in order: those that were neither removed nor moved.
pub open spec fn survivors(config: ConfigView, visits: Seq<VisitView>) -> Seq<VisitView>
    decreases visits.len(),
{
    if visits.len() == 0 {
        Seq::empty()
    } else {
        let kept = survivors(config, visits.drop_last());
        if run(config, visits).outcomes.last().keeps_file() {
            kept.push(visits.last())
        } else {
            kept
        }
    }
}

} // verus!

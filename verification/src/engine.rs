//! The deduplication engine.
//!
//! The engine owns the registry of one run and decides, visit by visit, what
//! becomes of each file. It touches no file: the caller carries out the
//! outcome and comes back with the next visit, or gives the engine up when
//! a change to the file system failed.
//!
//! Files are told apart by fingerprint alone. Which of several files with
//! the same content stays canonical follows from the order of the visits
//! and from nothing else, so a traversal whose order varies from run to run
//! may keep a different copy each time.

use crate::action::Mutation;
use crate::config::{Config, ConfigView, Policy};
use crate::error::{RunError, RunErrorView};
use crate::model::{run, step, ObservationView, OutcomeView, RegistryView, VisitView};
use crate::path::{is_shorter, reroot_path};
use crate::registry::Registry;
use vstd::prelude::*;

verus! {

/// What the traversal found at a path.
#[derive(Debug, Clone, PartialEq, Eq)]
pub enum Observation {
    /// A directory: never hashed.
    Directory,
    /// A regular file that was read, with the fingerprint of its content.
    Digest(String),
    /// A regular file whose content could not be read.
    Unreadable,
}

impl View for Observation {
    type V = ObservationView;

    open spec fn view(&self) -> ObservationView {
        match self {
            Observation::Directory => ObservationView::Directory,
            Observation::Digest(digest) => ObservationView::Digest(digest@),
            Observation::Unreadable => ObservationView::Unreadable,
        }
    }
}

/// One step of the traversal: a path and what was found there.
#[derive(Debug, Clone, PartialEq, Eq)]
pub struct Visit {
    pub path: String,
    pub observation: Observation,
}

impl View for Visit {
    type V = VisitView;

    open spec fn view(&self) -> VisitView {
        VisitView { path: self.path@, observation: self.observation@ }
    }
}

/// What the engine decides for one visit.
#[derive(Debug, Clone, PartialEq, Eq)]
pub enum Outcome {
    /// A directory was passed over.
    Ignored,
    /// An unreadable file was left alone: neither registered nor touched.
    Skipped,
    /// The file became canonical for its fingerprint.
    Registered,
    /// The file is a duplicate and is to be removed.
    Deleted,
    /// The file is a duplicate and is to be moved to `destination`.
    Relocated { destination: String },
    /// The file is a duplicate with a shorter path: it is to be moved to
    /// `destination`, and the registry now names its path as canonical.
    CanonicalReplaced { destination: String },
}

impl View for Outcome {
    type V = OutcomeView;

    open spec fn view(&self) -> OutcomeView {
        match self {
            Outcome::Ignored => OutcomeView::Ignored,
            Outcome::Skipped => OutcomeView::Skipped,
            Outcome::Registered => OutcomeView::Registered,
            Outcome::Deleted => OutcomeView::Deleted,
            Outcome::Relocated { destination } => OutcomeView::Relocated {
                destination: destination@,
            },
            Outcome::CanonicalReplaced { destination } => OutcomeView::CanonicalReplaced {
                destination: destination@,
            },
        }
    }
}

impl Outcome {
    /// Whether the outcome leaves the entry where it is.
    pub fn keeps_file(&self) -> (result: bool)
        ensures
            result == self@.keeps_file(),
    {
        match self {
            Outcome::Ignored => true,
            Outcome::Skipped => true,
            Outcome::Registered => true,
            _ => false,
        }
    }
}

/// The values of a sequence of visits.
pub open spec fn visit_views(visits: Seq<Visit>) -> Seq<VisitView> {
    visits.map_values(|visit: Visit| visit@)
}

/// The values of a sequence of outcomes.
pub open spec fn outcome_views(outcomes: Seq<Outcome>) -> Seq<OutcomeView> {
    outcomes.map_values(|outcome: Outcome| outcome@)
}

/// The engine of one run: a configuration and the registry built so far.
pub struct Engine {
    config: Config,
    registry: Registry,
}

/// The mathematical value of an [`Engine`].
pub struct EngineView {
    pub config: ConfigView,
    pub registry: RegistryView,
}

impl View for Engine {
    type V = EngineView;

    closed spec fn view(&self) -> EngineView {
        EngineView { config: self.config@, registry: self.registry@ }
    }
}

impl Engine {
    /// An engine at the start of a run: nothing is registered yet.
    pub fn new(config: Config) -> (engine: Engine)
        ensures
            engine@.config == config@,
            engine@.registry == Map::<Seq<char>, Seq<char>>::empty(),
    {
        Engine { config, registry: Registry::new() }
    }

    /// The configuration of the run.
    pub fn config(&self) -> (config: &Config)
        ensures
            config@ == self@.config,
    {
        &self.config
    }

    /// The registry built so far.
    pub fn registry(&self) -> (registry: &Registry)
        ensures
            registry@ == self@.registry,
    {
        &self.registry
    }

    /// Decides what becomes of the entry at `path`.
    ///
    /// A directory is ignored. An unreadable file is skipped: that failure is
    /// not fatal, the file is neither registered nor touched, and the run
    /// goes on. A readable file is registered if its fingerprint is new, and
    /// treated as the policy says if it is a duplicate.
    pub fn observe(&mut self, path: &str, observation: &Observation) -> (outcome: Outcome)
        ensures
            final(self)@.config == old(self)@.config,
            (final(self)@.registry, outcome@) == step(
                old(self)@.config,
                old(self)@.registry,
                VisitView { path: path@, observation: observation@ },
            ),
    {
        match observation {
            Observation::Directory => Outcome::Ignored,
            Observation::Unreadable => Outcome::Skipped,
            Observation::Digest(digest) => {
                let canonical = match self.registry.canonical(digest.as_str()) {
                    None => {
                        self.registry.record(digest.clone(), path.to_owned());
                        return Outcome::Registered;
                    },
                    Some(canonical) => canonical,
                };
                match &self.config.policy {
                    Policy::Delete => Outcome::Deleted,
                    Policy::Relocate { target } => Outcome::Relocated {
                        destination: reroot_path(
                            self.config.source.as_str(),
                            target.as_str(),
                            path,
                        ),
                    },
                    Policy::RelocateKeepShortest { target } => {
                        if is_shorter(path, canonical.as_str()) {
                            let destination = reroot_path(
                                self.config.source.as_str(),
                                target.as_str(),
                                path,
                            );
                            self.registry.record(digest.clone(), path.to_owned());
                            Outcome::CanonicalReplaced { destination }
                        } else {
                            Outcome::Deleted
                        }
                    },
                }
            },
        }
    }

    /// Ends a run whose traversal came to its end, and hands out the
    /// registry.
    pub fn finish(self) -> (registry: Registry)
        ensures
            registry@ == self@.registry,
    {
        self.registry
    }

    /// Ends a run because `mutation` failed for `reason`.
    ///
    /// A failed change to the file system is fatal, unlike a file that
    /// cannot be read. The engine is given up with the error, so no further
    /// entry can be observed. What was done before stays done.
    pub fn abort(self, mutation: &Mutation, reason: &str) -> (error: RunError)
        ensures
            error@ == (RunErrorView::Mutation {
                operation: mutation@.operation(),
                path: mutation@.subject(),
                reason: reason@,
            }),
    {
        RunError::Mutation {
            operation: mutation.operation(),
            path: mutation.subject().clone(),
            reason: reason.to_owned(),
        }
    }
}

/// What a whole run decided: the outcome of each visit, in order, and the
/// registry at the end.
pub struct Report {
    pub outcomes: Vec<Outcome>,
    pub registry: Registry,
}

/// Runs the engine over a recorded traversal.
///
/// The visits are taken in order, from an empty registry. Nothing is touched
/// on disk: the report says what a traversal that saw these visits decides.
pub fn process_duplicates(config: Config, visits: &Vec<Visit>) -> (report: Report)
    ensures
        outcome_views(report.outcomes@) == run(config@, visit_views(visits@)).outcomes,
        report.registry@ == run(config@, visit_views(visits@)).registry,
{
    let ghost views = visit_views(visits@);
    let mut engine = Engine::new(config);
    let mut outcomes: Vec<Outcome> = Vec::new();
    let mut i: usize = 0;
    while i < visits.len()
        invariant
            i <= visits.len(),
            views == visit_views(visits@),
            engine@.config == config@,
            engine@.registry == run(config@, views.take(i as int)).registry,
            outcome_views(outcomes@) == run(config@, views.take(i as int)).outcomes,
        decreases visits.len() - i,
    {
        let visit = &visits[i];
        let outcome = engine.observe(visit.path.as_str(), &visit.observation);
        proof {
            let next = views.take(i + 1);
            assert(next.drop_last() =~= views.take(i as int));
            assert(outcome_views(outcomes@.push(outcome)) =~= outcome_views(outcomes@).push(
                outcome@,
            ));
        }
        outcomes.push(outcome);
        i += 1;
    }
    assert(views.take(i as int) =~= views);
    Report { outcomes, registry: engine.finish() }
}

} // verus!

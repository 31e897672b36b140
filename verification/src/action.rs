//! The changes to the file system that carry out an outcome.
//!
//! The engine decides; a caller changes the disk. This module says which
//! changes an outcome stands for, in the order in which they are to be made.
//! Each is attempted once. The first that fails ends the run (see
//! [`crate::engine::Engine::abort`]).

use crate::config::{Config, ConfigView};
use crate::engine::Outcome;
use crate::error::Operation;
use crate::model::OutcomeView;
use crate::path::{parent, parent_path};
use vstd::prelude::*;

verus! {

/// One change to the file system.
#[derive(Debug, Clone, PartialEq, Eq)]
pub enum Mutation {
    /// Remove the file at `path`.
    Remove { path: String },
    /// Create the directory `path` and every directory above it that is
    /// missing. A directory that exists already is no error.
    CreateDirectory { path: String },
    /// Move the file at `from` to `to`.
    Move { from: String, to: String },
}

/// The mathematical value of a [`Mutation`].
pub enum MutationView {
    Remove { path: Seq<char> },
    CreateDirectory { path: Seq<char> },
    Move { from: Seq<char>, to: Seq<char> },
}

impl View for Mutation {
    type V = MutationView;

    open spec fn view(&self) -> MutationView {
        match self {
            Mutation::Remove { path } => MutationView::Remove { path: path@ },
            Mutation::CreateDirectory { path } => MutationView::CreateDirectory { path: path@ },
            Mutation::Move { from, to } => MutationView::Move { from: from@, to: to@ },
        }
    }
}

impl MutationView {
    /// The kind of the change.
    pub open spec fn operation(self) -> Operation {
        match self {
            MutationView::Remove { .. } => Operation::Remove,
            MutationView::CreateDirectory { .. } => Operation::CreateDirectory,
            MutationView::Move { .. } => Operation::Move,
        }
    }

    /// The path that a failure of the change is reported for: the file to
    /// remove, the directory to create, the file to move.
    pub open spec fn subject(self) -> Seq<char> {
        match self {
            MutationView::Remove { path } => path,
            MutationView::CreateDirectory { path } => path,
            MutationView::Move { from, .. } => from,
        }
    }
}

/// The values of a sequence of mutations.
pub open spec fn mutation_views(mutations: Seq<Mutation>) -> Seq<MutationView> {
    mutations.map_values(|mutation: Mutation| mutation@)
}

/// Moving the file at `path` to `destination`: the directory part of the
/// destination is created first, if the destination has one.
pub open spec fn relocation(path: Seq<char>, destination: Seq<char>) -> Seq<MutationView> {
    match parent(destination) {
        Some(directory) => seq![
            MutationView::CreateDirectory { path: directory },
            MutationView::Move { from: path, to: destination },
        ],
        None => seq![MutationView::Move { from: path, to: destination }],
    }
}

/// The changes that carry out `outcome` for the entry at `path`. An entry
/// that is ignored, skipped or registered is not touched.
pub open spec fn mutations_of(path: Seq<char>, outcome: OutcomeView) -> Seq<MutationView> {
    match outcome {
        OutcomeView::Deleted => seq![MutationView::Remove { path }],
        OutcomeView::Relocated { destination } => relocation(path, destination),
        OutcomeView::CanonicalReplaced { destination } => relocation(path, destination),
        _ => Seq::empty(),
    }
}

/// The changes made before the traversal begins: a policy that relocates
/// has its target directory created.
pub open spec fn preparation_of(config: ConfigView) -> Seq<MutationView> {
    match config.policy.target() {
        Some(target) => seq![MutationView::CreateDirectory { path: target }],
        None => Seq::empty(),
    }
}

impl Mutation {
    /// The kind of the change.
    pub fn operation(&self) -> (operation: Operation)
        ensures
            operation == self@.operation(),
    {
        match self {
            Mutation::Remove { .. } => Operation::Remove,
            Mutation::CreateDirectory { .. } => Operation::CreateDirectory,
            Mutation::Move { .. } => Operation::Move,
        }
    }

    /// The path that a failure of the change is reported for.
    pub fn subject(&self) -> (path: &String)
        ensures
            path@ == self@.subject(),
    {
        match self {
            Mutation::Remove { path } => path,
            Mutation::CreateDirectory { path } => path,
            Mutation::Move { from, .. } => from,
        }
    }
}

/// The changes that move the file at `path` to `destination`.
fn relocate(path: &str, destination: &String) -> (mutations: Vec<Mutation>)
    ensures
        mutation_views(mutations@) == relocation(path@, destination@),
{
    let mut mutations: Vec<Mutation> = Vec::new();
    match parent_path(destination.as_str()) {
        Some(directory) => {
            mutations.push(Mutation::CreateDirectory { path: directory });
        },
        None => {},
    }
    mutations.push(Mutation::Move { from: path.to_owned(), to: destination.clone() });
    mutations
}

/// The changes that carry out `outcome` for the entry at `path`, in order.
pub fn mutations(path: &str, outcome: &Outcome) -> (mutations: Vec<Mutation>)
    ensures
        mutation_views(mutations@) == mutations_of(path@, outcome@),
{
    match outcome {
        Outcome::Deleted => {
            let mut mutations: Vec<Mutation> = Vec::new();
            mutations.push(Mutation::Remove { path: path.to_owned() });
            mutations
        },
        Outcome::Relocated { destination } => relocate(path, destination),
        Outcome::CanonicalReplaced { destination } => relocate(path, destination),
        _ => {
            let mutations: Vec<Mutation> = Vec::new();
            mutations
        },
    }
}

/// The changes to make before the traversal begins.
pub fn preparation(config: &Config) -> (mutations: Vec<Mutation>)
    ensures
        mutation_views(mutations@) == preparation_of(config@),
{
    let mut mutations: Vec<Mutation> = Vec::new();
    match config.target() {
        Some(target) => {
            mutations.push(Mutation::CreateDirectory { path: target.clone() });
        },
        None => {},
    }
    mutations
}

} // verus!

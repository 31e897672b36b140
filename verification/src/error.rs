//! Errors that end a run.
//!
//! A file that cannot be read does not end a run: the engine skips it (see
//! [`crate::engine::Outcome::Skipped`]). What ends a run is a refused
//! configuration, before the traversal, or a change to the file system that
//! failed during it. Only those are errors here.

use crate::config::ConfigError;
use vstd::prelude::*;

verus! {

/// A kind of change to the file system.
#[derive(Debug, Clone, Copy, PartialEq, Eq, Structural)]
pub enum Operation {
    /// Removing a file.
    Remove,
    /// Creating a directory with the directories above it.
    CreateDirectory,
    /// Moving a file.
    Move,
}

/// Why a run ended without completing.
#[derive(Debug, Clone, PartialEq, Eq)]
pub enum RunError {
    /// The configuration was refused before the traversal began.
    Config(ConfigError),
    /// A change to the file system failed. Nothing done before is undone.
    Mutation { operation: Operation, path: String, reason: String },
}

/// The mathematical value of a [`RunError`].
pub enum RunErrorView {
    Config(ConfigError),
    Mutation { operation: Operation, path: Seq<char>, reason: Seq<char> },
}

impl View for RunError {
    type V = RunErrorView;

    open spec fn view(&self) -> RunErrorView {
        match self {
            RunError::Config(error) => RunErrorView::Config(*error),
            RunError::Mutation { operation, path, reason } => RunErrorView::Mutation {
                operation: *operation,
                path: path@,
                reason: reason@,
            },
        }
    }
}

/// The words that name an operation in a message.
pub open spec fn operation_words(operation: Operation) -> Seq<char> {
    match operation {
        Operation::Remove => "remove"@,
        Operation::CreateDirectory => "create directory"@,
        Operation::Move => "move"@,
    }
}

/// The message for a refused configuration.
pub open spec fn config_message(error: ConfigError) -> Seq<char> {
    match error {
        ConfigError::MissingSource => "no source directory was given"@,
        ConfigError::MissingTarget => "no target directory was given for a relocating mode"@,
    }
}

/// The message for an error: for a failed change, the operation, the path
/// and the reason, in that order.
pub open spec fn message_of(error: RunErrorView) -> Seq<char> {
    match error {
        RunErrorView::Config(error) => config_message(error),
        RunErrorView::Mutation { operation, path, reason } => "cannot "@ + operation_words(
            operation,
        ) + " "@ + path + ": "@ + reason,
    }
}

impl Operation {
    /// The words that name the operation in a message.
    pub fn words(&self) -> (words: &'static str)
        ensures
            words@ == operation_words(*self),
    {
        match self {
            Operation::Remove => "remove",
            Operation::CreateDirectory => "create directory",
            Operation::Move => "move",
        }
    }
}

impl ConfigError {
    /// A message for the user.
    pub fn message(&self) -> (text: String)
        ensures
            text@ == config_message(*self),
    {
        match self {
            ConfigError::MissingSource => String::from_str("no source directory was given"),
            ConfigError::MissingTarget => String::from_str(
                "no target directory was given for a relocating mode",
            ),
        }
    }
}

impl RunError {
    /// A message for the user. For a failed change it names the operation
    /// and the path.
    pub fn message(&self) -> (text: String)
        ensures
            text@ == message_of(self@),
    {
        match self {
            RunError::Config(error) => error.message(),
            RunError::Mutation { operation, path, reason } => {
                let mut text = String::from_str("cannot ");
                text.append(operation.words());
                text.append(" ");
                text.append(path.as_str());
                text.append(": ");
                text.append(reason.as_str());
                text
            },
        }
    }
}

} // verus!

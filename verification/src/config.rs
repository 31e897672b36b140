//! What a run is asked to do: where to scan and what to do with duplicates.

use vstd::prelude::*;

verus! {

/// The disposition a caller selects for duplicates.
#[derive(Debug, Clone, Copy, PartialEq, Eq, Structural)]
pub enum Mode {
    /// Remove every duplicate.
    Delete,
    /// Move every duplicate under the target directory.
    Relocate,
    /// Move a duplicate whose path is shorter than the canonical one and
    /// make it canonical; remove every other duplicate.
    RelocateKeepShortest,
}

/// Why a configuration was refused.
#[derive(Debug, Clone, Copy, PartialEq, Eq, Structural)]
pub enum ConfigError {
    /// No source directory was given.
    MissingSource,
    /// A relocating mode was selected and no target directory was given.
    MissingTarget,
}

/// A disposition together with the directory it needs.
#[derive(Debug, Clone, PartialEq, Eq)]
pub enum Policy {
    /// Remove every duplicate.
    Delete,
    /// Move every duplicate under `target`.
    Relocate { target: String },
    /// Move a shorter-named duplicate under `target` and make it canonical;
    /// remove every other duplicate.
    RelocateKeepShortest { target: String },
}

/// The mathematical value of a [`Policy`].
pub enum PolicyView {
    Delete,
    Relocate { target: Seq<char> },
    RelocateKeepShortest { target: Seq<char> },
}

impl View for Policy {
    type V = PolicyView;

    open spec fn view(&self) -> PolicyView {
        match self {
            Policy::Delete => PolicyView::Delete,
            Policy::Relocate { target } => PolicyView::Relocate { target: target@ },
            Policy::RelocateKeepShortest { target } => PolicyView::RelocateKeepShortest {
                target: target@,
            },
        }
    }
}

impl PolicyView {
    /// The mode this policy carries out.
    pub open spec fn mode(self) -> Mode {
        match self {
            PolicyView::Delete => Mode::Delete,
            PolicyView::Relocate { .. } => Mode::Relocate,
            PolicyView::RelocateKeepShortest { .. } => Mode::RelocateKeepShortest,
        }
    }

    /// The directory duplicates are moved to, if the policy moves any.
    pub open spec fn target(self) -> Option<Seq<char>> {
        match self {
            PolicyView::Delete => None,
            PolicyView::Relocate { target } => Some(target),
            PolicyView::RelocateKeepShortest { target } => Some(target),
        }
    }
}

/// A validated configuration of one run.
#[derive(Debug, Clone, PartialEq, Eq)]
pub struct Config {
    /// Root of the tree to scan.
    pub source: String,
    /// What happens to duplicates.
    pub policy: Policy,
}

/// The mathematical value of a [`Config`].
pub struct ConfigView {
    pub source: Seq<char>,
    pub policy: PolicyView,
}

impl View for Config {
    type V = ConfigView;

    open spec fn view(&self) -> ConfigView {
        ConfigView { source: self.source@, policy: self.policy@ }
    }
}

/// The policy that `mode` and `target` select. A target given with
/// [`Mode::Delete`] plays no part.
pub open spec fn policy_for(mode: Mode, target: Seq<char>) -> PolicyView {
    match mode {
        Mode::Delete => PolicyView::Delete,
        Mode::Relocate => PolicyView::Relocate { target },
        Mode::RelocateKeepShortest => PolicyView::RelocateKeepShortest { target },
    }
}

/// What [`Config::new`] answers to the arguments of a caller.
pub open spec fn validate(
    source: Option<Seq<char>>,
    target: Option<Seq<char>>,
    mode: Mode,
) -> Result<ConfigView, ConfigError> {
    if source is None {
        Err(ConfigError::MissingSource)
    } else if mode != Mode::Delete && target is None {
        Err(ConfigError::MissingTarget)
    } else {
        Ok(
            ConfigView {
                source: source->0,
                policy: policy_for(
                    mode,
                    match target {
                        Some(t) => t,
                        None => Seq::empty(),
                    },
                ),
            },
        )
    }
}

/// The text of an optional string.
pub open spec fn text_of(value: Option<String>) -> Option<Seq<char>> {
    match value {
        Some(s) => Some(s@),
        None => None,
    }
}

impl Config {
    /// Checks the arguments of a run before any traversal begins.
    ///
    /// A source directory is always required, a target directory whenever
    /// `mode` relocates. A missing source is reported before a missing
    /// target.
    pub fn new(source: Option<String>, target: Option<String>, mode: Mode) -> (result: Result<
        Config,
        ConfigError,
    >)
        ensures
            match result {
                Ok(config) => validate(text_of(source), text_of(target), mode) == Ok::<
                    ConfigView,
                    ConfigError,
                >(config@),
                Err(error) => validate(text_of(source), text_of(target), mode) == Err::<
                    ConfigView,
                    ConfigError,
                >(error),
            },
    {
        let source = match source {
            Some(s) => s,
            None => {
                return Err(ConfigError::MissingSource);
            },
        };
        let policy = match mode {
            Mode::Delete => Policy::Delete,
            Mode::Relocate => match target {
                Some(target) => Policy::Relocate { target },
                None => {
                    return Err(ConfigError::MissingTarget);
                },
            },
            Mode::RelocateKeepShortest => match target {
                Some(target) => Policy::RelocateKeepShortest { target },
                None => {
                    return Err(ConfigError::MissingTarget);
                },
            },
        };
        Ok(Config { source, policy })
    }

    /// The mode this configuration selects.
    pub fn mode(&self) -> (mode: Mode)
        ensures
            mode == self@.policy.mode(),
    {
        match &self.policy {
            Policy::Delete => Mode::Delete,
            Policy::Relocate { .. } => Mode::Relocate,
            Policy::RelocateKeepShortest { .. } => Mode::RelocateKeepShortest,
        }
    }

    /// The directory duplicates are moved to, if any are moved.
    pub fn target(&self) -> (target: Option<&String>)
        ensures
            match target {
                Some(t) => self@.policy.target() == Some(t@),
                None => self@.policy.target() is None,
            },
    {
        match &self.policy {
            Policy::Delete => None,
            Policy::Relocate { target } => Some(target),
            Policy::RelocateKeepShortest { target } => Some(target),
        }
    }
}

} // verus!

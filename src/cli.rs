//! The options of the command line, as plain values, and the transition that
//! a bump request asks for.
use crate::semantic_version;
use crate::transition::TransitionInput;
use vstd::prelude::*;

verus! {

/// Options that apply to every command.
#[derive(Debug, Clone)]
pub struct GlobalArgs {
    /// Select every workspace member.
    pub workspace: bool,
    /// Select these packages by name.
    pub package: Vec<String>,
    /// Report what would change, and write nothing.
    pub dry_run: bool,
}

#[derive(Debug, Clone, Copy, PartialEq, Eq, Structural)]
pub enum ReleaseLevel {
    Patch,
    Minor,
    Major,
}

/// What a bump asks for.
#[derive(Debug, Clone)]
pub enum VersionBump {
    /// Increment the current pre-release, or move on to pre-release `pre`.
    Prerelease { pre: Option<String>, metadata: Option<String> },
    /// Finalize the pre-release.
    Release { metadata: Option<String> },
    /// Bump the level, and start pre-release `pre` on it if given.
    Version { level: ReleaseLevel, pre: Option<String>, metadata: Option<String> },
}

#[derive(Debug, Clone)]
pub struct BumpArgs {
    pub target: VersionBump,
    /// Leave the versions that dependents record unchanged.
    pub no_propagate: bool,
}

#[derive(Debug, Clone, Copy, PartialEq, Eq, Structural)]
pub enum CurrentVersionOutput {
    Plaintext,
    Json,
}

#[derive(Debug, Clone)]
pub struct CurrentVersionArgs {
    pub format: Option<CurrentVersionOutput>,
    /// Require every selected package to have the same version.
    pub force_single_version: bool,
}

#[derive(Debug, Clone)]
pub enum Command {
    Bump(BumpArgs),
    CurrentVersion(CurrentVersionArgs),
}

#[derive(Debug, Clone)]
pub struct Cli {
    pub cmd: Command,
    pub global: GlobalArgs,
}

/// The `cargo goose` entry point.
#[derive(Debug, Clone)]
pub enum CargoGooseCli {
    Goose(Cli),
}

pub open spec fn level_of(level: ReleaseLevel) -> semantic_version::ReleaseLevel {
    match level {
        ReleaseLevel::Patch => semantic_version::ReleaseLevel::Patch,
        ReleaseLevel::Minor => semantic_version::ReleaseLevel::Minor,
        ReleaseLevel::Major => semantic_version::ReleaseLevel::Major,
    }
}

impl From<ReleaseLevel> for semantic_version::ReleaseLevel {
    fn from(val: ReleaseLevel) -> Self {
        match val {
            ReleaseLevel::Patch => Self::Patch,
            ReleaseLevel::Minor => Self::Minor,
            ReleaseLevel::Major => Self::Major,
        }
    }
}

impl vstd::std_specs::convert::FromSpecImpl<ReleaseLevel> for semantic_version::ReleaseLevel {
    open spec fn obeys_from_spec() -> bool {
        true
    }

    open spec fn from_spec(val: ReleaseLevel) -> Self {
        level_of(val)
    }
}

/// The transition that a bump asks for: a pre-release with an identifier
/// moves on to it, without one increments; a release finalizes; a level
/// starts a pre-release if one is named, else bumps the release.
pub open spec fn transition_of(target: VersionBump) -> TransitionInput {
    match target {
        VersionBump::Prerelease { pre, metadata } => match pre {
            Some(pre) => TransitionInput::TransitionPrerelease { pre, metadata },
            None => TransitionInput::IncrementPrerelease { metadata },
        },
        VersionBump::Release { metadata } => TransitionInput::FinalizeRelease { metadata },
        VersionBump::Version { level, pre, metadata } => match pre {
            Some(pre) => TransitionInput::StartPrerelease { level: level_of(level), pre, metadata },
            None => TransitionInput::BumpRelease { level: level_of(level), metadata },
        },
    }
}

impl From<BumpArgs> for TransitionInput {
    fn from(args: BumpArgs) -> Self {
        match args.target {
            VersionBump::Prerelease { pre, metadata } => {
                match pre {
                    // move on to another pre-release (alpha -> beta)
                    Some(pre) => TransitionInput::TransitionPrerelease { pre, metadata },
                    // next iteration (alpha.1 -> alpha.2)
                    None => TransitionInput::IncrementPrerelease { metadata },
                }
            },
            VersionBump::Release { metadata } => TransitionInput::FinalizeRelease { metadata },
            VersionBump::Version { level, pre, metadata } => match pre {
                Some(pre) => TransitionInput::StartPrerelease { level: level.into(), pre, metadata },
                None => TransitionInput::BumpRelease { level: level.into(), metadata },
            },
        }
    }
}

impl vstd::std_specs::convert::FromSpecImpl<BumpArgs> for TransitionInput {
    open spec fn obeys_from_spec() -> bool {
        true
    }

    open spec fn from_spec(args: BumpArgs) -> Self {
        transition_of(args.target)
    }
}

fn copy_text(s: &Option<String>) -> (r: Option<String>)
    ensures
        r == *s,
{
    match s {
        Some(t) => Some(t.clone()),
        None => None,
    }
}

impl BumpArgs {
    /// The transition that these arguments ask for, made afresh for each
    /// package.
    pub fn transition(&self) -> (r: TransitionInput)
        ensures
            r == transition_of(self.target),
    {
        match &self.target {
            VersionBump::Prerelease { pre, metadata } => match pre {
                Some(p) => TransitionInput::TransitionPrerelease {
                    pre: p.clone(),
                    metadata: copy_text(metadata),
                },
                None => TransitionInput::IncrementPrerelease { metadata: copy_text(metadata) },
            },
            VersionBump::Release { metadata } => TransitionInput::FinalizeRelease {
                metadata: copy_text(metadata),
            },
            VersionBump::Version { level, pre, metadata } => match pre {
                Some(p) => TransitionInput::StartPrerelease {
                    level: (*level).into(),
                    pre: p.clone(),
                    metadata: copy_text(metadata),
                },
                None => TransitionInput::BumpRelease {
                    level: (*level).into(),
                    metadata: copy_text(metadata),
                },
            },
        }
    }
}

} // verus!

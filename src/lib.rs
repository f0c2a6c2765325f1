//! Semantic versions and the transitions between them (start, increment,
//! move on or finalize a pre-release; bump a release), with the decisions of
//! a workspace-wide bump: which packages, which new versions, which
//! dependents to update.
pub mod bump;
pub mod cli;
pub mod config;
pub mod current_version;
pub mod grammar;
pub mod metadata;
pub mod semantic_version;
mod semver_calls;
pub mod text;
pub mod transition;

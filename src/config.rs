//! The project configuration: its format version, project settings and
//! per-language settings.
use std::collections::HashMap;
use vstd::prelude::*;

verus! {

#[derive(Debug, Clone, Copy, PartialEq, Eq, Hash, Structural)]
pub enum Language {
    Rust,
}

#[derive(Debug, Default)]
pub struct LanguageConfig {}

#[derive(Debug, Default)]
pub struct GooseConfig {}

/// The format version of a configuration; 1 where none is given.
#[derive(Debug)]
pub struct GooseConfigVersion(pub u64);

impl Default for GooseConfigVersion {
    fn default() -> (r: Self)
        ensures
            r.0 == 1,
    {
        Self(1)
    }
}

#[derive(Debug)]
pub struct Config {
    version: GooseConfigVersion,
    project: GooseConfig,
    language: HashMap<Language, LanguageConfig>,
}

impl Config {
    /// A configuration; a missing format version is 1.
    pub fn new(
        version: Option<u64>,
        project: GooseConfig,
        language: HashMap<Language, LanguageConfig>,
    ) -> (r: Config)
        ensures
            r.version_spec() == match version {
                Some(v) => v,
                None => 1,
            },
            r.project_spec() == project,
            r.language_spec() == language,
    {
        let version = match version {
            Some(v) => GooseConfigVersion(v),
            None => GooseConfigVersion::default(),
        };
        Config { version, project, language }
    }

    pub closed spec fn version_spec(&self) -> u64 {
        self.version.0
    }

    pub fn version(&self) -> (r: u64)
        ensures
            r == self.version_spec(),
    {
        self.version.0
    }

    pub closed spec fn project_spec(&self) -> GooseConfig {
        self.project
    }

    pub closed spec fn language_spec(&self) -> HashMap<Language, LanguageConfig> {
        self.language
    }

    pub fn project(&self) -> (r: &GooseConfig)
        ensures
            *r == self.project_spec(),
    {
        &self.project
    }

    pub fn langauge(&self) -> (r: &HashMap<Language, LanguageConfig>)
        ensures
            *r == self.language_spec(),
    {
        &self.language
    }
}

} // verus!

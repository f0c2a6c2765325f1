//! What the current-version command reports: one structured record per
//! version, and the single version that a selection must share.
use crate::semantic_version::{SemanticVersion, State, VersionError, VersionModel, opt_view};
use vstd::prelude::*;

verus! {

/// Why a selection of packages did not give what was asked.
#[derive(Debug, Clone, Copy, PartialEq, Eq, Structural)]
pub enum SelectionError {
    /// Nothing was selected.
    NoPackages,
    /// The selected packages do not share one version.
    DifferentVersions,
    /// `--workspace` and `--package` were both given.
    WorkspaceWithPackage,
    /// A package named by `--package` is not in the workspace (its position
    /// among the names).
    PackageNotFound(usize),
}

/// The explanation of each selection failure.
pub open spec fn selection_message(e: SelectionError) -> Seq<char> {
    match e {
        SelectionError::NoPackages => "No packages found"@,
        SelectionError::DifferentVersions => "Selected packages have different versions"@,
        SelectionError::WorkspaceWithPackage => "cannot use --workspace with --package"@,
        SelectionError::PackageNotFound(_) => "package not found"@,
    }
}

impl SelectionError {
    pub fn message(&self) -> (r: &'static str)
        ensures
            r@ == selection_message(*self),
    {
        match self {
            SelectionError::NoPackages => "No packages found",
            SelectionError::DifferentVersions => "Selected packages have different versions",
            SelectionError::WorkspaceWithPackage => "cannot use --workspace with --package",
            SelectionError::PackageNotFound(_) => "package not found",
        }
    }
}

/// A version as a structured record.
#[derive(Debug, Clone)]
pub struct CurrentVersionRepr {
    pub version: String,
    pub major: u64,
    pub minor: u64,
    pub patch: u64,
    pub pre: Option<String>,
    pub iteration: Option<u64>,
    pub build: Option<String>,
    pub is_prerelease: bool,
}

/// The record of one package's version.
#[derive(Debug, Clone)]
pub struct PackageVersionRepr {
    pub package: String,
    pub version: CurrentVersionRepr,
}

/// The records of several packages.
#[derive(Debug, Clone)]
pub struct CurrentVersionJson {
    pub packages: Vec<PackageVersionRepr>,
}

impl CurrentVersionRepr {
    /// The record describes the version: its canonical text and each part.
    pub open spec fn describes(&self, m: VersionModel) -> bool {
        &&& self.version@ == m.text()
        &&& self.major == m.major
        &&& self.minor == m.minor
        &&& self.patch == m.patch
        &&& opt_view(self.pre) == match m.pre {
            Some(p) => Some(p.0),
            None => None::<Seq<char>>,
        }
        &&& self.iteration == match m.pre {
            Some(p) => Some(p.1),
            None => None::<u64>,
        }
        &&& opt_view(self.build) == m.build
        &&& self.is_prerelease == (m.state() == State::Prerelease)
    }

    /// The record of a version; it never fails.
    pub fn try_from(val: SemanticVersion) -> (r: Result<CurrentVersionRepr, VersionError>)
        ensures
            r matches Ok(c) && c.describes(val@),
    {
        let (pre, iteration) = match val.prerelease() {
            Some(p) => (Some(p.ident), Some(p.iteration)),
            None => (None, None),
        };
        Ok(
            CurrentVersionRepr {
                version: val.to_string(),
                major: val.major(),
                minor: val.minor(),
                patch: val.patch(),
                pre,
                iteration,
                build: val.build(),
                is_prerelease: val.is_prerelease(),
            },
        )
    }
}

fn same_text(a: &Option<String>, b: &Option<String>) -> (r: bool)
    ensures
        r == (opt_view(*a) == opt_view(*b)),
{
    match (a, b) {
        (Some(x), Some(y)) => *x == *y,
        (None, None) => true,
        _ => false,
    }
}

/// Whether two versions are the same, build metadata included.
pub fn same_version(a: &SemanticVersion, b: &SemanticVersion) -> (r: bool)
    ensures
        r == (a@ == b@),
{
    if a.major != b.major || a.minor != b.minor || a.patch != b.patch {
        return false;
    }
    let same_pre = match (&a.pre, &b.pre) {
        (Some(x), Some(y)) => (x.ident == y.ident) && x.iteration == y.iteration,
        (None, None) => true,
        _ => false,
    };
    same_pre && same_text(&a.build, &b.build)
}

/// The one version that all the given versions share.
pub fn select_single_version(versions: &Vec<SemanticVersion>) -> (r: Result<
    SemanticVersion,
    SelectionError,
>)
    ensures
        versions@.len() == 0 ==> r == Err::<SemanticVersion, SelectionError>(
            SelectionError::NoPackages,
        ),
        versions@.len() > 0 ==> {
            let first = versions@[0]@;
            if forall|i: int| 0 <= i < versions@.len() ==> #[trigger] versions@[i]@ == first {
                r matches Ok(v) && v@ == first
            } else {
                r == Err::<SemanticVersion, SelectionError>(SelectionError::DifferentVersions)
            }
        },
{
    if versions.len() == 0 {
        return Err(SelectionError::NoPackages);
    }
    let first = &versions[0];
    let mut i: usize = 1;
    while i < versions.len()
        invariant
            1 <= i <= versions@.len(),
            first@ == versions@[0]@,
            forall|k: int| 0 <= k < i ==> #[trigger] versions@[k]@ == first@,
        decreases versions@.len() - i,
    {
        if !same_version(&versions[i], first) {
            return Err(SelectionError::DifferentVersions);
        }
        i = i + 1;
    }
    Ok(
        SemanticVersion {
            major: first.major,
            minor: first.minor,
            patch: first.patch,
            pre: first.prerelease(),
            build: first.build(),
        },
    )
}

} // verus!

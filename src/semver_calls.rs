//! Calls into the `semver` crate (as re-exported by `cargo_metadata`): the
//! version grammar, the build-metadata grammar and pre-release precedence.
use crate::grammar::{is_version_text, pre_lt, valid_build_text, valid_pre_text};
use cargo_metadata::semver;
use vstd::prelude::*;

verus! {

/// The error type of the `semver` crate.
#[verifier::external_type_specification]
#[verifier::external_body]
pub struct ExSemverError(semver::Error);

/// Relies on `semver::Version::parse`: it accepts exactly the SemVer 2.0 text
/// of a version and keeps the numbers, the pre-release and the build metadata
/// as written, so that its `Display` gives the text back.
#[verifier::external_body]
pub(crate) fn parse_version_parts(text: &str) -> (r: Result<
    (u64, u64, u64, String, String),
    semver::Error,
>)
    ensures
        r is Ok <==> is_version_text(text@),
        r matches Ok(p) ==> {
            &&& p.3@.len() == 0 || valid_pre_text(p.3@)
            &&& p.4@.len() == 0 || valid_build_text(p.4@)
            &&& crate::grammar::version_text(p.0, p.1, p.2, p.3@, p.4@) == text@
        },
{
    semver::Version::parse(text).map(
        |v| (v.major, v.minor, v.patch, v.pre.as_str().to_string(), v.build.as_str().to_string()),
    )
}

/// Relies on `semver::BuildMetadata::new`: it accepts the empty text and
/// dot-separated identifiers of ASCII letters, digits and hyphens.
#[verifier::external_body]
pub(crate) fn check_build_metadata(text: &str) -> (r: Result<(), semver::Error>)
    ensures
        r is Ok <==> (text@.len() == 0 || valid_build_text(text@)),
{
    semver::BuildMetadata::new(text).map(|_| ())
}

/// Relies on `Ord for semver::Prerelease`: SemVer 2.0 precedence of two
/// non-empty pre-release texts.
#[verifier::external_body]
pub(crate) fn prerelease_lt(a: &str, b: &str) -> (r: bool)
    requires
        valid_pre_text(a@),
        valid_pre_text(b@),
    ensures
        r == pre_lt(a@, b@),
{
    match (semver::Prerelease::new(a), semver::Prerelease::new(b)) {
        (Ok(a), Ok(b)) => a < b,
        _ => false,
    }
}

} // verus!

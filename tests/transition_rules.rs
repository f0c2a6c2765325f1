use cargo_goose::semantic_version::{ReleaseLevel, SemanticVersion, State, VersionError};
use cargo_goose::transition::{validate, TransitionError, TransitionInput, TransitionKind};

fn sv(s: &str) -> SemanticVersion {
    SemanticVersion::parse(s).unwrap()
}

fn apply(v: &str, t: TransitionInput) -> Result<String, VersionError> {
    sv(v).apply(t).map(|n| n.to_string())
}

#[test]
fn scenario_start_prerelease() {
    let t = TransitionInput::StartPrerelease { level: ReleaseLevel::Minor, pre: "alpha".into(), metadata: None };
    assert_eq!(apply("1.2.3", t).unwrap(), "1.3.0-alpha.1");
}

#[test]
fn scenario_increment_with_build() {
    let t = TransitionInput::IncrementPrerelease { metadata: Some("build.9".into()) };
    assert_eq!(apply("1.2.3-alpha.1", t).unwrap(), "1.2.3-alpha.2+build.9");
}

#[test]
fn scenario_transition_prerelease() {
    let t = TransitionInput::TransitionPrerelease { pre: "beta".into(), metadata: None };
    assert_eq!(apply("1.2.3-alpha.3", t).unwrap(), "1.2.3-beta.1");
}

#[test]
fn scenario_finalize() {
    let t = TransitionInput::FinalizeRelease { metadata: None };
    assert_eq!(apply("1.2.3-rc.4", t).unwrap(), "1.2.3");
}

#[test]
fn scenario_bump_major() {
    let t = TransitionInput::BumpRelease { level: ReleaseLevel::Major, metadata: None };
    assert_eq!(apply("1.2.3", t).unwrap(), "2.0.0");
}

#[test]
fn scenario_bump_from_prerelease_is_refused() {
    let t = TransitionInput::BumpRelease { level: ReleaseLevel::Major, metadata: None };
    assert_eq!(
        apply("1.2.3-alpha.1", t).unwrap_err(),
        VersionError::Transition(TransitionError::BumpReleaseFromPrerelease)
    );
}

#[test]
fn grammar_covers_all_ten_pairs() {
    let kinds = [
        TransitionKind::StartPrerelease,
        TransitionKind::IncrementPrerelease,
        TransitionKind::TransitionPrerelease,
        TransitionKind::FinalizeRelease,
        TransitionKind::BumpRelease,
    ];
    let mut errors = Vec::new();
    for state in [State::Release, State::Prerelease] {
        for kind in kinds {
            let legal = (state == State::Release)
                == (kind == TransitionKind::StartPrerelease || kind == TransitionKind::BumpRelease);
            match validate(&state, &kind) {
                Ok(()) => assert!(legal),
                Err(e) => {
                    assert!(!legal);
                    assert!(!errors.contains(&e));
                    errors.push(e);
                }
            }
        }
    }
    assert_eq!(errors.len(), 5);
    assert_eq!(
        validate(&State::Release, &TransitionKind::TransitionPrerelease),
        Err(TransitionError::TransitionPrereleaseFromRelease)
    );
    assert_eq!(
        validate(&State::Prerelease, &TransitionKind::StartPrerelease),
        Err(TransitionError::StartPrereleaseFromPrerelease)
    );
}

#[test]
fn refusals_name_the_needed_state() {
    let t = TransitionInput::IncrementPrerelease { metadata: None };
    let e = sv("1.2.3").apply(t).unwrap_err();
    assert_eq!(e, VersionError::Transition(TransitionError::IncrementPrereleaseFromRelease));
    assert_eq!(
        TransitionError::IncrementPrereleaseFromRelease.message(),
        "You can only increment a pre-release from an existing pre-release version."
    );
    let t = TransitionInput::FinalizeRelease { metadata: None };
    assert_eq!(
        sv("1.2.3").apply(t).unwrap_err(),
        VersionError::Transition(TransitionError::FinalizeReleaseFromRelease)
    );
}

#[test]
fn transition_kind_of_each_input() {
    let t = TransitionInput::FinalizeRelease { metadata: None };
    assert_eq!(t.kind(), TransitionKind::FinalizeRelease);
    let t = TransitionInput::StartPrerelease { level: ReleaseLevel::Patch, pre: "a".into(), metadata: None };
    assert_eq!(t.kind(), TransitionKind::StartPrerelease);
}

#[test]
fn advancement_follows_semver_precedence() {
    let go = |from: &str, to: &str| {
        apply(from, TransitionInput::TransitionPrerelease { pre: to.into(), metadata: None })
    };
    assert_eq!(go("1.2.3-alpha.3", "beta").unwrap(), "1.2.3-beta.1");
    assert_eq!(go("1.2.3-beta.2", "beta").unwrap_err(), VersionError::PrereleaseNotAdvancing);
    assert_eq!(go("1.2.3-beta.1", "beta").unwrap_err(), VersionError::PrereleaseNotAdvancing);
    assert_eq!(go("1.2.3-rc.1", "beta").unwrap_err(), VersionError::PrereleaseNotAdvancing);
    assert_eq!(go("1.2.3-beta.1", "rc").unwrap(), "1.2.3-rc.1");
    // numeric identifiers come before alphanumeric ones
    assert_eq!(go("1.2.3-alpha.1", "5").unwrap_err(), VersionError::PrereleaseNotAdvancing);
    assert_eq!(go("1.2.3-5.1", "alpha").unwrap(), "1.2.3-alpha.1");
    // numeric identifiers compare by value
    assert_eq!(go("1.2.3-9.4", "10").unwrap(), "1.2.3-10.1");
    // ASCII order: upper case before lower case
    assert_eq!(go("1.2.3-beta.1", "Beta").unwrap_err(), VersionError::PrereleaseNotAdvancing);
    // a longer identifier with the same start comes after
    assert_eq!(go("1.2.3-beta.1", "beta2").unwrap(), "1.2.3-beta2.1");
}

#[test]
fn bad_identifiers_and_build_are_reported() {
    let t = TransitionInput::TransitionPrerelease { pre: "be ta".into(), metadata: None };
    assert_eq!(apply("1.2.3-alpha.1", t).unwrap_err(), VersionError::MalformedPrerelease);
    let t = TransitionInput::StartPrerelease { level: ReleaseLevel::Patch, pre: "".into(), metadata: None };
    assert_eq!(apply("1.2.3", t).unwrap_err(), VersionError::MalformedPrerelease);
    let t = TransitionInput::BumpRelease { level: ReleaseLevel::Patch, metadata: Some("no spaces".into()) };
    assert_eq!(apply("1.2.3", t).unwrap_err(), VersionError::MalformedBuild);
}

#[test]
fn build_metadata_is_replaced_not_merged() {
    let t = TransitionInput::IncrementPrerelease { metadata: None };
    assert_eq!(apply("1.2.3-alpha.1+old", t).unwrap(), "1.2.3-alpha.2");
    let t = TransitionInput::FinalizeRelease { metadata: Some("new".into()) };
    assert_eq!(apply("1.2.3-alpha.1+old", t).unwrap(), "1.2.3+new");
}

#[test]
fn increment_overflow_is_an_error() {
    let t = TransitionInput::IncrementPrerelease { metadata: None };
    assert_eq!(apply("1.2.3-alpha.18446744073709551615", t).unwrap_err(), VersionError::Overflow);
}

#[test]
fn unchecked_application_skips_the_table() {
    let t = TransitionInput::BumpRelease { level: ReleaseLevel::Minor, metadata: None };
    assert_eq!(sv("1.2.3-alpha.1").apply_unchecked(t).unwrap().to_string(), "1.3.0");
    let t = TransitionInput::TransitionPrerelease { pre: "beta".into(), metadata: None };
    assert!(sv("1.2.3").apply_unchecked(t).is_err());
}

use cargo_goose::semantic_version::{ReleaseLevel, SemanticVersion};
use cargo_goose::transition::TransitionInput;

fn sv(s: &str) -> SemanticVersion {
    SemanticVersion::parse(s).unwrap()
}

#[test]
fn transition_start_prerelease_from_release() {
    let v = sv("1.2.3");

    let next = v
        .apply(TransitionInput::StartPrerelease {
            level: ReleaseLevel::Minor,
            pre: "alpha".into(),
            metadata: None,
        })
        .unwrap();

    assert_eq!(next.to_string(), "1.3.0-alpha.1");
}

#[test]
fn transition_start_prerelease_fails_from_prerelease() {
    let v = sv("1.2.3-beta.1");

    let result = v.apply(TransitionInput::StartPrerelease {
        level: ReleaseLevel::Patch,
        pre: "alpha".into(),
        metadata: None,
    });

    assert!(result.is_err());
}

#[test]
fn transition_increment_prerelease_success() {
    let v = sv("1.2.3-alpha.1");

    let next = v
        .apply(TransitionInput::IncrementPrerelease { metadata: None })
        .unwrap();

    assert_eq!(next.to_string(), "1.2.3-alpha.2");
}

#[test]
fn transition_increment_prerelease_updates_metadata() {
    let v = sv("1.2.3-alpha.1");

    let next = v
        .apply(TransitionInput::IncrementPrerelease {
            metadata: Some("build.9".into()),
        })
        .unwrap();

    assert_eq!(next.to_string(), "1.2.3-alpha.2+build.9");
}

#[test]
fn transition_increment_prerelease_fails_on_release() {
    let v = sv("1.2.3");

    let result = v.apply(TransitionInput::IncrementPrerelease { metadata: None });

    assert!(result.is_err());
}

#[test]
fn transition_transition_prerelease_forward() {
    let v = sv("1.2.3-alpha.3");

    let next = v
        .apply(TransitionInput::TransitionPrerelease {
            pre: "beta".into(),
            metadata: None,
        })
        .unwrap();

    assert_eq!(next.to_string(), "1.2.3-beta.1");
}

#[test]
fn transition_transition_prerelease_rejects_same_or_lower() {
    let v = sv("1.2.3-beta.2");

    let result = v.apply(TransitionInput::TransitionPrerelease {
        pre: "beta".into(),
        metadata: None,
    });

    assert!(result.is_err());
}

#[test]
fn transition_transition_prerelease_fails_on_release() {
    let v = sv("1.2.3");

    let result = v.apply(TransitionInput::TransitionPrerelease {
        pre: "beta".into(),
        metadata: None,
    });

    assert!(result.is_err());
}

#[test]
fn transition_finalize_prerelease_success() {
    let v = sv("1.2.3-rc.4");

    let next = v
        .apply(TransitionInput::FinalizeRelease { metadata: None })
        .unwrap();

    assert_eq!(next.to_string(), "1.2.3");
}

#[test]
fn transition_finalize_release_fails_on_release() {
    let v = sv("1.2.3");

    let result = v.apply(TransitionInput::FinalizeRelease { metadata: None });

    assert!(result.is_err());
}

#[test]
fn transition_bump_release_success() {
    let v = sv("1.2.3");

    let next = v
        .apply(TransitionInput::BumpRelease {
            level: ReleaseLevel::Major,
            metadata: None,
        })
        .unwrap();

    assert_eq!(next.to_string(), "2.0.0");
}

#[test]
fn transition_bump_release_fails_on_prerelease() {
    let v = sv("1.2.3-alpha.1");

    let result = v.apply(TransitionInput::BumpRelease {
        level: ReleaseLevel::Minor,
        metadata: None,
    });

    assert!(result.is_err());
}

#[test]
fn finalize_prerelease_with_metadata() {
    let v = sv("1.2.3-rc.4");

    let next = v
        .apply(TransitionInput::FinalizeRelease {
            metadata: Some("build.1".into()),
        })
        .unwrap();

    assert_eq!(next.to_string(), "1.2.3+build.1");
}

#[test]
fn bump_release_with_metadata() {
    let v = sv("1.2.3");

    let next = v
        .apply(TransitionInput::BumpRelease {
            level: ReleaseLevel::Patch,
            metadata: Some("build.7".into()),
        })
        .unwrap();

    assert_eq!(next.to_string(), "1.2.4+build.7");
}

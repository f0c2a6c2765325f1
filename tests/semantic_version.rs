use cargo_goose::semantic_version::{Prerelease, ReleaseLevel, SemanticVersion, VersionError};

fn sv(s: &str) -> SemanticVersion {
    SemanticVersion::parse(s).unwrap()
}

#[test]
fn test_build_empty() {
    let v = sv("1.2.3");
    let build = v.build();

    assert!(build.is_none());
}

#[test]
fn test_build_not_empty() {
    let v = sv("1.2.3+asdf");
    let build = v.build();

    assert_eq!(build, Some("asdf".to_string()))
}

#[test]
fn test_semantic_version_display() {
    let sv = SemanticVersion::parse("1.2.3").unwrap();

    assert_eq!(sv.to_string(), "1.2.3");
}

#[test]
fn test_semantic_version_is_prerelease() {
    let sv = SemanticVersion::parse("1.2.3-beta.1").unwrap();

    assert!(sv.is_prerelease());
}

#[test]
fn test_semantic_version_not_prerelease() {
    let sv = SemanticVersion::parse("1.2.3").unwrap();

    assert!(!sv.is_prerelease());
}

#[test]
fn test_semantic_version_clear_prerelease() {
    let sv = SemanticVersion::parse("1.2.3-beta.1").unwrap();

    let cleared = sv.clear_prerelease().unwrap();

    assert!(!cleared.is_prerelease());
    assert_eq!(cleared.to_string(), "1.2.3");
}

#[test]
fn test_semantic_version_with_build() {
    let sv = SemanticVersion::parse("1.2.3").unwrap();

    let with_meta = sv.with_build(Some("build.42".to_string())).unwrap();

    assert_eq!(with_meta.to_string(), "1.2.3+build.42");
}

#[test]
fn test_semantic_version_with_invalid_metadata_fails() {
    let sv = SemanticVersion::parse("1.2.3").unwrap();

    let result = sv.with_build(Some("invalid metadata".to_string()));

    assert!(result.is_err());
}

#[test]
fn test_semantic_version_with_prerelease() {
    let sv = SemanticVersion::parse("1.2.3").unwrap();

    let pr = Prerelease::parse("alpha.7").unwrap();
    let with_pr = sv.with_prerelease(pr).unwrap();

    assert_eq!(with_pr.to_string(), "1.2.3-alpha.7");
}

#[test]
fn test_bump_patch() {
    let sv = SemanticVersion::parse("1.2.3").unwrap();

    let bumped = sv.bump_level(ReleaseLevel::Patch).unwrap();

    assert_eq!(bumped.to_string(), "1.2.4");
}

#[test]
fn test_bump_minor() {
    let sv = SemanticVersion::parse("1.2.3").unwrap();

    let bumped = sv.bump_level(ReleaseLevel::Minor).unwrap();

    assert_eq!(bumped.to_string(), "1.3.0");
}

#[test]
fn test_bump_major() {
    let sv = SemanticVersion::parse("1.2.3").unwrap();

    let bumped = sv.bump_level(ReleaseLevel::Major).unwrap();

    assert_eq!(bumped.to_string(), "2.0.0");
}

#[test]
fn test_try_from_rejects_invalid_prerelease_format() {
    // valid SemVer, but the pre-release has no iteration
    let result = SemanticVersion::parse("1.2.3-beta");

    assert!(result.is_err());
}

#[test]
fn test_prerelease_parse_rejects_extra_components() {
    let result = Prerelease::parse("beta.1.extra");

    assert!(result.is_err());
}

#[test]
fn test_prerelease_parse_rejects_non_numeric_iteration() {
    let result = Prerelease::parse("beta.one");

    assert!(result.is_err());
}

#[test]
fn test_prerelease_semver_eq() {
    let pred = Prerelease {
        ident: "beta".to_string(),
        iteration: 1,
    };

    assert_eq!("beta.1", pred.to_string());
}

#[test]
fn test_prerelease_parse_successful() {
    let result = Prerelease::parse("beta.1");

    assert!(result.is_ok());

    assert_eq!(
        result.unwrap().to_string(),
        Prerelease {
            ident: "beta".to_string(),
            iteration: 1
        }
        .to_string()
    );
}

#[test]
fn test_malformed_prerelease_no_iteration() {
    let result = Prerelease::parse("beta");

    assert!(result.is_err());
}

#[test]
fn test_malformed_prerelease_no_identifier() {
    let result = Prerelease::parse("1");

    assert!(result.is_err());
}

#[test]
fn test_prerelease_increment() {
    let pr = Prerelease::parse("beta.1").unwrap().increment();

    assert_eq!(pr.iteration, 2);
}

#[test]
fn parse_keeps_every_part() {
    let v = sv("10.20.30-rc.12+build.7-x");
    assert_eq!(v.major(), 10);
    assert_eq!(v.minor(), 20);
    assert_eq!(v.patch(), 30);
    let p = v.prerelease().unwrap();
    assert_eq!(p.ident, "rc");
    assert_eq!(p.iteration, 12);
    assert_eq!(v.build(), Some("build.7-x".to_string()));
}

#[test]
fn round_trip_canonical_texts() {
    for s in [
        "0.0.0",
        "1.2.3",
        "1.2.3-alpha.1",
        "1.2.3+build.5",
        "10.0.1-rc.0+exp.sha.5114f85",
        "18446744073709551615.0.0",
    ] {
        let v = sv(s);
        assert_eq!(v.to_string(), s);
        let again = SemanticVersion::parse(&v.to_string()).unwrap();
        assert_eq!(again.to_string(), s);
    }
}

#[test]
fn parse_rejects_what_semver_rejects() {
    for s in ["", "1.2", "1.2.3.4", "01.2.3", "1.2.3-", "v1.2.3", "1.2+build", " 1.2.3", "1.2.3-a..1", "18446744073709551616.0.0"] {
        assert_eq!(SemanticVersion::parse(s).unwrap_err(), VersionError::InvalidVersion, "{s}");
    }
}

#[test]
fn parse_reports_bad_build_metadata() {
    for s in ["1.2.3+", "1.2.3+a..b", "1.2.3-rc.1+bad build", "1.2.3+ok+no"] {
        assert_eq!(SemanticVersion::parse(s).unwrap_err(), VersionError::MalformedBuild, "{s}");
    }
}

#[test]
fn parse_rejects_prerelease_shapes() {
    for s in ["1.2.3-beta", "1.2.3-beta.1.2", "1.2.3-beta.x", "1.2.3-1"] {
        assert_eq!(SemanticVersion::parse(s).unwrap_err(), VersionError::MalformedPrerelease, "{s}");
    }
}

#[test]
fn prerelease_parse_reads_plus_sign_and_empty_identifier() {
    let p = Prerelease::parse("beta.+7").unwrap();
    assert_eq!(p.iteration, 7);
    let q = Prerelease::parse(".3").unwrap();
    assert_eq!(q.ident, "");
    assert_eq!(q.iteration, 3);
    assert!(Prerelease::parse("beta.+").is_err());
    assert!(Prerelease::parse("beta.18446744073709551616").is_err());
    assert_eq!(Prerelease::parse("beta.18446744073709551615").unwrap().iteration, u64::MAX);
}

#[test]
fn prerelease_validity() {
    let ok = |s: &str| Prerelease { ident: s.to_string(), iteration: 1 }.is_valid();
    assert!(ok("alpha"));
    assert!(ok("rc-1"));
    assert!(ok("0"));
    assert!(ok("7"));
    assert!(!ok(""));
    assert!(!ok("a.b"));
    assert!(!ok("be ta"));
    assert!(!ok("01"));
}

#[test]
fn clear_prerelease_twice_is_once() {
    let once = sv("1.2.3-beta.4+b").clear_prerelease().unwrap();
    let twice = once.clone().clear_prerelease().unwrap();
    assert_eq!(once.to_string(), "1.2.3+b");
    assert_eq!(twice.to_string(), once.to_string());
}

#[test]
fn bump_clears_prerelease_and_build() {
    let v = sv("1.2.3-beta.4+b");
    assert_eq!(v.bump_level(ReleaseLevel::Patch).unwrap().to_string(), "1.2.4");
}

#[test]
fn bump_overflow_is_an_error() {
    let v = sv("18446744073709551615.1.1");
    assert_eq!(v.bump_level(ReleaseLevel::Major).unwrap_err(), VersionError::Overflow);
    let v = sv("1.18446744073709551615.1");
    assert_eq!(v.bump_level(ReleaseLevel::Minor).unwrap_err(), VersionError::Overflow);
    let v = sv("1.1.18446744073709551615");
    assert_eq!(v.bump_level(ReleaseLevel::Patch).unwrap_err(), VersionError::Overflow);
    let v = sv("1.18446744073709551615.1");
    assert_eq!(v.bump_level(ReleaseLevel::Major).unwrap().to_string(), "2.0.0");
}

#[test]
fn bump_is_higher_and_resets_lower_parts() {
    let v = sv("3.4.5");
    let major = v.clone().bump_level(ReleaseLevel::Major).unwrap();
    assert_eq!((major.major(), major.minor(), major.patch()), (4, 0, 0));
    let minor = v.clone().bump_level(ReleaseLevel::Minor).unwrap();
    assert_eq!((minor.major(), minor.minor(), minor.patch()), (3, 5, 0));
    let patch = v.bump_level(ReleaseLevel::Patch).unwrap();
    assert_eq!((patch.major(), patch.minor(), patch.patch()), (3, 4, 6));
}

#[test]
fn with_build_empty_or_none_clears() {
    let v = sv("1.2.3+old");
    assert_eq!(v.clone().with_build(None).unwrap().to_string(), "1.2.3");
    assert_eq!(v.clone().with_build(Some(String::new())).unwrap().to_string(), "1.2.3");
    assert_eq!(v.clone().with_build(Some("a..b".to_string())).unwrap_err(), VersionError::MalformedBuild);
    assert_eq!(v.with_build(Some("new.001".to_string())).unwrap().to_string(), "1.2.3+new.001");
}

#[test]
fn with_prerelease_rejects_bad_identifier() {
    let v = sv("1.2.3");
    let bad = Prerelease { ident: "a.b".to_string(), iteration: 1 };
    assert_eq!(v.with_prerelease(bad).unwrap_err(), VersionError::MalformedPrerelease);
}

use cargo_goose::current_version::{
    select_single_version, CurrentVersionJson, CurrentVersionRepr, PackageVersionRepr, SelectionError,
};
use cargo_goose::semantic_version::SemanticVersion;

fn resolve_version_for_output(
    versions: Vec<SemanticVersion>,
    force_single: bool,
) -> Result<Option<SemanticVersion>, SelectionError> {
    if force_single {
        Ok(Some(select_single_version(&versions)?))
    } else {
        Ok(None)
    }
}

fn sv(s: &str) -> SemanticVersion {
    SemanticVersion::parse(s).unwrap()
}

#[test]
fn force_single_ok_when_versions_match() {
    let versions = vec![sv("1.0.0"), sv("1.0.0")];

    let v = resolve_version_for_output(versions, true).unwrap().unwrap();

    assert_eq!(v.to_string(), "1.0.0");
}

#[test]
fn force_single_errors_on_conflict() {
    let versions = vec![sv("1.0.0"), sv("1.1.0")];

    let err = resolve_version_for_output(versions, true).unwrap_err();
    assert!(err.message().contains("different versions"));
}

#[test]
fn force_single_errors_on_empty() {
    let versions: Vec<SemanticVersion> = vec![];

    let err = resolve_version_for_output(versions, true).unwrap_err();
    assert!(err.message().contains("No packages found"));
}

#[test]
fn no_force_single_returns_none() {
    let versions = vec![sv("1.0.0"), sv("1.1.0")];

    let result = resolve_version_for_output(versions, false).unwrap();
    assert!(result.is_none());
}

#[test]
fn single_version_counts_build_metadata() {
    let versions = vec![sv("1.0.0+a"), sv("1.0.0+b")];
    assert_eq!(select_single_version(&versions).unwrap_err(), SelectionError::DifferentVersions);
    let versions = vec![sv("1.0.0-rc.1"), sv("1.0.0-rc.1"), sv("1.0.0-rc.1")];
    assert_eq!(select_single_version(&versions).unwrap().to_string(), "1.0.0-rc.1");
}

#[test]
fn repr_plain_version() {
    let repr = CurrentVersionRepr::try_from(sv("1.2.3")).unwrap();

    assert_eq!(repr.version, "1.2.3");
    assert_eq!(repr.major, 1);
    assert_eq!(repr.minor, 2);
    assert_eq!(repr.patch, 3);
    assert_eq!(repr.pre, None);
    assert_eq!(repr.iteration, None);
    assert_eq!(repr.build, None);
    assert!(!repr.is_prerelease);
}

#[test]
fn repr_prerelease() {
    let repr = CurrentVersionRepr::try_from(sv("1.2.3-beta.7")).unwrap();

    assert_eq!(repr.pre.as_deref(), Some("beta"));
    assert_eq!(repr.iteration, Some(7));
    assert!(repr.is_prerelease);
}

#[test]
fn repr_with_build() {
    let repr = CurrentVersionRepr::try_from(sv("4.5.6-rc.2+sha.1")).unwrap();
    assert_eq!(repr.version, "4.5.6-rc.2+sha.1");
    assert_eq!(repr.build.as_deref(), Some("sha.1"));
}

#[test]
fn json_multiple_packages() {
    let data = CurrentVersionJson {
        packages: vec![
            PackageVersionRepr {
                package: "foo".into(),
                version: CurrentVersionRepr::try_from(sv("1.0.0")).unwrap(),
            },
            PackageVersionRepr {
                package: "bar".into(),
                version: CurrentVersionRepr::try_from(sv("1.0.0-beta.1")).unwrap(),
            },
        ],
    };

    assert_eq!(data.packages.len(), 2);
    assert_eq!(data.packages[0].package, "foo");
    assert_eq!(data.packages[1].version.pre.as_deref(), Some("beta"));
}

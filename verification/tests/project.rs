use echocad::project::{check_format_version, migrate_project, ProjectError, VersionField, CURRENT_FORMAT_VERSION};

#[test]
fn migrate_v0_to_v1() {
    // JSON without format_version should get format_version: 1.
    let input = r#"{"name":"old-project","features":[],"parameters":[],"next_id":1}"#;
    let migrated = migrate_project(input).expect("migration should succeed");
    let parsed: serde_json::Value =
        serde_json::from_str(&migrated).expect("migrated output must be valid JSON");
    assert_eq!(parsed["format_version"].as_u64(), Some(1), "v0 JSON should get format_version: 1");
}

#[test]
fn v1_passthrough() {
    // JSON already at version 1 should pass through unchanged.
    let input = r#"{"format_version":1,"name":"v1-project","features":[],"parameters":[],"next_id":1}"#;
    let migrated = migrate_project(input).expect("migration should succeed");
    let parsed: serde_json::Value =
        serde_json::from_str(&migrated).expect("migrated output must be valid JSON");
    assert_eq!(parsed["format_version"].as_u64(), Some(1));
    assert_eq!(parsed["name"].as_str(), Some("v1-project"));
}

#[test]
fn future_version_rejected() {
    // format_version 99 should be rejected by migrate_project.
    let input = r#"{"format_version":99,"name":"future-project","features":[],"parameters":[],"next_id":1}"#;
    let err = migrate_project(input).expect_err("future version should be rejected");
    match err {
        ProjectError::UnsupportedVersion(msg) => {
            assert!(msg.contains("99"), "error should mention the version number");
        }
        other => panic!("expected UnsupportedVersion, got {other:?}"),
    }
}

#[test]
fn non_numeric_version_rejected() {
    let input = r#"{"format_version":"one","name":"p"}"#;
    match migrate_project(input) {
        Err(ProjectError::UnsupportedVersion(msg)) => assert_eq!(msg, "unknown (non-numeric)"),
        other => panic!("expected UnsupportedVersion, got {other:?}"),
    }
}

#[test]
fn malformed_json_is_a_serde_error() {
    assert!(matches!(migrate_project("{not json"), Err(ProjectError::Serde(_))));
    assert!(matches!(migrate_project(""), Err(ProjectError::Serde(_))));
}

#[test]
fn fractional_or_negative_version_reads_as_zero() {
    let migrated = migrate_project(r#"{"format_version":-3,"name":"n"}"#).expect("reads as 0");
    let parsed: serde_json::Value = serde_json::from_str(&migrated).unwrap();
    assert_eq!(parsed["format_version"].as_u64(), Some(1));
    let migrated = migrate_project(r#"{"format_version":0.5}"#).expect("reads as 0");
    let parsed: serde_json::Value = serde_json::from_str(&migrated).unwrap();
    assert_eq!(parsed["format_version"].as_u64(), Some(1));
}

#[test]
fn non_object_project_passes_through() {
    // Version 0 without an object to put the field into: nothing to inject.
    assert_eq!(migrate_project("[1,2]").expect("nothing to migrate"), "[1,2]");
}

#[test]
fn version_decision_table() {
    assert_eq!(CURRENT_FORMAT_VERSION, 1);
    assert!(matches!(check_format_version(VersionField::Missing), Ok(true)));
    assert!(matches!(check_format_version(VersionField::Number(None)), Ok(true)));
    assert!(matches!(check_format_version(VersionField::Number(Some(0))), Ok(true)));
    assert!(matches!(check_format_version(VersionField::Number(Some(1))), Ok(false)));
    match check_format_version(VersionField::Number(Some(2))) {
        Err(ProjectError::UnsupportedVersion(m)) => assert_eq!(m, "2"),
        other => panic!("expected UnsupportedVersion, got {other:?}"),
    }
    match check_format_version(VersionField::Number(Some(u64::MAX))) {
        Err(ProjectError::UnsupportedVersion(m)) => assert_eq!(m, "18446744073709551615"),
        other => panic!("expected UnsupportedVersion, got {other:?}"),
    }
    match check_format_version(VersionField::NotNumber) {
        Err(ProjectError::UnsupportedVersion(m)) => assert_eq!(m, "unknown (non-numeric)"),
        other => panic!("expected UnsupportedVersion, got {other:?}"),
    }
}

use manifest_tool::manifest::{ChecksumError, ValidatePlugin, ValidatePluginVersion};
use manifest_tool::report::{GuidError, ValidationReport, VersionError};
use manifest_tool::semver::{parse_dotted, FourPartSemver, SemverError, ThreePartSemver};
use manifest_tool::text::trimmed_end;
use manifest_tool::validate::{
    check_checksum, check_guid, check_semver, check_timestamp, check_url, validate,
    validate_manifest,
};

const SUCCESS: &str = "Manifest has passed all validation checks!";

fn version(
    checksum: &str,
    source_url: &str,
    target_abi: &str,
    version: &str,
    timestamp: &str,
) -> ValidatePluginVersion {
    ValidatePluginVersion {
        checksum: checksum.to_string(),
        changelog: "changes".to_string(),
        name: "release".to_string(),
        target_abi: target_abi.to_string(),
        source_url: source_url.to_string(),
        filename: "pkg.zip".to_string(),
        timestamp: timestamp.to_string(),
        version: version.to_string(),
    }
}

fn good_version() -> ValidatePluginVersion {
    version(
        "d41d8cd98f00b204e9800998ecf8427e",
        "https://example.com/pkg.zip",
        "10.8.0",
        "1.0.0.0",
        "2021-01-01T00:00:00Z",
    )
}

fn plugin(guid: &str, name: &str, versions: Vec<ValidatePluginVersion>) -> ValidatePlugin {
    ValidatePlugin {
        category: "General".to_string(),
        guid: guid.to_string(),
        name: name.to_string(),
        overview: "overview".to_string(),
        owner: "owner".to_string(),
        description: "description".to_string(),
        versions,
    }
}

const GOOD_GUID: &str = "550e8400-e29b-41d4-a716-446655440000";

#[test]
fn scenario_everything_wrong() {
    let v = version("abc", "not a url", "1.0", "1.0.0", "not-a-time");
    let m = vec![plugin("not-a-guid", "Bad", vec![v])];
    let text = validate_manifest(&m);
    let lines: Vec<&str> = text.lines().collect();
    assert_eq!(lines.len(), 5);
    assert!(lines[0].starts_with("Plugin Bad failed validation! GUID "));
    assert!(lines[0].ends_with('.'));
    assert_eq!(
        lines[1],
        "Plugin Bad version 1.0.0 failed validation! URL relative URL without a base."
    );
    assert_eq!(
        lines[2],
        "Plugin Bad version 1.0.0 failed validation! Target ABI Expected 3 parts but got 2 Version Expected 4 parts but got 3 "
    );
    assert_eq!(
        lines[3],
        "Plugin Bad version 1.0.0 failed validation! Checksum has 3 characters but 32 are required"
    );
    assert_eq!(
        lines[4],
        "Plugin Bad version 1.0.0 failed validation! timestamp format is invalid"
    );
    let report = validate(&m);
    assert_eq!(report.checksum.as_ref().unwrap().len(), 1);
    assert_eq!(report.semver.as_ref().unwrap().len(), 1);
    let ve: &VersionError = &report.semver.as_ref().unwrap()[0];
    assert_eq!(ve.abi_error, Some(SemverError::InvalidLength(2, 3)));
    assert_eq!(ve.version_error, Some(SemverError::InvalidLength(3, 4)));
}

#[test]
fn scenario_everything_right() {
    let m = vec![plugin(GOOD_GUID, "Good", vec![good_version()])];
    assert_eq!(validate_manifest(&m), SUCCESS);
    assert!(validate(&m).is_none());
}

#[test]
fn empty_manifest_passes() {
    let m: Vec<ValidatePlugin> = Vec::new();
    assert_eq!(validate_manifest(&m), SUCCESS);
}

#[test]
fn plugin_without_versions_checks_only_guid() {
    let m = vec![plugin(GOOD_GUID, "Empty", Vec::new())];
    assert_eq!(validate_manifest(&m), SUCCESS);
}

#[test]
fn guid_forms_accepted() {
    for g in [
        "550e8400e29b41d4a716446655440000",
        "550E8400-E29B-41D4-A716-446655440000",
        "{550e8400-e29b-41d4-a716-446655440000}",
        "urn:uuid:550e8400-e29b-41d4-a716-446655440000",
        "URN:UUID:550e8400-e29b-41d4-a716-446655440000",
    ] {
        let p = plugin(g, "P", Vec::new());
        assert!(check_guid(&p).is_empty(), "{}", g);
    }
}

#[test]
fn guid_forms_refused() {
    for g in [
        "",
        "not-a-guid",
        "550e8400-e29b-41d4-a716-44665544000g",
        "550e8400e-29b-41d4-a716-446655440000",
        "550e8400-e29b-41d4-a716-4466554400001",
        "{550e8400-e29b-41d4-a716-446655440000",
    ] {
        let p = plugin(g, "P", Vec::new());
        let r: Vec<GuidError> = check_guid(&p);
        assert_eq!(r.len(), 1, "{}", g);
        assert_eq!(r[0].plugin_name, "P");
        assert!(!r[0].error.is_empty());
        assert_ne!(r[0].error, g);
    }
}

#[test]
fn three_part_versions() {
    let v = ThreePartSemver::try_from("10.8.0".to_string()).unwrap();
    assert_eq!((v.major, v.minor, v.patch), (10, 8, 0));
    assert_eq!(
        ThreePartSemver::try_from("1.0".to_string()),
        Err(SemverError::InvalidLength(2, 3))
    );
    assert_eq!(
        ThreePartSemver::try_from("1.0.0.0".to_string()),
        Err(SemverError::InvalidLength(4, 3))
    );
    assert_eq!(ThreePartSemver::try_from("1.a.0".to_string()), Err(SemverError::NotNumeric));
    assert_eq!(ThreePartSemver::try_from("1.2a.0".to_string()), Err(SemverError::NotNumeric));
    assert_eq!(ThreePartSemver::try_from("1..0".to_string()), Err(SemverError::NotNumeric));
    assert_eq!(ThreePartSemver::try_from("-1.0.0".to_string()), Err(SemverError::NotNumeric));
    assert_eq!(
        ThreePartSemver::try_from("".to_string()),
        Err(SemverError::InvalidLength(1, 3))
    );
    assert_eq!(
        ThreePartSemver::try_from("99999999999999999999999.0.0".to_string()),
        Err(SemverError::TooLarge)
    );
}

#[test]
fn four_part_versions() {
    let v = FourPartSemver::try_from("1.2.3.4".to_string()).unwrap();
    assert_eq!((v.major, v.minor, v.patch, v.build), (1, 2, 3, 4));
    assert_eq!(
        FourPartSemver::try_from("1.0.0".to_string()),
        Err(SemverError::InvalidLength(3, 4))
    );
    assert_eq!(FourPartSemver::try_from("1.0.0.x".to_string()), Err(SemverError::NotNumeric));
    let max = format!("{}.0.0.0", usize::MAX);
    assert_eq!(FourPartSemver::try_from(max).unwrap().major, usize::MAX);
}

#[test]
fn dotted_parse_values() {
    assert_eq!(parse_dotted("007.12.3", 3), Ok(vec![7, 12, 3]));
    assert_eq!(parse_dotted("5", 1), Ok(vec![5]));
    assert_eq!(parse_dotted("1.2.", 3), Err(SemverError::NotNumeric));
}

#[test]
fn semver_messages() {
    assert_eq!(SemverError::InvalidLength(2, 3).message(), "Expected 3 parts but got 2");
    assert_eq!(SemverError::InvalidLength(12, 4).message(), "Expected 4 parts but got 12");
    assert_eq!(SemverError::NotNumeric.message(), "Got a version part that was not numeric");
    assert_eq!(SemverError::TooLarge.message(), "Got a version part that was too large");
}

#[test]
fn version_check_separates_fields() {
    let name = "P".to_string();
    let only_abi = version("d41d8cd98f00b204e9800998ecf8427e", "https://a.b", "1.x.0", "1.0.0.0", "2021-01-01T00:00:00Z");
    let r = check_semver(&name, &only_abi);
    assert_eq!(r.len(), 1);
    assert_eq!(r[0].abi_error, Some(SemverError::NotNumeric));
    assert_eq!(r[0].version_error, None);
    assert_eq!(r[0].plugin_version, "1.0.0.0");
    let only_release = version("d41d8cd98f00b204e9800998ecf8427e", "https://a.b", "1.0.0", "1.0.0", "2021-01-01T00:00:00Z");
    let r = check_semver(&name, &only_release);
    assert_eq!(r.len(), 1);
    assert_eq!(r[0].abi_error, None);
    assert_eq!(r[0].version_error, Some(SemverError::InvalidLength(3, 4)));
    assert!(check_semver(&name, &good_version()).is_empty());
}

#[test]
fn checksum_faults_are_independent() {
    let name = "P".to_string();
    let mut v = good_version();
    assert!(check_checksum(&name, &v).is_empty());
    v.checksum = "abc".to_string();
    let r = check_checksum(&name, &v);
    assert_eq!(r.len(), 1);
    assert_eq!(r[0].error, ChecksumError::InvalidLength(3));
    v.checksum = "d41d8cd98f00b204e9800998ecf8427g".to_string();
    let r = check_checksum(&name, &v);
    assert_eq!(r.len(), 1);
    assert_eq!(r[0].error, ChecksumError::InvalidCharacters);
    v.checksum = "xyz".to_string();
    let r = check_checksum(&name, &v);
    assert_eq!(r.len(), 2);
    assert_eq!(r[0].error, ChecksumError::InvalidLength(3));
    assert_eq!(r[1].error, ChecksumError::InvalidCharacters);
    v.checksum = "D41D8CD98F00B204E9800998ECF8427E".to_string();
    assert!(check_checksum(&name, &v).is_empty());
    v.checksum = String::new();
    let r = check_checksum(&name, &v);
    assert_eq!(r.len(), 1);
    assert_eq!(r[0].error, ChecksumError::InvalidLength(0));
    // characters, not bytes, are counted
    v.checksum = "é".repeat(32);
    let r = check_checksum(&name, &v);
    assert_eq!(r.len(), 1);
    assert_eq!(r[0].error, ChecksumError::InvalidCharacters);
}

#[test]
fn url_check() {
    let name = "P".to_string();
    let mut v = good_version();
    assert!(check_url(&name, &v).is_empty());
    v.source_url = "/relative/path".to_string();
    let r = check_url(&name, &v);
    assert_eq!(r.len(), 1);
    assert_eq!(r[0].error, "relative URL without a base");
    v.source_url = "http://".to_string();
    assert_eq!(check_url(&name, &v).len(), 1);
}

#[test]
fn timestamp_check() {
    let name = "P".to_string();
    let mut v = good_version();
    assert!(check_timestamp(&name, &v).is_empty());
    v.timestamp = "2021-01-01 00:00:00".to_string();
    assert!(check_timestamp(&name, &v).is_empty());
    v.timestamp = "2021-13-01T00:00:00Z".to_string();
    let r = check_timestamp(&name, &v);
    assert_eq!(r.len(), 1);
    assert_eq!(r[0].error, "numeric component is out of range");
    v.timestamp = "2021-01-32T00:00:00Z".to_string();
    assert_eq!(check_timestamp(&name, &v).len(), 1);
    v.timestamp = "2021-01-01T25:00:00Z".to_string();
    assert_eq!(check_timestamp(&name, &v).len(), 1);
}

#[test]
fn order_follows_manifest() {
    let bad_url = |u: &str| {
        let mut v = good_version();
        v.source_url = u.to_string();
        v.version = u.to_string();
        v
    };
    let m = vec![
        plugin(GOOD_GUID, "A", vec![bad_url("a1"), good_version(), bad_url("a2")]),
        plugin(GOOD_GUID, "Clean", vec![good_version()]),
        plugin(GOOD_GUID, "B", vec![bad_url("b1")]),
    ];
    let report = validate(&m);
    let urls = report.url.as_ref().unwrap();
    let seen: Vec<(&str, &str)> =
        urls.iter().map(|e| (e.plugin_name.as_str(), e.plugin_version.as_str())).collect();
    assert_eq!(seen, vec![("A", "a1"), ("A", "a2"), ("B", "b1")]);
    assert!(report.guid.is_none());
    assert!(report.checksum.is_none());
    assert!(report.timestamp.is_none());
}

#[test]
fn categories_render_in_fixed_order() {
    let mut v = good_version();
    v.timestamp = "bad".to_string();
    v.checksum = "0".repeat(31);
    let m = vec![plugin("bad", "Z", vec![v])];
    let text = validate_manifest(&m);
    let lines: Vec<&str> = text.lines().collect();
    assert_eq!(lines.len(), 3);
    assert!(lines[0].contains("GUID"));
    assert_eq!(
        lines[1],
        "Plugin Z version 1.0.0.0 failed validation! Checksum has 31 characters but 32 are required"
    );
    assert_eq!(lines[2], "Plugin Z version 1.0.0.0 failed validation! timestamp format is invalid");
}

#[test]
fn validating_twice_gives_same_text() {
    let v = version("abc", "not a url", "1.0", "1.0.0", "not-a-time");
    let m = vec![plugin("not-a-guid", "Bad", vec![v]), plugin(GOOD_GUID, "Good", vec![good_version()])];
    assert_eq!(validate_manifest(&m), validate_manifest(&m));
}

#[test]
fn render_of_clean_report() {
    let r = ValidationReport { guid: None, url: None, semver: None, checksum: None, timestamp: None };
    assert!(r.is_none());
    assert_eq!(r.render(), SUCCESS);
}

#[test]
fn render_trims_trailing_space() {
    let r = ValidationReport {
        guid: None,
        url: None,
        semver: Some(vec![VersionError {
            plugin_name: "P".to_string(),
            plugin_version: "v".to_string(),
            abi_error: Some(SemverError::NotNumeric),
            version_error: None,
        }]),
        checksum: None,
        timestamp: None,
    };
    assert_eq!(
        r.render(),
        "Plugin P version v failed validation! Target ABI Got a version part that was not numeric"
    );
}

#[test]
fn trim_end_of_text() {
    assert_eq!(trimmed_end("ab \n\t\u{3000}"), "ab");
    assert_eq!(trimmed_end(" a b"), " a b");
    assert_eq!(trimmed_end("   "), "");
}

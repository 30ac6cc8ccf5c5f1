//! Formats and versions of network data documents, and small text functions.

use afterburn_kubevirt::document::{
    data_format, data_version, parse_network_data, DataFormat, DataVersion,
};
use afterburn_kubevirt::error::Error;
use afterburn_kubevirt::text::{decimal_text, join};

#[test]
fn first_visible_character_decides_format() {
    assert_eq!(data_format("{}"), DataFormat::Json);
    assert_eq!(data_format(" \n\t[1]"), DataFormat::Json);
    assert_eq!(data_format("\u{3000}{"), DataFormat::Json);
    assert_eq!(data_format("version: {}"), DataFormat::Yaml);
    assert_eq!(data_format("\"{}\""), DataFormat::Yaml);
    assert_eq!(data_format(""), DataFormat::Yaml);
    assert_eq!(data_format(" \n "), DataFormat::Yaml);
}

#[test]
fn versions_one_and_two_are_supported() {
    assert_eq!(data_version(None).unwrap(), DataVersion::V1);
    assert_eq!(data_version(Some(1)).unwrap(), DataVersion::V1);
    assert_eq!(data_version(Some(2)).unwrap(), DataVersion::V2);
    assert!(matches!(data_version(Some(0)), Err(Error::UnsupportedVersion(0))));
    let error = data_version(Some(3)).unwrap_err();
    assert!(matches!(error, Error::UnsupportedVersion(3)));
    assert_eq!(error.message(), "unsupported network data version: 3");
}

#[test]
fn whole_version_number_counts() {
    assert!(matches!(
        data_version(Some(0x1_0000_0001)),
        Err(Error::UnsupportedVersion(0x1_0000_0001))
    ));
    assert!(matches!(data_version(Some(0xffff_ffff_0000_0002)), Err(Error::UnsupportedVersion(_))));
    assert_eq!(
        data_version(Some(u64::MAX)).unwrap_err().message(),
        "unsupported network data version: 18446744073709551615"
    );
    let error = parse_network_data(r#"{"version":4294967297,"config":[]}"#).unwrap_err();
    assert!(matches!(error, Error::UnsupportedVersion(4294967297)));
    assert_eq!(error.message(), "unsupported network data version: 4294967297");
    let error = parse_network_data("version: 4294967298\nethernets: {}\n").unwrap_err();
    assert!(matches!(error, Error::UnsupportedVersion(4294967298)));
}

#[test]
fn version_is_read_from_the_document() {
    let version = |content: &str| parse_network_data(content).unwrap().version;
    assert_eq!(version(r#"{"version": 2, "ethernets": {}}"#), DataVersion::V2);
    assert_eq!(version(r#"{"version": 1, "config": []}"#), DataVersion::V1);
    assert_eq!(version(r#"{"config": []}"#), DataVersion::V1);
    assert_eq!(version("version: 2\nethernets: {}\n"), DataVersion::V2);
    assert_eq!(version("config: []\n"), DataVersion::V1);
    // What is no unsigned number states no version.
    assert_eq!(version(r#"{"version": "2"}"#), DataVersion::V1);
    assert_eq!(version(r#"{"version": 2.0}"#), DataVersion::V1);
    assert_eq!(version(r#"{"version": -2}"#), DataVersion::V1);
    assert_eq!(version(r#"{"version": null}"#), DataVersion::V1);
    assert_eq!(version("[1, 2]"), DataVersion::V1);
    assert_eq!(version("plain text"), DataVersion::V1);
    assert_eq!(version(r#"{"inner": {"version": 2}}"#), DataVersion::V1);
    let error = parse_network_data(r#"{"version": 7}"#).unwrap_err();
    assert!(matches!(error, Error::UnsupportedVersion(7)));
}

#[test]
fn document_keeps_its_contents() {
    let document = parse_network_data("version: 2\nethernets:\n  eth0:\n    dhcp4: true\n").unwrap();
    let expect: serde_json::Value =
        serde_json::from_str(r#"{"version": 2, "ethernets": {"eth0": {"dhcp4": true}}}"#).unwrap();
    assert_eq!(document.value, expect);
    let document =
        parse_network_data(r#" {"version": 2, "ethernets": {"eth0": {"dhcp4": true}}} "#).unwrap();
    assert_eq!(document.value, expect);
}

#[test]
fn unreadable_json_is_refused() {
    let content = "{\"version\": }";
    let error = parse_network_data(content).unwrap_err();
    assert!(matches!(error, Error::InvalidJson(_)));
    assert_eq!(error.message(), "failed to parse JSON network data");
    let cause = serde_json::from_str::<serde_json::Value>(content).unwrap_err().to_string();
    assert_eq!(error.cause(), Some(cause));
}

#[test]
fn unreadable_yaml_is_refused() {
    let content = "version: [1";
    let error = parse_network_data(content).unwrap_err();
    assert!(matches!(error, Error::InvalidYaml(_)));
    assert_eq!(error.message(), "failed to parse YAML network data");
    let cause = serde_yaml::from_str::<serde_yaml::Value>(content).unwrap_err().to_string();
    assert_eq!(error.cause(), Some(cause));
}

#[test]
fn yaml_without_json_counterpart_is_refused() {
    let error = parse_network_data("? [a, b]\n: 1\n").unwrap_err();
    assert!(matches!(error, Error::YamlWithoutJson(_)));
    assert_eq!(error.message(), "failed to convert YAML to JSON for processing");
    assert_eq!(error.cause(), Some("key must be a string".to_string()));
}

#[test]
fn numbers_are_written_in_decimal() {
    assert_eq!(decimal_text(0), "0");
    assert_eq!(decimal_text(7), "7");
    assert_eq!(decimal_text(10), "10");
    assert_eq!(decimal_text(1_234_567_890), "1234567890");
    assert_eq!(decimal_text(u64::MAX), "18446744073709551615");
}

#[test]
fn texts_are_joined() {
    let texts = |parts: &[&str]| parts.iter().map(|s| s.to_string()).collect::<Vec<String>>();
    assert_eq!(join(&texts(&[]), ", "), "");
    assert_eq!(join(&texts(&["a"]), ", "), "a");
    assert_eq!(join(&texts(&["a", "", "b"]), ", "), "a, , b");
}

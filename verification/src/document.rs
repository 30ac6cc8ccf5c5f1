//! Network data documents before their contents are read: which format a document is in and
//! which version it has.

use crate::error::{Error, ErrorModel};
use crate::text;
use vstd::prelude::*;

verus! {

/// The format that a document is written in.
#[derive(Clone, Copy, Debug, PartialEq, Eq, Structural)]
pub enum DataFormat {
    Json,
    Yaml,
}

/// The version of network data, and with it the structure that it is read as.
#[derive(Clone, Copy, Debug, PartialEq, Eq, Structural)]
pub enum DataVersion {
    /// A flat list of entries of several types.
    V1,
    /// A structured form with a section for ethernets.
    V2,
}

/// A network data document of a known version.
#[derive(Debug)]
pub struct NetworkDocument {
    pub version: DataVersion,
    pub value: serde_json::Value,
}

/// A JSON value of `serde_json`.
#[verifier::external_type_specification]
#[verifier::external_body]
pub struct ExJsonValue(serde_json::Value);

/// A YAML value of `serde_yaml`.
#[verifier::external_type_specification]
#[verifier::external_body]
pub struct ExYamlValue(serde_yaml::Value);

/// What a JSON value holds, as the compact text that `serde_json` writes for it.
pub uninterp spec fn json_text(value: serde_json::Value) -> Seq<char>;

/// What a YAML value holds, as a text.
pub uninterp spec fn yaml_text(value: serde_yaml::Value) -> Seq<char>;

/// What the JSON value holds that `serde_json::from_str` reads from a text, or the message of
/// its error.
pub uninterp spec fn json_from_str(text: Seq<char>) -> Result<Seq<char>, Seq<char>>;

/// What the YAML value holds that `serde_yaml::from_str` reads from a text, or the message of
/// its error.
pub uninterp spec fn yaml_from_str(text: Seq<char>) -> Result<Seq<char>, Seq<char>>;

/// What the JSON value holds that `serde_json::to_value` makes of a YAML value with the given
/// contents, or the message of its error.
pub uninterp spec fn json_from_yaml(yaml: Seq<char>) -> Result<Seq<char>, Seq<char>>;

/// What the member holds that `serde_json::Value::get` finds under a key in a JSON value with
/// the given contents.
pub uninterp spec fn json_member(json: Seq<char>, key: Seq<char>) -> Option<Seq<char>>;

/// `serde_json::from_str` for a JSON value. What it reads depends on the text alone.
#[verifier::external_body]
fn parse_json(text: &str) -> (result: Result<serde_json::Value, String>)
    ensures
        match result {
            Ok(value) => json_from_str(text@) == Ok::<Seq<char>, Seq<char>>(json_text(value)),
            Err(message) => json_from_str(text@) == Err::<Seq<char>, Seq<char>>(message@),
        },
{
    match serde_json::from_str(text) {
        Ok(value) => Ok(value),
        Err(error) => Err(error.to_string()),
    }
}

/// `serde_yaml::from_str` for a YAML value. What it reads depends on the text alone.
#[verifier::external_body]
fn parse_yaml(text: &str) -> (result: Result<serde_yaml::Value, String>)
    ensures
        match result {
            Ok(value) => yaml_from_str(text@) == Ok::<Seq<char>, Seq<char>>(yaml_text(value)),
            Err(message) => yaml_from_str(text@) == Err::<Seq<char>, Seq<char>>(message@),
        },
{
    match serde_yaml::from_str(text) {
        Ok(value) => Ok(value),
        Err(error) => Err(error.to_string()),
    }
}

/// `serde_json::to_value` of a YAML value. What it makes depends on the contents of the YAML
/// value alone.
#[verifier::external_body]
fn yaml_to_json(yaml: serde_yaml::Value) -> (result: Result<serde_json::Value, String>)
    ensures
        match result {
            Ok(value) => json_from_yaml(yaml_text(yaml)) == Ok::<Seq<char>, Seq<char>>(
                json_text(value),
            ),
            Err(message) => json_from_yaml(yaml_text(yaml)) == Err::<Seq<char>, Seq<char>>(
                message@,
            ),
        },
{
    match serde_json::to_value(yaml) {
        Ok(value) => Ok(value),
        Err(error) => Err(error.to_string()),
    }
}

/// `serde_json::Value::get` with a string as the key. What it finds depends on the contents of
/// the value and on the key alone.
#[verifier::external_body]
fn get_member<'a>(value: &'a serde_json::Value, key: &str) -> (result: Option<
    &'a serde_json::Value,
>)
    ensures
        match result {
            Some(member) => json_member(json_text(*value), key@) == Some(json_text(*member)),
            None => json_member(json_text(*value), key@) is None,
        },
{
    value.get(key)
}

/// `serde_json::Value::as_u64`: the number that the value is, if it is an integer from 0 to
/// the largest `u64`, which is a value whose compact text is that number in decimal notation.
#[verifier::external_body]
fn as_number(value: &serde_json::Value) -> (result: Option<u64>)
    ensures
        match result {
            Some(number) => json_text(*value) == text::decimal(number as nat),
            None => forall|number: u64| json_text(*value) != #[trigger] text::decimal(number as nat),
        },
{
    value.as_u64()
}

/// Whether a document is JSON: it starts, after blanks, with a brace or a square bracket.
pub open spec fn looks_like_json(content: Seq<char>) -> bool {
    let visible = text::trimmed(content);
    visible.len() > 0 && (visible.first() == '{' || visible.first() == '[')
}

/// The format of a document: JSON if it looks like JSON, and YAML otherwise.
pub open spec fn format_of(content: Seq<char>) -> DataFormat {
    if looks_like_json(content) {
        DataFormat::Json
    } else {
        DataFormat::Yaml
    }
}

/// What a document holds, as JSON.
pub open spec fn document_json(content: Seq<char>) -> Result<Seq<char>, ErrorModel> {
    match format_of(content) {
        DataFormat::Json => match json_from_str(content) {
            Ok(json) => Ok(json),
            Err(message) => Err(ErrorModel::InvalidJson(message)),
        },
        DataFormat::Yaml => match yaml_from_str(content) {
            Err(message) => Err(ErrorModel::InvalidYaml(message)),
            Ok(yaml) => match json_from_yaml(yaml) {
                Ok(json) => Ok(json),
                Err(message) => Err(ErrorModel::YamlWithoutJson(message)),
            },
        },
    }
}

/// The number that a JSON text is, if it is one that a `u64` can hold.
pub open spec fn number_of(json: Seq<char>) -> Option<u64> {
    if exists|number: u64| json == #[trigger] text::decimal(number as nat) {
        Some(choose|number: u64| json == #[trigger] text::decimal(number as nat))
    } else {
        None
    }
}

/// The version number that a document states at its top level, if it states one.
pub open spec fn stated_version(json: Seq<char>) -> Option<u64> {
    match json_member(json, "version"@) {
        Some(member) => number_of(member),
        None => None,
    }
}

/// The version of a document that states the given number. A document that states none has
/// version 1.
pub open spec fn version_of(stated: Option<u64>) -> Result<DataVersion, ErrorModel> {
    match stated {
        None => Ok(DataVersion::V1),
        Some(number) => if number == 1 {
            Ok(DataVersion::V1)
        } else if number == 2 {
            Ok(DataVersion::V2)
        } else {
            Err(ErrorModel::UnsupportedVersion(number))
        },
    }
}

/// The version of a document and what it holds, as JSON.
pub open spec fn versioned_json(content: Seq<char>) -> Result<
    (DataVersion, Seq<char>),
    ErrorModel,
> {
    match document_json(content) {
        Err(error) => Err(error),
        Ok(json) => match version_of(stated_version(json)) {
            Ok(version) => Ok((version, json)),
            Err(error) => Err(error),
        },
    }
}

/// The format of a document.
pub fn data_format(content: &str) -> (result: DataFormat)
    ensures
        result == format_of(content@),
{
    let visible = text::trim(content);
    if visible.is_empty() {
        return DataFormat::Yaml;
    }
    let first = visible.get_char(0);
    if first == '{' || first == '[' {
        DataFormat::Json
    } else {
        DataFormat::Yaml
    }
}

/// The version of a document that states the given number.
pub fn data_version(stated: Option<u64>) -> (result: Result<DataVersion, Error>)
    ensures
        match result {
            Ok(version) => version_of(stated) == Ok::<DataVersion, ErrorModel>(version),
            Err(error) => version_of(stated) == Err::<DataVersion, ErrorModel>(error@),
        },
{
    match stated.unwrap_or(1) {
        1 => Ok(DataVersion::V1),
        2 => Ok(DataVersion::V2),
        other => Err(Error::UnsupportedVersion(other)),
    }
}

fn find_stated_version(value: &serde_json::Value) -> (result: Option<u64>)
    ensures
        result == stated_version(json_text(*value)),
{
    match get_member(value, "version") {
        Some(member) => {
            let number = as_number(member);
            proof {
                if number is Some {
                    let chosen = number_of(json_text(*member))->Some_0;
                    text::decimal_is_injective(number->Some_0 as nat, chosen as nat);
                }
            }
            number
        },
        None => None,
    }
}

/// Reads a document of either format as a JSON value and detects its version.
pub fn parse_network_data(content: &str) -> (result: Result<NetworkDocument, Error>)
    ensures
        match result {
            Ok(document) => versioned_json(content@) == Ok::<(DataVersion, Seq<char>), ErrorModel>(
                (document.version, json_text(document.value)),
            ),
            Err(error) => versioned_json(content@) == Err::<(DataVersion, Seq<char>), ErrorModel>(
                error@,
            ),
        },
{
    let value = match data_format(content) {
        DataFormat::Json => match parse_json(content) {
            Ok(value) => value,
            Err(message) => return Err(Error::InvalidJson(message)),
        },
        DataFormat::Yaml => match parse_yaml(content) {
            Err(message) => return Err(Error::InvalidYaml(message)),
            Ok(yaml) => match yaml_to_json(yaml) {
                Ok(value) => value,
                Err(message) => return Err(Error::YamlWithoutJson(message)),
            },
        },
    };
    let version = data_version(find_stated_version(&value))?;
    Ok(NetworkDocument { version, value })
}

} // verus!

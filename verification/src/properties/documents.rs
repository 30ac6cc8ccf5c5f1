//! What a network data document is read as.

use crate::document;
use crate::document::DataVersion;
use crate::error::ErrorModel;
use crate::text;
use vstd::prelude::*;

verus! {

/// Whether a brace or a square bracket comes first in a text, after blanks.
pub open spec fn starts_like_json(content: Seq<char>) -> bool {
    exists|i: int|
        {
            &&& 0 <= i < content.len()
            &&& (#[trigger] content[i] == '{' || content[i] == '[')
            &&& forall|j: int| 0 <= j < i ==> text::is_blank(#[trigger] content[j])
        }
}

/// A document that starts like JSON holds what `serde_json` reads from all of it, and any other
/// the JSON counterpart of what `serde_yaml` reads from all of it. What these refuse is refused,
/// with their reason.
pub proof fn documents_are_read_by_their_start(content: Seq<char>)
    ensures
        starts_like_json(content) ==> match document::json_from_str(content) {
            Ok(json) => document::document_json(content) == Ok::<Seq<char>, ErrorModel>(json),
            Err(message) => document::versioned_json(content) == Err::<
                (DataVersion, Seq<char>),
                ErrorModel,
            >(ErrorModel::InvalidJson(message)),
        },
        !starts_like_json(content) ==> match document::yaml_from_str(content) {
            Ok(yaml) => match document::json_from_yaml(yaml) {
                Ok(json) => document::document_json(content) == Ok::<Seq<char>, ErrorModel>(json),
                Err(message) => document::versioned_json(content) == Err::<
                    (DataVersion, Seq<char>),
                    ErrorModel,
                >(ErrorModel::YamlWithoutJson(message)),
            },
            Err(message) => document::versioned_json(content) == Err::<
                (DataVersion, Seq<char>),
                ErrorModel,
            >(ErrorModel::InvalidYaml(message)),
        },
{
    super::first_visible_character_decides(content);
}

/// The version of a document is the number that its member `version` is: 1 and 2 are accepted,
/// with all that the document holds, and any other number is refused.
pub proof fn stated_version_counts(content: Seq<char>, json: Seq<char>, number: u64)
    requires
        document::document_json(content) == Ok::<Seq<char>, ErrorModel>(json),
        document::json_member(json, "version"@) == Some(text::decimal(number as nat)),
    ensures
        document::versioned_json(content) == (if number == 1 {
            Ok::<(DataVersion, Seq<char>), ErrorModel>((DataVersion::V1, json))
        } else if number == 2 {
            Ok((DataVersion::V2, json))
        } else {
            Err(ErrorModel::UnsupportedVersion(number))
        }),
{
    let member = text::decimal(number as nat);
    assert(exists|n: u64| member == #[trigger] text::decimal(n as nat));
    let found = choose|n: u64| member == #[trigger] text::decimal(n as nat);
    text::decimal_is_injective(number as nat, found as nat);
}

/// A document without a member `version`, or with one that is no number, has version 1.
pub proof fn unstated_version_is_version_1(content: Seq<char>, json: Seq<char>)
    requires
        document::document_json(content) == Ok::<Seq<char>, ErrorModel>(json),
        document::json_member(json, "version"@) matches Some(member) ==> forall|number: u64|
            member != #[trigger] text::decimal(number as nat),
    ensures
        document::versioned_json(content) == Ok::<(DataVersion, Seq<char>), ErrorModel>(
            (DataVersion::V1, json),
        ),
{
}

/// The version of a number that was stated, or of none.
pub proof fn stated_numbers_have_versions(number: u64)
    ensures
        document::version_of(None) == Ok::<DataVersion, ErrorModel>(DataVersion::V1),
        document::version_of(Some(number)) is Ok <==> number == 1 || number == 2,
        document::version_of(Some(number)) == Ok::<DataVersion, ErrorModel>(DataVersion::V1)
            <==> number == 1,
        document::version_of(Some(number)) matches Err(reason) ==> reason
            == ErrorModel::UnsupportedVersion(number),
{
}

} // verus!

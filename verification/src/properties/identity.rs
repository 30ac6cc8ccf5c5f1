//! What the metadata of an instance says of it: attributes, hostname and SSH keys.

use crate::address;
use crate::address::IpNetwork;
use crate::error;
use crate::error::ErrorModel;
use crate::metadata;
use crate::metadata::{MetaDataJSON, PublicKey, PublicKeyModel};
use crate::network::InterfaceModel;
use crate::provider;
use crate::provider::KubeVirtProvider;
use crate::text;
use vstd::prelude::*;

verus! {

/// The hostname is the one of the metadata, character for character, and there is none exactly
/// if that is empty. It is also the hostname among the attributes, whenever there are any.
pub proof fn hostname_is_that_of_the_metadata(metadata: MetaDataJSON)
    ensures
        metadata.hostname@.len() == 0 <==> metadata.visible_hostname() is None,
        metadata.hostname@.len() > 0 ==> metadata.visible_hostname() == Some(metadata.hostname@),
        metadata.attributes() matches Ok(attributes) ==> {
            &&& attributes.contains_key("KUBEVIRT_HOSTNAME"@)
            &&& metadata.visible_hostname() == Some(attributes["KUBEVIRT_HOSTNAME"@])
        },
{
    super::attributes_identify_the_instance(metadata);
}

/// Nothing but the hostname decides the hostname.
pub proof fn hostname_depends_on_hostname(a: MetaDataJSON, b: MetaDataJSON)
    ensures
        a.hostname@ == b.hostname@ <==> a.visible_hostname() == b.visible_hostname(),
{
    if a.hostname@.len() == 0 && b.hostname@.len() == 0 {
        assert(a.hostname@ =~= b.hostname@);
    }
}

/// Metadata without an instance ID is refused for it, and otherwise metadata without a hostname
/// for that.
pub proof fn missing_identity_is_reported(metadata: MetaDataJSON)
    ensures
        metadata.instance_id@.len() == 0 ==> metadata.attributes() == Err::<
            Map<Seq<char>, Seq<char>>,
            ErrorModel,
        >(ErrorModel::EmptyInstanceId),
        metadata.instance_id@.len() > 0 && metadata.hostname@.len() == 0
            ==> metadata.attributes() == Err::<Map<Seq<char>, Seq<char>>, ErrorModel>(
            ErrorModel::EmptyHostname,
        ),
{
}

/// Whether a map has under a key what another has there, or neither has anything.
pub open spec fn same_at(
    a: Map<Seq<char>, Seq<char>>,
    b: Map<Seq<char>, Seq<char>>,
    key: Seq<char>,
) -> bool {
    &&& a.contains_key(key) <==> b.contains_key(key)
    &&& a.contains_key(key) ==> a[key] == b[key]
}

proof fn addresses_are_stored_under(
    attributes: Map<Seq<char>, Seq<char>>,
    networks: Seq<IpNetwork>,
    n: int,
)
    requires
        0 <= n < networks.len(),
        forall|i: int|
            n < i < networks.len() ==> ((#[trigger] networks[i]) is V6) != (networks[n] is V6),
    ensures
        ({
            let stored = provider::with_addresses(attributes, networks);
            match networks[n] {
                IpNetwork::V4 { ip, .. } => stored.contains_key("KUBEVIRT_IPV4"@)
                    && stored["KUBEVIRT_IPV4"@] == address::dotted_decimal(ip),
                IpNetwork::V6 { ip, .. } => stored.contains_key("KUBEVIRT_IPV6"@)
                    && stored["KUBEVIRT_IPV6"@] == address::ipv6_text(ip),
            }
        }),
    decreases networks.len(),
{
    super::attribute_names_differ();
    if n < networks.len() - 1 {
        let before = networks.drop_last();
        assert(networks[networks.len() - 1] == networks.last());
        assert(before[n] == networks[n]);
        assert forall|i: int| n < i < before.len() implies ((#[trigger] before[i]) is V6) != (
        before[n] is V6) by {
            assert(before[i] == networks[i]);
        }
        addresses_are_stored_under(attributes, before, n);
    }
}

proof fn nothing_else_is_stored(
    attributes: Map<Seq<char>, Seq<char>>,
    networks: Seq<IpNetwork>,
    key: Seq<char>,
)
    requires
        key == "KUBEVIRT_IPV4"@ ==> forall|i: int|
            0 <= i < networks.len() ==> (#[trigger] networks[i]) is V6,
        key == "KUBEVIRT_IPV6"@ ==> forall|i: int|
            0 <= i < networks.len() ==> (#[trigger] networks[i]) is V4,
    ensures
        same_at(provider::with_addresses(attributes, networks), attributes, key),
    decreases networks.len(),
{
    super::attribute_names_differ();
    if networks.len() > 0 {
        let before = networks.drop_last();
        assert(networks[networks.len() - 1] == networks.last());
        assert(forall|i: int| 0 <= i < before.len() ==> #[trigger] before[i] == networks[i]);
        nothing_else_is_stored(attributes, before, key);
    }
}

/// The last address of a family of the first interface is stored for that family, as text.
pub proof fn last_address_of_first_interface_is_stored(
    attributes: Map<Seq<char>, Seq<char>>,
    interfaces: Seq<InterfaceModel>,
    n: int,
)
    requires
        interfaces.len() > 0,
        0 <= n < interfaces[0].ip_addresses.len(),
        forall|i: int|
            n < i < interfaces[0].ip_addresses.len() ==> ((
            #[trigger] interfaces[0].ip_addresses[i]) is V6) != (interfaces[0].ip_addresses[n]
                is V6),
    ensures
        ({
            let stored = provider::with_first_interface(attributes, interfaces);
            match interfaces[0].ip_addresses[n] {
                IpNetwork::V4 { ip, .. } => stored.contains_key("KUBEVIRT_IPV4"@)
                    && stored["KUBEVIRT_IPV4"@] == address::dotted_decimal(ip),
                IpNetwork::V6 { ip, .. } => stored.contains_key("KUBEVIRT_IPV6"@)
                    && stored["KUBEVIRT_IPV6"@] == address::ipv6_text(ip),
            }
        }),
{
    addresses_are_stored_under(attributes, interfaces[0].ip_addresses, n);
}

/// Other attributes stay as they are, and so does the one for a family of which the first
/// interface has no address, whatever other interfaces there are.
pub proof fn first_interface_changes_its_families_alone(
    attributes: Map<Seq<char>, Seq<char>>,
    interfaces: Seq<InterfaceModel>,
    key: Seq<char>,
)
    requires
        key == "KUBEVIRT_IPV4"@ ==> (interfaces.len() > 0 ==> forall|i: int|
            0 <= i < interfaces[0].ip_addresses.len() ==> (
            #[trigger] interfaces[0].ip_addresses[i]) is V6),
        key == "KUBEVIRT_IPV6"@ ==> (interfaces.len() > 0 ==> forall|i: int|
            0 <= i < interfaces[0].ip_addresses.len() ==> (
            #[trigger] interfaces[0].ip_addresses[i]) is V4),
    ensures
        same_at(provider::with_first_interface(attributes, interfaces), attributes, key),
{
    if interfaces.len() > 0 {
        nothing_else_is_stored(attributes, interfaces[0].ip_addresses, key);
    }
}

/// The attributes depend on the first interface alone.
pub proof fn attributes_depend_on_first_interface(
    attributes: Map<Seq<char>, Seq<char>>,
    first: InterfaceModel,
    a: Seq<InterfaceModel>,
    b: Seq<InterfaceModel>,
)
    ensures
        provider::with_first_interface(attributes, seq![first] + a)
            == provider::with_first_interface(attributes, seq![first] + b),
        provider::with_first_interface(attributes, Seq::empty()) == attributes,
{
    assert((seq![first] + a).first() == first);
    assert((seq![first] + b).first() == first);
}

/// A text is read as the key that `openssh_keys` reads, of whatever type, and is refused exactly
/// if that refuses it, with its reason.
pub proof fn keys_are_read_as_they_are(text: Seq<char>)
    ensures
        metadata::public_key_from_str(text) matches Ok(key) ==> PublicKey::of_text(text) == Ok::<
            PublicKeyModel,
            ErrorModel,
        >(key),
        metadata::public_key_from_str(text) matches Err(message) ==> PublicKey::of_text(text)
            == Err::<PublicKeyModel, ErrorModel>(ErrorModel::InvalidPublicKey(message)),
{
}

/// The entries of the key list, if there is one.
pub open spec fn entries(metadata: MetaDataJSON) -> Seq<(String, String)> {
    match metadata.public_keys {
        Some(listed) => listed@,
        None => Seq::empty(),
    }
}

/// The keys of an instance are those that `openssh_keys` reads from the listed texts, one for
/// each, in the order of the list. They are refused exactly if it refuses one of the texts.
pub proof fn keys_are_those_of_the_list(metadata: MetaDataJSON)
    ensures
        ({
            let listed = entries(metadata);
            let read = metadata::keys_of(metadata.listed_keys());
            &&& read is Ok <==> forall|i: int|
                0 <= i < listed.len() ==> metadata::public_key_from_str(
                    (#[trigger] listed[i]).1@,
                ) is Ok
            &&& read matches Ok(keys) ==> {
                &&& keys.len() == listed.len()
                &&& forall|i: int|
                    0 <= i < listed.len() ==> metadata::public_key_from_str(
                        (#[trigger] listed[i]).1@,
                    ) == Ok::<PublicKeyModel, Seq<char>>(keys[i])
            }
            &&& read matches Err(reason) ==> exists|i: int|
                {
                    &&& 0 <= i < listed.len()
                    &&& metadata::public_key_from_str((#[trigger] listed[i]).1@) matches Err(
                        message,
                    )
                    &&& reason == ErrorModel::InvalidPublicKey(message)
                    &&& forall|j: int|
                        0 <= j < i ==> metadata::public_key_from_str(
                            (#[trigger] listed[j]).1@,
                        ) is Ok
                }
        }),
{
    let listed = entries(metadata);
    assert(listed == metadata.listed_keys());
    let results = listed.map_values(|entry: (String, String)| PublicKey::of_text(entry.1@));
    error::collected_meaning(results);
    assert forall|i: int| 0 <= i < listed.len() implies results[i] == PublicKey::of_text(
        (#[trigger] listed[i]).1@,
    ) by {}
    match error::collected(results) {
        Ok(keys) => {
            assert forall|i: int| 0 <= i < listed.len() implies metadata::public_key_from_str(
                (#[trigger] listed[i]).1@,
            ) == Ok::<PublicKeyModel, Seq<char>>(keys[i]) by {
                assert(results[i] == Ok::<PublicKeyModel, ErrorModel>(keys[i]));
            }
        },
        Err(reason) => {
            let n = choose|n: int|
                {
                    &&& 0 <= n < results.len()
                    &&& #[trigger] results[n] == Err::<PublicKeyModel, ErrorModel>(reason)
                    &&& forall|j: int| 0 <= j < n ==> #[trigger] results[j] is Ok
                };
            assert(metadata::public_key_from_str(listed[n].1@) is Err);
            assert forall|j: int| 0 <= j < n implies metadata::public_key_from_str(
                (#[trigger] listed[j]).1@,
            ) is Ok by {
                assert(results[j] is Ok);
            }
        },
    }
}

/// Whether a character is one of ASCII.
pub open spec fn is_ascii(c: char) -> bool {
    (c as u32) < 0x80
}

proof fn ascii_is_cut_anywhere(chars: Seq<char>, n: int)
    requires
        0 <= n <= chars.len(),
        forall|i: int| 0 <= i < n ==> is_ascii(#[trigger] chars[i]),
    ensures
        vstd::utf8::is_char_boundary(vstd::utf8::encode_utf8(chars), n),
    decreases n,
{
    let bytes = vstd::utf8::encode_utf8(chars);
    vstd::utf8::encode_utf8_valid_utf8(chars);
    if n > 0 {
        let rest = chars.drop_first();
        vstd::utf8::encode_utf8_first_scalar(chars);
        vstd::utf8::encode_utf8_valid_utf8(rest);
        assert(is_ascii(chars[0]));
        assert(vstd::utf8::encode_scalar(chars[0] as u32).len() == 1);
        assert(vstd::utf8::pop_first_scalar(bytes) =~= vstd::utf8::encode_utf8(rest));
        assert forall|i: int| 0 <= i < n - 1 implies is_ascii(#[trigger] rest[i]) by {
            assert(rest[i] == chars[i + 1]);
        }
        ascii_is_cut_anywhere(rest, n - 1);
        ascii_is_long_enough(chars, n);
    }
}

proof fn ascii_is_long_enough(chars: Seq<char>, n: int)
    requires
        0 <= n <= chars.len(),
    ensures
        vstd::utf8::encode_utf8(chars).len() >= n,
    decreases n,
{
    if n > 0 {
        vstd::utf8::encode_utf8_first_scalar(chars);
        ascii_is_long_enough(chars.drop_first(), n - 1);
    }
}

proof fn options_end_on_the_line(
    line: Seq<char>,
    i: int,
    escaped: bool,
    quoted: bool,
    marked: bool,
)
    requires
        0 <= i,
    ensures
        0 <= metadata::options_end(line, i, escaped, quoted, marked) <= line.len(),
    decreases line.len() - i,
{
    if i < line.len() {
        if line[i] == '\\' {
            options_end_on_the_line(line, i + 1, true, quoted, marked);
        } else if escaped {
            options_end_on_the_line(line, i + 1, false, quoted, marked);
        } else {
            let inside = if line[i] == '"' {
                !quoted
            } else {
                quoted
            };
            options_end_on_the_line(line, i + 1, false, inside, marked);
            options_end_on_the_line(line, i + 1, false, inside, false);
        }
    }
}

/// Every text whose options are in ASCII may be given to the key parser, whatever comment it
/// has.
pub proof fn ascii_options_can_be_parsed(key: Seq<char>)
    requires
        ({
            let line = text::trimmed(key);
            forall|i: int| 0 <= i < metadata::cut_of(line) ==> is_ascii(#[trigger] line[i])
        }),
    ensures
        metadata::can_be_parsed(key),
{
    let line = text::trimmed(key);
    let end = metadata::cut_of(line);
    options_end_on_the_line(line, 0, false, false, line.len() > 0 && line.first() == '@');
    ascii_is_cut_anywhere(line, end);
    if end > 0 {
        ascii_is_cut_anywhere(line, end - 1);
    }
}

/// Whether all characters of a text are of ASCII.
pub open spec fn all_ascii(text: Seq<char>) -> bool {
    forall|i: int| 0 <= i < text.len() ==> is_ascii(#[trigger] text[i])
}

proof fn ascii_start_stays_ascii(text: Seq<char>)
    requires
        all_ascii(text),
    ensures
        all_ascii(text::without_leading_blanks(text)),
    decreases text.len(),
{
    if text.len() > 0 && text::is_blank(text.first()) {
        let rest = text.drop_first();
        assert forall|i: int| 0 <= i < rest.len() implies is_ascii(#[trigger] rest[i]) by {
            assert(rest[i] == text[i + 1]);
        }
        ascii_start_stays_ascii(rest);
    }
}

proof fn ascii_end_stays_ascii(text: Seq<char>)
    requires
        all_ascii(text),
    ensures
        all_ascii(text::without_trailing_blanks(text)),
    decreases text.len(),
{
    if text.len() > 0 && text::is_blank(text.last()) {
        let front = text.drop_last();
        assert forall|i: int| 0 <= i < front.len() implies is_ascii(#[trigger] front[i]) by {
            assert(front[i] == text[i]);
        }
        ascii_end_stays_ascii(front);
    }
}

/// Every text in ASCII may be given to the key parser.
pub proof fn ascii_can_be_parsed(key: Seq<char>)
    requires
        all_ascii(key),
    ensures
        metadata::can_be_parsed(key),
{
    let line = text::trimmed(key);
    ascii_start_stays_ascii(key);
    ascii_end_stays_ascii(text::without_leading_blanks(key));
    options_end_on_the_line(line, 0, false, false, line.len() > 0 && line.first() == '@');
    ascii_options_can_be_parsed(key);
}

/// Keys may all be read if each of them may be given to the key parser, and also if each up to
/// one that is refused may.
pub proof fn parsable_keys_are_read(metadata: MetaDataJSON, n: int)
    requires
        0 <= n <= entries(metadata).len(),
        forall|i: int|
            0 <= i < n ==> metadata::can_be_parsed((#[trigger] entries(metadata)[i]).1@),
        n < entries(metadata).len() ==> exists|j: int|
            0 <= j < n && metadata::public_key_from_str(
                (#[trigger] entries(metadata)[j]).1@,
            ) is Err,
    ensures
        metadata.keys_can_be_parsed(),
{
    assert(entries(metadata) == metadata.listed_keys());
    assert forall|i: int|
        0 <= i < metadata.listed_keys().len() && !metadata::can_be_parsed(
            (#[trigger] metadata.listed_keys()[i]).1@,
        ) implies exists|j: int|
        0 <= j < i && PublicKey::of_text((#[trigger] metadata.listed_keys()[j]).1@) is Err by {
        let j = choose|j: int|
            0 <= j < n && metadata::public_key_from_str((#[trigger] entries(metadata)[j]).1@) is Err;
        assert(metadata::can_be_parsed(entries(metadata)[j].1@));
        assert(i >= n);
        assert(PublicKey::of_text(metadata.listed_keys()[j].1@) is Err);
    }
}

/// Whether a text is what is left of another when the blanks around it are taken away.
pub open spec fn is_visible_part(visible: Seq<char>, text: Seq<char>) -> bool {
    &&& visible.len() > 0 ==> !text::is_blank(visible.first()) && !text::is_blank(visible.last())
    &&& exists|n: int|
        {
            &&& 0 <= n <= text.len() - visible.len()
            &&& visible == #[trigger] text.subrange(n, n + visible.len())
            &&& forall|i: int|
                0 <= i < text.len() && !(n <= i < n + visible.len()) ==> text::is_blank(
                    #[trigger] text[i],
                )
        }
}

/// The config device is all that a successful lookup printed, but for the blanks around it. A
/// lookup that did not succeed names none, whatever it printed.
pub proof fn device_is_what_was_printed(output: Seq<char>)
    ensures
        KubeVirtProvider::named_device(true, output) matches Ok(device) && is_visible_part(
            device,
            output,
        ),
        KubeVirtProvider::named_device(false, output) == Err::<Seq<char>, ErrorModel>(
            ErrorModel::ConfigDeviceNotFound,
        ),
{
    super::values::trimming_takes_blanks_alone(output);
}

} // verus!

//! What the models of values, texts and refusals mean.

use super::arguments;
use super::entries;
use crate::address;
use crate::address::{IpAddr, IpNetwork, MacAddr};
use crate::error;
use crate::error::{Error, ErrorModel};
use crate::metadata;
use crate::metadata::PublicKey;
use crate::network::{Interface, InterfaceModel, NetworkRoute};
use crate::text;
use vstd::arithmetic::power2;
use vstd::prelude::*;

verus! {

/// The model of an interface shows each of its fields.
pub proof fn interface_is_shown_whole(iface: Interface)
    ensures
        iface@.name == iface.name.deep_view(),
        iface@.mac_address == iface.mac_address,
        iface@.path == iface.path.deep_view(),
        iface@.priority == iface.priority,
        iface@.nameservers == iface.nameservers@,
        iface@.ip_addresses == iface.ip_addresses@,
        iface@.routes == iface.routes@,
        iface@.dhcp == iface.dhcp,
        iface@.bond == iface.bond.deep_view(),
        iface@.unmanaged == iface.unmanaged,
        iface@.required_for_online == iface.required_for_online.deep_view(),
        iface.deep_view() == iface@,
{
}

/// An interface that has just been named has its name and nothing else.
pub proof fn named_interface_is_empty(name: Option<Seq<char>>)
    ensures
        ({
            let iface = InterfaceModel::named(name);
            &&& iface.name == name
            &&& iface.mac_address is None
            &&& iface.nameservers.len() == 0
            &&& iface.ip_addresses.len() == 0
            &&& iface.routes.len() == 0
            &&& iface.dhcp is None
            &&& super::has_defaults(iface)
        }),
{
}

/// The model of a key shows each of its fields.
pub proof fn key_is_shown_whole(key: PublicKey)
    ensures
        key@.options == key.options.deep_view(),
        key@.key_type == key.key_type@,
        key@.data == key.data@,
        key@.comment == key.comment.deep_view(),
        key.deep_view() == key@,
{
}

/// Addresses, networks and routes are their own models.
pub proof fn addresses_are_shown_as_they_are(
    ip: IpAddr,
    network: IpNetwork,
    mac: MacAddr,
    route: NetworkRoute,
)
    ensures
        ip.deep_view() == ip,
        network.deep_view() == network,
        mac.deep_view() == mac,
        route.deep_view() == route,
{
}

/// The model of attributes has the same names, each with the characters of its value.
pub proof fn attributes_are_shown_whole(attributes: Map<Seq<char>, String>, name: Seq<char>)
    ensures
        metadata::attribute_texts(attributes).contains_key(name) <==> attributes.contains_key(name),
        attributes.contains_key(name) ==> metadata::attribute_texts(attributes)[name]
            == attributes[name]@,
{
}

/// The model of a list of strings has the characters of each of them, in their order.
pub proof fn strings_are_shown_whole(strings: Seq<String>, i: int)
    ensures
        text::texts(strings).len() == strings.len(),
        0 <= i < strings.len() ==> text::texts(strings)[i] == strings[i]@,
{
}

/// An outcome shows the value of a success and the reason of a refusal.
pub proof fn outcome_is_the_result<T: DeepView>(value: T, reason: Error)
    ensures
        error::outcome(Ok::<T, Error>(value)) == Ok::<T::V, ErrorModel>(value.deep_view()),
        error::outcome(Err::<T, Error>(reason)) == Err::<T::V, ErrorModel>(reason@),
{
}

/// The model of a refusal tells which it is, with the text or the number that it carries.
pub proof fn refusal_is_shown_whole(text: String, version: u64)
    ensures
        Error::UnsupportedConfigType(text)@ == ErrorModel::UnsupportedConfigType(text@),
        Error::MissingAddress@ == ErrorModel::MissingAddress,
        Error::InvalidIpAddr(text)@ == ErrorModel::InvalidIpAddr(text@),
        Error::InvalidIpNetwork(text)@ == ErrorModel::InvalidIpNetwork(text@),
        Error::InvalidMacAddr(text)@ == ErrorModel::InvalidMacAddr(text@),
        Error::TooManyNameservers@ == ErrorModel::TooManyNameservers,
        Error::InvalidJson(text)@ == ErrorModel::InvalidJson(text@),
        Error::InvalidYaml(text)@ == ErrorModel::InvalidYaml(text@),
        Error::YamlWithoutJson(text)@ == ErrorModel::YamlWithoutJson(text@),
        Error::UnsupportedVersion(version)@ == ErrorModel::UnsupportedVersion(version),
        Error::EmptyInstanceId@ == ErrorModel::EmptyInstanceId,
        Error::EmptyHostname@ == ErrorModel::EmptyHostname,
        Error::InvalidPublicKey(text)@ == ErrorModel::InvalidPublicKey(text@),
        Error::ConfigDeviceNotFound@ == ErrorModel::ConfigDeviceNotFound,
{
}

/// What a parser said of an address, a network, a MAC address or a key is the message itself.
/// What it said of a document is the cause behind a message that names the step.
pub proof fn reasons_reach_the_user(reason: Seq<char>, version: u64)
    ensures
        ErrorModel::InvalidIpAddr(reason).message() == reason,
        ErrorModel::InvalidIpNetwork(reason).message() == reason,
        ErrorModel::InvalidMacAddr(reason).message() == reason,
        ErrorModel::InvalidPublicKey(reason).message() == reason,
        ErrorModel::InvalidJson(reason).cause() == Some(reason),
        ErrorModel::InvalidYaml(reason).cause() == Some(reason),
        ErrorModel::YamlWithoutJson(reason).cause() == Some(reason),
        ErrorModel::InvalidJson(reason).message() == "failed to parse JSON network data"@,
        ErrorModel::InvalidYaml(reason).message() == "failed to parse YAML network data"@,
        ErrorModel::YamlWithoutJson(reason).message()
            == "failed to convert YAML to JSON for processing"@,
        ErrorModel::UnsupportedConfigType(reason).message()
            == "cannot convert config to interface: unsupported config type \""@ + reason + "\""@,
        ErrorModel::UnsupportedVersion(version).message() == "unsupported network data version: "@
            + text::decimal(version as nat),
        ErrorModel::MissingAddress.message()
            == "cannot convert static subnet to interface: missing address"@,
        ErrorModel::TooManyNameservers.message() == "too many nameservers, only one supported"@,
        ErrorModel::EmptyInstanceId.message() == "empty instance ID"@,
        ErrorModel::EmptyHostname.message() == "empty local hostname"@,
        ErrorModel::ConfigDeviceNotFound.message() == "could not find config device"@,
{
}

/// Only what was said of a document has a cause behind its message.
pub proof fn only_documents_have_causes(refusal: ErrorModel)
    ensures
        refusal.cause() is Some <==> refusal is InvalidJson || refusal is InvalidYaml || refusal
            is YamlWithoutJson,
{
}

/// Texts are read as the addresses, networks and MAC addresses that the parsers read, and
/// refused exactly if they refuse them.
pub proof fn texts_are_read_as_they_are(text: Seq<char>)
    ensures
        address::ip_addr_from_str(text) matches Ok(ip) ==> IpAddr::of_text(text) == Ok::<
            IpAddr,
            ErrorModel,
        >(ip),
        address::ip_addr_from_str(text) matches Err(message) ==> IpAddr::of_text(text) == Err::<
            IpAddr,
            ErrorModel,
        >(ErrorModel::InvalidIpAddr(message)),
        address::ip_network_from_str(text) matches Some(network) ==> IpNetwork::of_text(text)
            == Ok::<IpNetwork, ErrorModel>(network),
        address::ip_network_from_str(text) is None ==> IpNetwork::of_text(text) == Err::<
            IpNetwork,
            ErrorModel,
        >(ErrorModel::InvalidIpNetwork("invalid address: "@ + text)),
        address::mac_addr_from_str(text) matches Ok(mac) ==> MacAddr::of_text(text) == Ok::<
            MacAddr,
            ErrorModel,
        >(mac),
        address::mac_addr_from_str(text) matches Err(message) ==> MacAddr::of_text(text) == Err::<
            MacAddr,
            ErrorModel,
        >(ErrorModel::InvalidMacAddr(message)),
{
}

/// An address and a netmask make the network with the prefix length that the netmask stands
/// for, and nothing if it stands for none or for one that is longer than the address.
pub proof fn netmask_makes_a_network(ip: IpAddr, mask: IpAddr)
    ensures
        IpNetwork::of_netmask(ip, mask) matches Ok(network) ==> entries::is_masked(
            network,
            ip,
            mask,
        ),
        IpNetwork::of_netmask(ip, mask) matches Err(reason) ==> reason
            == ErrorModel::InvalidIpNetwork("invalid prefix"@) && forall|network: IpNetwork|
            !entries::is_masked(network, ip, mask),
{
    entries::masks_agree(ip, mask);
}

/// A netmask has ones for the length of the prefix, and zeros behind them.
pub proof fn netmask_is_ones_and_zeros(v4: u32, v6: u128, prefix: nat)
    ensures
        IpAddr::V4(v4).is_mask(prefix) <==> prefix <= 32 && v4 == power2::pow2(32) - power2::pow2(
            (32 - prefix) as nat,
        ),
        IpAddr::V6(v6).is_mask(prefix) <==> prefix <= 128 && v6 == power2::pow2(128)
            - power2::pow2((128 - prefix) as nat),
{
}

/// The parts of a network are those that it was made of, and its prefix is no longer than its
/// address exactly if it is well formed.
pub proof fn networks_have_their_parts(v4: u32, v6: u128, prefix: u8)
    ensures
        (IpNetwork::V4 { ip: v4, prefix }).address() == IpAddr::V4(v4),
        (IpNetwork::V6 { ip: v6, prefix }).address() == IpAddr::V6(v6),
        (IpNetwork::V4 { ip: v4, prefix }).prefix_length() == prefix,
        (IpNetwork::V6 { ip: v6, prefix }).prefix_length() == prefix,
        (IpNetwork::V4 { ip: v4, prefix }).well_formed() <==> prefix <= 32,
        (IpNetwork::V6 { ip: v6, prefix }).well_formed() <==> prefix <= 128,
        address::address_text(IpAddr::V4(v4)) == arguments::notation(IpAddr::V4(v4)),
        address::address_text(IpAddr::V6(v6)) == arguments::notation(IpAddr::V6(v6)),
{
}

/// The number that a text of decimal digits stands for.
pub open spec fn decimal_value(digits: Seq<char>) -> int
    decreases digits.len(),
{
    if digits.len() == 0 {
        0
    } else {
        10 * decimal_value(digits.drop_last()) + (digits.last() as u32 - 48)
    }
}

/// A number is written in decimal digits that stand for it, without a leading zero.
pub proof fn decimal_stands_for_its_number(n: nat)
    ensures
        decimal_value(text::decimal(n)) == n,
        text::decimal(n).len() > 0,
        text::decimal(n).len() > 1 ==> text::decimal(n).first() != '0',
        forall|i: int|
            0 <= i < text::decimal(n).len() ==> '0' <= #[trigger] text::decimal(n)[i] <= '9',
    decreases n,
{
    reveal_with_fuel(decimal_value, 2);
    if n >= 10 {
        let before = text::decimal(n / 10);
        decimal_stands_for_its_number(n / 10);
        assert(text::decimal(n).drop_last() =~= before);
        assert(text::decimal(n).first() == before.first());
        if before.len() == 1 {
            assert(decimal_value(before) == before.last() as u32 - 48) by {
                assert(before.drop_last() =~= Seq::<char>::empty());
            }
        }
        assert forall|i: int| 0 <= i < text::decimal(n).len() implies '0'
            <= #[trigger] text::decimal(n)[i] <= '9' by {
            if i < before.len() {
                assert(text::decimal(n)[i] == before[i]);
            }
        }
    } else {
        assert(text::decimal(n).drop_last() =~= Seq::<char>::empty());
    }
}

/// An IPv4 address is written with its four octets in decimal notation and dots between them.
pub proof fn octets_are_written_in_order(a: u8, b: u8, c: u8, d: u8)
    ensures
        address::dotted_decimal(
            (a * 0x100_0000 + b * 0x1_0000 + c * 0x100 + d) as u32,
        ) == text::decimal(a as nat) + "."@ + text::decimal(b as nat) + "."@ + text::decimal(
            c as nat,
        ) + "."@ + text::decimal(d as nat),
{
    let value = (a * 0x100_0000 + b * 0x1_0000 + c * 0x100 + d) as u32;
    assert(value / 0x100_0000 == a && value / 0x1_0000 % 0x100 == b && value / 0x100 % 0x100 == c
        && value % 0x100 == d) by (bit_vector)
        requires
            value == a * 0x100_0000 + b * 0x1_0000 + c * 0x100 + d,
    ;
}

/// The number that a hexadecimal digit in lower case stands for.
pub open spec fn hex_value(digit: char) -> int {
    if '0' <= digit <= '9' {
        digit as u32 - 48
    } else if 'a' <= digit <= 'f' {
        digit as u32 - 87
    } else {
        -1
    }
}

/// A MAC address is written with two hexadecimal digits for each octet and colons between them.
pub proof fn mac_octets_are_written_in_order(mac: MacAddr)
    ensures
        ({
            let written = address::mac_text(mac);
            &&& written.len() == 17
            &&& written[2] == ':' && written[5] == ':' && written[8] == ':' && written[11] == ':'
                && written[14] == ':'
            &&& octet_is_written(mac.0, written[0], written[1])
            &&& octet_is_written(mac.1, written[3], written[4])
            &&& octet_is_written(mac.2, written[6], written[7])
            &&& octet_is_written(mac.3, written[9], written[10])
            &&& octet_is_written(mac.4, written[12], written[13])
            &&& octet_is_written(mac.5, written[15], written[16])
        }),
{
    reveal_strlit(":");
}

/// Whether two hexadecimal digits stand for an octet.
pub open spec fn octet_is_written(octet: u8, high: char, low: char) -> bool {
    &&& hex_value(high) >= 0
    &&& hex_value(low) >= 0
    &&& hex_value(high) * 16 + hex_value(low) == octet
}

/// A text occurs in another exactly if that is made of it and what stands before and behind it.
pub proof fn occurrence_is_a_part(
    before: Seq<char>,
    part: Seq<char>,
    after: Seq<char>,
    whole: Seq<char>,
)
    ensures
        text::occurs_in(part, before + part + after),
        text::occurs_in(part, whole) ==> exists|at: int|
            0 <= at <= whole.len() - part.len() && whole == #[trigger] whole.take(at) + part
                + whole.skip(at + part.len()),
{
    let all = before + part + after;
    let at = before.len() as int;
    assert(all.subrange(at, at + part.len()) =~= part);
    if text::occurs_in(part, whole) {
        let at = choose|at: int|
            0 <= at <= whole.len() - part.len() && #[trigger] whole.subrange(at, at + part.len())
                == part;
        assert(whole =~= whole.take(at) + part + whole.skip(at + part.len()));
    }
}

/// A trimmed text is a part of the text that neither starts nor ends with a blank, and outside of
/// which there are only blanks.
pub proof fn trimming_takes_blanks_alone(text: Seq<char>)
    ensures
        ({
            let visible = text::trimmed(text);
            &&& visible.len() > 0 ==> !text::is_blank(visible.first()) && !text::is_blank(
                visible.last(),
            )
            &&& exists|n: int|
                {
                    &&& 0 <= n <= text.len() - visible.len()
                    &&& visible == #[trigger] text.subrange(n, n + visible.len())
                    &&& forall|i: int|
                        0 <= i < text.len() && !(n <= i < n + visible.len()) ==> text::is_blank(
                            #[trigger] text[i],
                        )
                }
        }),
{
    let start = text::without_leading_blanks(text);
    let visible = text::trimmed(text);
    super::leading_blanks_are_skipped(text);
    super::trailing_blanks_keep_start(start);
    trailing_blanks_are_cut(start);
    let n = text.len() - start.len();
    assert(visible =~= text.subrange(n, n + visible.len()));
    assert forall|i: int| 0 <= i < text.len() && !(n <= i < n + visible.len()) implies text::is_blank(
        #[trigger] text[i],
    ) by {
        if i >= n {
            assert(text[i] == start[i - n]);
        }
    }
}

proof fn trailing_blanks_are_cut(text: Seq<char>)
    ensures
        ({
            let end = text::without_trailing_blanks(text);
            &&& end.len() <= text.len()
            &&& end == text.take(end.len() as int)
            &&& forall|i: int| end.len() <= i < text.len() ==> text::is_blank(#[trigger] text[i])
            &&& end.len() > 0 ==> !text::is_blank(end.last())
        }),
    decreases text.len(),
{
    let end = text::without_trailing_blanks(text);
    if text.len() > 0 && text::is_blank(text.last()) {
        let front = text.drop_last();
        trailing_blanks_are_cut(front);
        assert(end =~= text.take(end.len() as int));
        assert forall|i: int| end.len() <= i < text.len() implies text::is_blank(
            #[trigger] text[i],
        ) by {
            if i < front.len() {
                assert(text[i] == front[i]);
            }
        }
    } else {
        assert(end =~= text.take(end.len() as int));
    }
}

} // verus!

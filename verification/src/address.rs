//! IP addresses, IP networks and MAC addresses as plain numbers, how they are read from
//! text and how they are written.

use crate::error::{Error, ErrorModel};
use crate::text;
use vstd::arithmetic::power2;
use vstd::prelude::*;

verus! {

/// An IP address, as the number that its bits stand for.
#[derive(Clone, Copy, Debug, PartialEq, Eq, Structural)]
pub enum IpAddr {
    V4(u32),
    V6(u128),
}

/// An IP address together with the length of its network prefix.
#[derive(Clone, Copy, Debug, PartialEq, Eq, Structural)]
#[allow(inconsistent_fields)]
pub enum IpNetwork {
    V4 { ip: u32, prefix: u8 },
    V6 { ip: u128, prefix: u8 },
}

/// A MAC address, octet by octet.
#[derive(Clone, Copy, Debug, PartialEq, Eq, Structural)]
pub struct MacAddr(pub u8, pub u8, pub u8, pub u8, pub u8, pub u8);

impl DeepView for IpAddr {
    type V = IpAddr;

    open spec fn deep_view(&self) -> IpAddr {
        *self
    }
}

impl DeepView for IpNetwork {
    type V = IpNetwork;

    open spec fn deep_view(&self) -> IpNetwork {
        *self
    }
}

impl DeepView for MacAddr {
    type V = MacAddr;

    open spec fn deep_view(&self) -> MacAddr {
        *self
    }
}

impl IpAddr {
    /// How many bits the address has.
    pub open spec fn width(self) -> nat {
        match self {
            IpAddr::V4(_) => 32,
            IpAddr::V6(_) => 128,
        }
    }

    /// The number that the bits of the address stand for.
    pub open spec fn value(self) -> int {
        match self {
            IpAddr::V4(value) => value as int,
            IpAddr::V6(value) => value as int,
        }
    }

    /// Whether the `prefix` most significant bits are ones and all others zeros.
    pub open spec fn is_mask(self, prefix: nat) -> bool {
        &&& prefix <= self.width()
        &&& self.value() == power2::pow2(self.width()) - power2::pow2((self.width() - prefix) as nat)
    }

    /// The prefix length that the address stands for as a netmask, if it is one.
    pub open spec fn mask_prefix(self) -> Option<u8> {
        if exists|prefix: u8| self.is_mask(prefix as nat) {
            Some(choose|prefix: u8| self.is_mask(prefix as nat))
        } else {
            None
        }
    }

    /// The network of the address with a prefix of the given length.
    pub open spec fn with_prefix(self, prefix: u8) -> IpNetwork {
        match self {
            IpAddr::V4(ip) => IpNetwork::V4 { ip, prefix },
            IpAddr::V6(ip) => IpNetwork::V6 { ip, prefix },
        }
    }

    /// The network of the address with the given netmask. The netmask may belong to the
    /// other address family, as long as its prefix fits the address.
    pub open spec fn with_mask(self, mask: IpAddr) -> Option<IpNetwork> {
        match mask.mask_prefix() {
            Some(prefix) => if prefix <= self.width() {
                Some(self.with_prefix(prefix))
            } else {
                None
            },
            None => None,
        }
    }

    /// The address that a text is read as, or why it is none.
    pub open spec fn of_text(text: Seq<char>) -> Result<IpAddr, ErrorModel> {
        match ip_addr_from_str(text) {
            Ok(ip) => Ok(ip),
            Err(message) => Err(ErrorModel::InvalidIpAddr(message)),
        }
    }

    /// Reads an address.
    pub fn from_str(text: &str) -> (result: Result<IpAddr, Error>)
        ensures
            crate::error::outcome(result) == IpAddr::of_text(text@),
            forall|value: u32|
                text@ == #[trigger] dotted_decimal(value) <==> result is Ok && result->Ok_0
                    == IpAddr::V4(value),
    {
        match parse_ip_addr(text) {
            Ok(ip) => Ok(ip),
            Err(message) => Err(Error::InvalidIpAddr(message)),
        }
    }

    /// Whether this is an IPv6 address.
    pub fn is_ipv6(&self) -> (result: bool)
        ensures
            result == (*self is V6),
    {
        match self {
            IpAddr::V4(_) => false,
            IpAddr::V6(_) => true,
        }
    }
}

impl IpNetwork {
    /// Whether the prefix is no longer than the address.
    pub open spec fn well_formed(self) -> bool {
        self.prefix_length() <= self.address().width()
    }

    /// The address.
    pub open spec fn address(self) -> IpAddr {
        match self {
            IpNetwork::V4 { ip, .. } => IpAddr::V4(ip),
            IpNetwork::V6 { ip, .. } => IpAddr::V6(ip),
        }
    }

    /// The length of the prefix.
    pub open spec fn prefix_length(self) -> u8 {
        match self {
            IpNetwork::V4 { prefix, .. } => prefix,
            IpNetwork::V6 { prefix, .. } => prefix,
        }
    }

    /// Whether this is a network of all addresses of its family.
    pub open spec fn is_everything(self) -> bool {
        self.prefix_length() == 0
    }

    /// The network that a text in CIDR notation is read as, or why it is none.
    pub open spec fn of_text(text: Seq<char>) -> Result<IpNetwork, ErrorModel> {
        match ip_network_from_str(text) {
            Some(network) => Ok(network),
            None => Err(ErrorModel::InvalidIpNetwork("invalid address: "@ + text)),
        }
    }

    /// The network of an address and a netmask, or why there is none.
    pub open spec fn of_netmask(ip: IpAddr, mask: IpAddr) -> Result<IpNetwork, ErrorModel> {
        match ip.with_mask(mask) {
            Some(network) => Ok(network),
            None => Err(ErrorModel::InvalidIpNetwork("invalid prefix"@)),
        }
    }

    /// Reads a network in CIDR notation.
    pub fn from_str(text: &str) -> (result: Result<IpNetwork, Error>)
        ensures
            crate::error::outcome(result) == IpNetwork::of_text(text@),
            result is Ok ==> result->Ok_0.well_formed(),
            forall|ip: u32, prefix: u8|
                prefix <= 32 && text@ == #[trigger] cidr_v4(ip, prefix) ==> result is Ok
                    && result->Ok_0 == (IpNetwork::V4 { ip, prefix }),
            text@ == "0.0.0.0/0"@ ==> result is Ok && result->Ok_0 == everything_v4(),
            text@ == "::/0"@ ==> result is Ok && result->Ok_0 == everything_v6(),
    {
        proof {
            reveal_strlit("0.0.0.0/0");
            reveal_strlit(".");
            reveal_strlit("/");
            assert("0.0.0.0/0"@ =~= cidr_v4(0, 0));
        }
        match parse_ip_network(text) {
            Ok(network) => Ok(network),
            Err(message) => Err(Error::InvalidIpNetwork(message)),
        }
    }

    /// The network of an address and a netmask.
    pub fn with_netmask(ip: IpAddr, mask: IpAddr) -> (result: Result<IpNetwork, Error>)
        ensures
            crate::error::outcome(result) == IpNetwork::of_netmask(ip, mask),
            result is Ok ==> result->Ok_0.well_formed(),
    {
        match network_with_netmask(ip, mask) {
            Ok(network) => Ok(network),
            Err(message) => Err(Error::InvalidIpNetwork(message)),
        }
    }

    /// The address.
    pub fn ip(&self) -> (result: IpAddr)
        ensures
            result == self.address(),
    {
        match self {
            IpNetwork::V4 { ip, .. } => IpAddr::V4(*ip),
            IpNetwork::V6 { ip, .. } => IpAddr::V6(*ip),
        }
    }

    /// The length of the prefix.
    pub fn prefix(&self) -> (result: u8)
        ensures
            result == self.prefix_length(),
    {
        match self {
            IpNetwork::V4 { prefix, .. } => *prefix,
            IpNetwork::V6 { prefix, .. } => *prefix,
        }
    }

    /// Whether this is an IPv4 network.
    pub fn is_ipv4(&self) -> (result: bool)
        ensures
            result == (*self is V4),
    {
        match self {
            IpNetwork::V4 { .. } => true,
            IpNetwork::V6 { .. } => false,
        }
    }

    /// Whether this is an IPv6 network.
    pub fn is_ipv6(&self) -> (result: bool)
        ensures
            result == (*self is V6),
    {
        !self.is_ipv4()
    }
}

impl MacAddr {
    /// The MAC address that a text is read as, or why it is none.
    pub open spec fn of_text(text: Seq<char>) -> Result<MacAddr, ErrorModel> {
        match mac_addr_from_str(text) {
            Ok(mac) => Ok(mac),
            Err(message) => Err(ErrorModel::InvalidMacAddr(message)),
        }
    }

    /// Reads a MAC address.
    pub fn from_str(text: &str) -> (result: Result<MacAddr, Error>)
        ensures
            crate::error::outcome(result) == MacAddr::of_text(text@),
            forall|mac: MacAddr|
                text@ == #[trigger] mac_text(mac) ==> result is Ok && result->Ok_0 == mac,
    {
        match parse_mac_addr(text) {
            Ok(mac) => Ok(mac),
            Err(message) => Err(Error::InvalidMacAddr(message)),
        }
    }
}

/// The default route of IPv4.
pub open spec fn everything_v4() -> IpNetwork {
    IpNetwork::V4 { ip: 0, prefix: 0 }
}

/// The default route of IPv6.
pub open spec fn everything_v6() -> IpNetwork {
    IpNetwork::V6 { ip: 0, prefix: 0 }
}

/// An IPv4 address in dotted decimal notation.
pub open spec fn dotted_decimal(value: u32) -> Seq<char> {
    text::decimal((value / 0x100_0000) as nat) + "."@
        + text::decimal((value / 0x1_0000 % 0x100) as nat) + "."@
        + text::decimal((value / 0x100 % 0x100) as nat) + "."@
        + text::decimal((value % 0x100) as nat)
}

/// An IPv4 network in CIDR notation.
pub open spec fn cidr_v4(ip: u32, prefix: u8) -> Seq<char> {
    dotted_decimal(ip) + "/"@ + text::decimal(prefix as nat)
}

/// An IP address as text.
pub open spec fn address_text(ip: IpAddr) -> Seq<char> {
    match ip {
        IpAddr::V4(value) => dotted_decimal(value),
        IpAddr::V6(value) => ipv6_text(value),
    }
}

/// The hexadecimal digit, in lower case, for a number below sixteen.
pub open spec fn hex_digit(d: nat) -> char {
    if d < 10 {
        (48 + d) as char
    } else {
        (87 + d) as char
    }
}

/// An octet as two hexadecimal digits.
pub open spec fn hex_octet(octet: u8) -> Seq<char> {
    seq![hex_digit((octet / 16) as nat), hex_digit((octet % 16) as nat)]
}

/// A MAC address as six hexadecimal octets with colons between them.
pub open spec fn mac_text(mac: MacAddr) -> Seq<char> {
    hex_octet(mac.0) + ":"@ + hex_octet(mac.1) + ":"@ + hex_octet(mac.2) + ":"@ + hex_octet(mac.3)
        + ":"@ + hex_octet(mac.4) + ":"@ + hex_octet(mac.5)
}

/// The IP address that std's `IpAddr::from_str` reads from a text, or the message of its
/// error.
pub uninterp spec fn ip_addr_from_str(text: Seq<char>) -> Result<IpAddr, Seq<char>>;

/// The IP network that `ipnetwork::IpNetwork::from_str` reads from a text.
pub uninterp spec fn ip_network_from_str(text: Seq<char>) -> Option<IpNetwork>;

/// The MAC address that `pnet_base::MacAddr::from_str` reads from a text, or the message of
/// its error.
pub uninterp spec fn mac_addr_from_str(text: Seq<char>) -> Result<MacAddr, Seq<char>>;

/// An IPv6 address as std's `Ipv6Addr` writes it.
pub uninterp spec fn ipv6_text(value: u128) -> Seq<char>;

/// `IpAddr::from_str` of std, whose address types `pnet_base` hands on as `core_net`. What it
/// reads is named, with one fact of it: the IPv4 addresses are the texts in dotted decimal
/// notation. Which texts are IPv6 addresses is left to std; the result depends on the text
/// alone.
#[verifier::external_body]
pub(crate) fn parse_ip_addr(text: &str) -> (result: Result<IpAddr, String>)
    ensures
        match result {
            Ok(ip) => ip_addr_from_str(text@) == Ok::<IpAddr, Seq<char>>(ip),
            Err(message) => ip_addr_from_str(text@) == Err::<IpAddr, Seq<char>>(message@),
        },
        forall|value: u32|
            text@ == #[trigger] dotted_decimal(value) <==> result is Ok && result->Ok_0
                == IpAddr::V4(value),
{
    match text.parse::<pnet_base::core_net::IpAddr>() {
        Ok(pnet_base::core_net::IpAddr::V4(ip)) => Ok(IpAddr::V4(ip.into())),
        Ok(pnet_base::core_net::IpAddr::V6(ip)) => Ok(IpAddr::V6(ip.into())),
        Err(error) => Err(error.to_string()),
    }
}

/// `ipnetwork::IpNetwork::from_str`. What it reads is named, with four facts of it: the
/// prefix of a network fits its address, IPv4 networks in CIDR notation are read as such, and
/// so is the text for all IPv6 addresses, and what cannot be read is reported as an invalid
/// address.
#[verifier::external_body]
pub(crate) fn parse_ip_network(text: &str) -> (result: Result<IpNetwork, String>)
    ensures
        match result {
            Ok(network) => {
                &&& ip_network_from_str(text@) == Some(network)
                &&& network.well_formed()
            },
            Err(message) => {
                &&& ip_network_from_str(text@) is None
                &&& message@ == "invalid address: "@ + text@
            },
        },
        forall|ip: u32, prefix: u8|
            prefix <= 32 && text@ == #[trigger] cidr_v4(ip, prefix) ==> result is Ok
                && result->Ok_0 == (IpNetwork::V4 { ip, prefix }),
        text@ == "::/0"@ ==> result is Ok && result->Ok_0 == everything_v6(),
{
    match text.parse::<ipnetwork::IpNetwork>() {
        Ok(ipnetwork::IpNetwork::V4(network)) => {
            Ok(IpNetwork::V4 { ip: network.ip().into(), prefix: network.prefix() })
        },
        Ok(ipnetwork::IpNetwork::V6(network)) => {
            Ok(IpNetwork::V6 { ip: network.ip().into(), prefix: network.prefix() })
        },
        Err(error) => Err(error.to_string()),
    }
}

/// `ipnetwork::IpNetwork::with_netmask`: the address with the prefix length that the
/// netmask stands for. It fails, with always the same message, on what is no netmask and
/// on a prefix that is longer than the address.
#[verifier::external_body]
pub(crate) fn network_with_netmask(ip: IpAddr, mask: IpAddr) -> (result: Result<IpNetwork, String>)
    ensures
        match result {
            Ok(network) => ip.with_mask(mask) == Some(network),
            Err(message) => ip.with_mask(mask) is None && message@ == "invalid prefix"@,
        },
{
    let outside = |address: IpAddr| match address {
        IpAddr::V4(value) => pnet_base::core_net::IpAddr::V4(value.into()),
        IpAddr::V6(value) => pnet_base::core_net::IpAddr::V6(value.into()),
    };
    match ipnetwork::IpNetwork::with_netmask(outside(ip), outside(mask)) {
        Ok(ipnetwork::IpNetwork::V4(network)) => {
            Ok(IpNetwork::V4 { ip: network.ip().into(), prefix: network.prefix() })
        },
        Ok(ipnetwork::IpNetwork::V6(network)) => {
            Ok(IpNetwork::V6 { ip: network.ip().into(), prefix: network.prefix() })
        },
        Err(error) => Err(error.to_string()),
    }
}

/// `ipnetwork::Ipv4Network::mask`: the address whose most significant bits are ones for
/// the length of the prefix, and whose other bits are zeros. A prefix of more than 32 bits
/// makes no network.
#[verifier::external_body]
pub(crate) fn ipv4_netmask(ip: u32, prefix: u8) -> (result: u32)
    requires
        prefix <= 32,
    ensures
        IpAddr::V4(result).is_mask(prefix as nat),
{
    ipnetwork::Ipv4Network::new(ip.into(), prefix).unwrap().mask().into()
}

/// std's `Display` for `IpAddr`: dotted decimal notation for IPv4, and for IPv6 what std
/// writes, which depends on the address alone.
#[verifier::external_body]
pub(crate) fn ip_addr_text(ip: IpAddr) -> (result: String)
    ensures
        match ip {
            IpAddr::V4(value) => result@ == dotted_decimal(value),
            IpAddr::V6(value) => result@ == ipv6_text(value),
        },
{
    match ip {
        IpAddr::V4(value) => pnet_base::core_net::IpAddr::V4(value.into()).to_string(),
        IpAddr::V6(value) => pnet_base::core_net::IpAddr::V6(value.into()).to_string(),
    }
}

/// `pnet_base::MacAddr::from_str`. What it reads is named, with one fact of it: six octets of
/// two hexadecimal digits in lower case, with colons between them, are read as these octets.
/// Which other texts are read is left to `pnet_base`; the result depends on the text alone.
#[verifier::external_body]
pub(crate) fn parse_mac_addr(text: &str) -> (result: Result<MacAddr, String>)
    ensures
        match result {
            Ok(mac) => mac_addr_from_str(text@) == Ok::<MacAddr, Seq<char>>(mac),
            Err(message) => mac_addr_from_str(text@) == Err::<MacAddr, Seq<char>>(message@),
        },
        forall|mac: MacAddr|
            text@ == #[trigger] mac_text(mac) ==> result is Ok && result->Ok_0 == mac,
{
    match text.parse::<pnet_base::MacAddr>() {
        Ok(mac) => Ok(MacAddr(mac.0, mac.1, mac.2, mac.3, mac.4, mac.5)),
        Err(error) => Err(error.to_string()),
    }
}

/// `Display` of `pnet_base::MacAddr`: two hexadecimal digits in lower case for each octet,
/// with colons between the octets.
#[verifier::external_body]
pub(crate) fn mac_addr_text(mac: MacAddr) -> (result: String)
    ensures
        result@ == mac_text(mac),
{
    pnet_base::MacAddr(mac.0, mac.1, mac.2, mac.3, mac.4, mac.5).to_string()
}

} // verus!

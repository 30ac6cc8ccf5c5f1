//! The dracut kernel arguments that configure interfaces in the initramfs.

use crate::address;
use crate::address::{IpAddr, IpNetwork};
use crate::error::ErrorModel;
use crate::network::{DhcpSetting, Interface, InterfaceModel, NetworkRoute};
use crate::text;
use vstd::arithmetic::power2;
use vstd::prelude::*;

verus! {

/// How arguments name an interface, and which method its static addresses are given.
#[derive(Clone, Copy, Debug, PartialEq, Eq, Structural)]
pub enum KargStyle {
    /// By its name, which is empty if there is none; static addresses have the method `none`.
    Name,
    /// By its MAC address or else its name, and not at all if it has neither; static
    /// addresses have the method `static`.
    MacOrName,
}

impl KargStyle {
    /// The text that stands for an interface, if it can be named.
    pub open spec fn identifier(self, iface: InterfaceModel) -> Option<Seq<char>> {
        match self {
            KargStyle::Name => match iface.name {
                Some(name) => Some(name),
                None => Some(Seq::empty()),
            },
            KargStyle::MacOrName => match iface.mac_address {
                Some(mac) => Some(address::mac_text(mac)),
                None => iface.name,
            },
        }
    }

    /// The method of a static address.
    pub open spec fn method(self) -> Seq<char> {
        match self {
            KargStyle::Name => "none"@,
            KargStyle::MacOrName => "static"@,
        }
    }
}

/// Whether a route is the default route of IPv6, or else of IPv4.
pub open spec fn is_default_route(route: NetworkRoute, ipv6: bool) -> bool {
    (route.destination is V6) == ipv6 && route.destination.is_everything()
}

/// The gateway of the first default route of an address family.
pub open spec fn default_gateway(routes: Seq<NetworkRoute>, ipv6: bool) -> Option<IpAddr>
    decreases routes.len(),
{
    if routes.len() == 0 {
        None
    } else if is_default_route(routes.first(), ipv6) {
        Some(routes.first().gateway)
    } else {
        default_gateway(routes.drop_first(), ipv6)
    }
}

/// The IPv4 netmask whose `prefix` most significant bits are ones.
pub open spec fn netmask_v4(prefix: u8) -> u32 {
    (power2::pow2(32) - power2::pow2((32 - prefix) as nat)) as u32
}

/// The extent of a network: its netmask in IPv4, its prefix length in IPv6.
pub open spec fn extent_text(network: IpNetwork) -> Seq<char> {
    match network {
        IpNetwork::V4 { prefix, .. } => address::dotted_decimal(netmask_v4(prefix)),
        IpNetwork::V6 { prefix, .. } => text::decimal(prefix as nat),
    }
}

/// The default gateway of the address family of a network as text, empty if there is none.
pub open spec fn gateway_text(routes: Seq<NetworkRoute>, network: IpNetwork) -> Seq<char> {
    match default_gateway(routes, network is V6) {
        Some(gateway) => address::address_text(gateway),
        None => Seq::empty(),
    }
}

/// The argument for a static address.
pub open spec fn address_karg(
    network: IpNetwork,
    routes: Seq<NetworkRoute>,
    id: Seq<char>,
    method: Seq<char>,
) -> Seq<char> {
    "ip="@ + address::address_text(network.address()) + "::"@ + gateway_text(routes, network)
        + ":"@ + extent_text(network) + "::"@ + id + ":"@ + method
}

/// The argument for a DHCP setting.
pub open spec fn dhcp_karg(setting: DhcpSetting, id: Seq<char>) -> Seq<char> {
    "ip="@ + id + (match setting {
        DhcpSetting::V4 => ":dhcp"@,
        DhcpSetting::V6 => ":dhcp6"@,
        DhcpSetting::Both => ":dhcp,dhcp6"@,
    })
}

/// The argument for DNS servers.
pub open spec fn nameserver_karg(nameservers: Seq<IpAddr>) -> Seq<char> {
    "nameserver="@ + text::joined(
        nameservers.map_values(|ip: IpAddr| address::address_text(ip)),
        ","@,
    )
}

/// The arguments for the static addresses of an interface, in their order.
pub open spec fn address_kargs(iface: InterfaceModel, id: Seq<char>, method: Seq<char>) -> Seq<
    Seq<char>,
> {
    iface.ip_addresses.map_values(
        |network: IpNetwork| address_karg(network, iface.routes, id, method),
    )
}

/// The arguments for an interface: one for each static address, then one for DHCP and one
/// for the DNS servers where there are any.
pub open spec fn interface_kargs(iface: InterfaceModel, id: Seq<char>, method: Seq<char>) -> Seq<
    Seq<char>,
> {
    address_kargs(iface, id, method) + (match iface.dhcp {
        Some(setting) => seq![dhcp_karg(setting, id)],
        None => Seq::empty(),
    }) + (if iface.nameservers.len() > 0 {
        seq![nameserver_karg(iface.nameservers)]
    } else {
        Seq::empty()
    })
}

/// The arguments for one interface in a style; none for an interface that it cannot name.
pub open spec fn styled_kargs(iface: InterfaceModel, style: KargStyle) -> Seq<Seq<char>> {
    match style.identifier(iface) {
        Some(id) => interface_kargs(iface, id, style.method()),
        None => Seq::empty(),
    }
}

/// The arguments for all interfaces, in their order.
pub open spec fn network_kargs(interfaces: Seq<InterfaceModel>, style: KargStyle) -> Seq<Seq<char>>
    decreases interfaces.len(),
{
    if interfaces.len() == 0 {
        Seq::empty()
    } else {
        network_kargs(interfaces.drop_last(), style) + styled_kargs(interfaces.last(), style)
    }
}

/// Arguments on one line with spaces between them, if there are any.
pub open spec fn karg_line(kargs: Seq<Seq<char>>) -> Option<Seq<char>> {
    if kargs.len() == 0 {
        None
    } else {
        Some(text::joined(kargs, " "@))
    }
}

/// The line of arguments for what network data describes; none if it is refused.
pub open spec fn karg_line_of(
    interfaces: Result<Seq<InterfaceModel>, ErrorModel>,
    style: KargStyle,
) -> Option<Seq<char>> {
    match interfaces {
        Ok(interfaces) => karg_line(network_kargs(interfaces, style)),
        Err(_) => None,
    }
}

fn find_default_gateway(routes: &Vec<NetworkRoute>, ipv6: bool) -> (result: Option<IpAddr>)
    ensures
        result == default_gateway(routes@, ipv6),
{
    let mut i: usize = 0;
    assert(routes@.skip(0) =~= routes@);
    while i < routes.len()
        invariant
            i <= routes@.len(),
            default_gateway(routes@, ipv6) == default_gateway(routes@.skip(i as int), ipv6),
        decreases routes@.len() - i,
    {
        assert(routes@.skip(i as int).drop_first() =~= routes@.skip(i + 1));
        let route = routes[i];
        if route.destination.is_ipv6() == ipv6 && route.destination.prefix() == 0 {
            return Some(route.gateway);
        }
        i = i + 1;
    }
    None
}

/// The argument for a static address.
fn write_address_karg(
    network: IpNetwork,
    routes: &Vec<NetworkRoute>,
    id: &str,
    method: &str,
) -> (result: String)
    requires
        network.well_formed(),
    ensures
        result@ == address_karg(network, routes@, id@, method@),
{
    let mut result = "ip=".to_owned();
    result.append(address::ip_addr_text(network.ip()).as_str());
    result.append("::");
    let ghost before = result@;
    if let Some(gateway) = find_default_gateway(routes, network.is_ipv6()) {
        result.append(address::ip_addr_text(gateway).as_str());
    }
    assert(result@ =~= before + gateway_text(routes@, network));
    result.append(":");
    match network {
        IpNetwork::V4 { ip, prefix } => {
            let mask = address::ipv4_netmask(ip, prefix);
            result.append(address::ip_addr_text(IpAddr::V4(mask)).as_str());
        },
        IpNetwork::V6 { prefix, .. } => {
            result.append(text::decimal_text(prefix as u64).as_str());
        },
    }
    result.append("::");
    result.append(id);
    result.append(":");
    result.append(method);
    result
}

/// The argument for DNS servers.
fn write_nameserver_karg(nameservers: &Vec<IpAddr>) -> (result: String)
    ensures
        result@ == nameserver_karg(nameservers@),
{
    let mut written: Vec<String> = Vec::new();
    let mut i: usize = 0;
    while i < nameservers.len()
        invariant
            i <= nameservers@.len(),
            written@.len() == i,
            forall|k: int|
                0 <= k < i ==> (#[trigger] written@[k])@ == address::address_text(nameservers@[k]),
        decreases nameservers@.len() - i,
    {
        written.push(address::ip_addr_text(nameservers[i]));
        i = i + 1;
    }
    assert(text::texts(written@) =~= nameservers@.map_values(
        |ip: IpAddr| address::address_text(ip),
    ));
    let mut result = "nameserver=".to_owned();
    result.append(text::join(&written, ",").as_str());
    result
}

/// Adds the arguments for an interface to those that are there.
fn push_interface_kargs(kargs: &mut Vec<String>, iface: &Interface, id: &str, method: &str)
    requires
        iface@.well_formed(),
    ensures
        text::texts(final(kargs)@) == text::texts(old(kargs)@) + interface_kargs(
            iface@,
            id@,
            method@,
        ),
{
    let ghost before = text::texts(kargs@);
    let ghost addresses = address_kargs(iface@, id@, method@);
    let mut i: usize = 0;
    assert(addresses.take(0) =~= Seq::empty());
    assert(text::texts(kargs@) =~= before + addresses.take(0));
    while i < iface.ip_addresses.len()
        invariant
            i <= iface.ip_addresses@.len(),
            iface@.well_formed(),
            addresses == address_kargs(iface@, id@, method@),
            text::texts(kargs@) == before + addresses.take(i as int),
        decreases iface.ip_addresses@.len() - i,
    {
        assert(iface@.ip_addresses[i as int].well_formed());
        let karg = write_address_karg(iface.ip_addresses[i], &iface.routes, id, method);
        text::push_text(kargs, karg);
        assert(addresses.take(i + 1) =~= addresses.take(i as int).push(karg@));
        assert(text::texts(kargs@) =~= before + addresses.take(i + 1));
        i = i + 1;
    }
    assert(addresses.take(i as int) =~= addresses);
    if let Some(setting) = iface.dhcp {
        let mut karg = "ip=".to_owned();
        karg.append(id);
        karg.append(
            match setting {
                DhcpSetting::V4 => ":dhcp",
                DhcpSetting::V6 => ":dhcp6",
                DhcpSetting::Both => ":dhcp,dhcp6",
            },
        );
        text::push_text(kargs, karg);
    }
    if iface.nameservers.len() > 0 {
        text::push_text(kargs, write_nameserver_karg(&iface.nameservers));
    }
    assert(text::texts(kargs@) =~= before + interface_kargs(iface@, id@, method@));
}

/// The kernel arguments for the given interfaces on one line, if there are any.
pub fn write_network_kargs(interfaces: &Vec<Interface>, style: KargStyle) -> (result: Option<
    String,
>)
    requires
        crate::networkdata::all_well_formed(interfaces.deep_view()),
    ensures
        result.deep_view() == karg_line(network_kargs(interfaces.deep_view(), style)),
{
    let ghost models = interfaces.deep_view();
    let mut kargs: Vec<String> = Vec::new();
    let mut i: usize = 0;
    assert(text::texts(kargs@) =~= Seq::empty());
    while i < interfaces.len()
        invariant
            i <= interfaces@.len(),
            models == interfaces.deep_view(),
            crate::networkdata::all_well_formed(models),
            text::texts(kargs@) == network_kargs(models.take(i as int), style),
        decreases interfaces@.len() - i,
    {
        let iface = &interfaces[i];
        proof {
            assert(models.take(i + 1).drop_last() =~= models.take(i as int));
            assert(models[i as int] == iface@);
            assert(models[i as int].well_formed());
        }
        match style {
            KargStyle::Name => {
                let id = match &iface.name {
                    Some(name) => name.clone(),
                    None => String::new(),
                };
                push_interface_kargs(&mut kargs, iface, id.as_str(), "none");
            },
            KargStyle::MacOrName => {
                if let Some(mac) = iface.mac_address {
                    let id = address::mac_addr_text(mac);
                    push_interface_kargs(&mut kargs, iface, id.as_str(), "static");
                } else if let Some(name) = &iface.name {
                    push_interface_kargs(&mut kargs, iface, name.as_str(), "static");
                }
            },
        }
        assert(text::texts(kargs@) =~= network_kargs(models.take(i + 1), style));
        i = i + 1;
    }
    assert(models.take(i as int) =~= models);
    assert(text::texts(kargs@).len() == kargs@.len());
    if kargs.len() == 0 {
        None
    } else {
        Some(text::join(&kargs, " "))
    }
}

} // verus!

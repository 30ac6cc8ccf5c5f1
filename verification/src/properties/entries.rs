//! What an entry of network data of version 1 says of its interface.

use crate::address;
use crate::address::{IpAddr, IpNetwork, MacAddr};
use crate::error;
use crate::error::ErrorModel;
use crate::network::{DhcpSetting, InterfaceModel, NetworkRoute};
use crate::networkdata;
use crate::networkdata::{NetworkConfigEntry, NetworkConfigSubnet};
use crate::text;
use vstd::prelude::*;

verus! {

/// Whether a network consists of an address and the prefix length that a netmask stands for.
pub open spec fn is_masked(network: IpNetwork, ip: IpAddr, mask: IpAddr) -> bool {
    match (network, ip) {
        (IpNetwork::V4 { ip: address, prefix }, IpAddr::V4(value)) => address == value && prefix
            <= 32 && mask.is_mask(prefix as nat),
        (IpNetwork::V6 { ip: address, prefix }, IpAddr::V6(value)) => address == value && prefix
            <= 128 && mask.is_mask(prefix as nat),
        _ => false,
    }
}

/// Whether the address of a subnet, together with its netmask if it has one, is a network.
pub open spec fn gives_network(subnet: NetworkConfigSubnet, network: IpNetwork) -> bool {
    match (subnet.address, subnet.netmask) {
        (None, _) => false,
        (Some(address), None) => address::ip_network_from_str(address@) == Some(network),
        (Some(address), Some(netmask)) => {
            &&& address::ip_addr_from_str(address@) matches Ok(ip)
            &&& address::ip_addr_from_str(netmask@) matches Ok(mask)
            &&& is_masked(network, ip, mask)
        },
    }
}

/// Whether the gateway of a subnet is that of a route for all addresses of its family.
pub open spec fn gives_route(subnet: NetworkConfigSubnet, route: NetworkRoute) -> bool {
    &&& subnet.gateway matches Some(gateway)
    &&& address::ip_addr_from_str(gateway@) == Ok::<IpAddr, Seq<char>>(route.gateway)
    &&& match route.gateway {
        IpAddr::V4(_) => route.destination == (IpNetwork::V4 { ip: 0, prefix: 0 }),
        IpAddr::V6(_) => route.destination == (IpNetwork::V6 { ip: 0, prefix: 0 }),
    }
}

/// The subnets whose type has the word `static` in it.
pub open spec fn static_subnets(subnets: Seq<NetworkConfigSubnet>) -> Seq<NetworkConfigSubnet> {
    subnets.filter(
        |subnet: NetworkConfigSubnet| text::occurs_in("static"@, subnet.subnet_type@),
    )
}

/// The static subnets that have a gateway.
pub open spec fn routed_subnets(subnets: Seq<NetworkConfigSubnet>) -> Seq<NetworkConfigSubnet> {
    subnets.filter(
        |subnet: NetworkConfigSubnet|
            text::occurs_in("static"@, subnet.subnet_type@) && subnet.gateway is Some,
    )
}

/// Whether a subnet asks for DHCP over IPv4.
pub open spec fn asks_dhcp4(subnet: NetworkConfigSubnet) -> bool {
    subnet.subnet_type@ == "dhcp"@ || subnet.subnet_type@ == "dhcp4"@
}

/// Whether a subnet asks for DHCP over IPv6.
pub open spec fn asks_dhcp6(subnet: NetworkConfigSubnet) -> bool {
    subnet.subnet_type@ == "dhcp6"@
}

/// Whether everything that a static subnet states can be read.
pub open spec fn is_readable(subnet: NetworkConfigSubnet) -> bool {
    &&& exists|network: IpNetwork| gives_network(subnet, network)
    &&& subnet.gateway matches Some(gateway) ==> address::ip_addr_from_str(gateway@) is Ok
}

pub(crate) proof fn masks_agree(ip: IpAddr, mask: IpAddr)
    ensures
        ip.with_mask(mask) matches Some(network) ==> is_masked(network, ip, mask),
        forall|network: IpNetwork|
            #[trigger] is_masked(network, ip, mask) ==> ip.with_mask(mask) == Some(network),
{
    assert forall|network: IpNetwork| #[trigger] is_masked(network, ip, mask) implies ip.with_mask(
        mask,
    ) == Some(network) by {
        let prefix = match network {
            IpNetwork::V4 { prefix, .. } => prefix,
            IpNetwork::V6 { prefix, .. } => prefix,
        };
        assert(mask.is_mask(prefix as nat));
        let found = choose|found: u8| mask.is_mask(found as nat);
        super::mask_prefix_is_unique(mask, prefix as nat, found as nat);
    }
}

proof fn networks_agree(subnet: NetworkConfigSubnet)
    ensures
        subnet.network() matches Ok(network) ==> gives_network(subnet, network),
        forall|network: IpNetwork|
            #[trigger] gives_network(subnet, network) ==> subnet.network() == Ok::<
                IpNetwork,
                ErrorModel,
            >(network),
        subnet.route() is Ok <==> (subnet.gateway matches Some(gateway)
            ==> address::ip_addr_from_str(gateway@) is Ok),
        subnet.route() matches Ok(Some(route)) ==> gives_route(subnet, route),
        subnet.route() matches Ok(None) ==> subnet.gateway is None,
{
    if let (Some(address), Some(netmask)) = (subnet.address, subnet.netmask) {
        if let (Ok(ip), Ok(mask)) = (
            address::ip_addr_from_str(address@),
            address::ip_addr_from_str(netmask@),
        ) {
            masks_agree(ip, mask);
        }
    }
}

proof fn subnets_agree(subnets: Seq<NetworkConfigSubnet>)
    requires
        forall|i: int| 0 <= i < subnets.len() ==> (#[trigger] subnets[i]).accepted() is Ok,
    ensures
        ({
            let networks = networkdata::static_networks(subnets);
            let routes = networkdata::static_routes(subnets);
            &&& networks.len() == static_subnets(subnets).len()
            &&& forall|i: int|
                0 <= i < networks.len() ==> gives_network(
                    static_subnets(subnets)[i],
                    #[trigger] networks[i],
                )
            &&& routes.len() == routed_subnets(subnets).len()
            &&& forall|i: int|
                0 <= i < routes.len() ==> gives_route(
                    routed_subnets(subnets)[i],
                    #[trigger] routes[i],
                )
        }),
    decreases subnets.len(),
{
    reveal(Seq::filter);
    if subnets.len() > 0 {
        let before = subnets.drop_last();
        let last = subnets.last();
        assert(subnets[subnets.len() - 1] == last);
        assert forall|i: int| 0 <= i < before.len() implies (
        #[trigger] before[i]).accepted() is Ok by {
            assert(before[i] == subnets[i]);
        }
        subnets_agree(before);
        networks_agree(last);
        let networks = networkdata::static_networks(subnets);
        let routes = networkdata::static_routes(subnets);
        assert forall|i: int| 0 <= i < networks.len() implies gives_network(
            static_subnets(subnets)[i],
            #[trigger] networks[i],
        ) by {
            if i < networkdata::static_networks(before).len() {
                assert(networks[i] == networkdata::static_networks(before)[i]);
            }
        }
        assert forall|i: int| 0 <= i < routes.len() implies gives_route(
            routed_subnets(subnets)[i],
            #[trigger] routes[i],
        ) by {
            if i < networkdata::static_routes(before).len() {
                assert(routes[i] == networkdata::static_routes(before)[i]);
            }
        }
    }
}

proof fn dhcp_types_differ()
    ensures
        "dhcp"@ != "dhcp6"@,
        "dhcp4"@ != "dhcp6"@,
{
    reveal_strlit("dhcp");
    reveal_strlit("dhcp4");
    reveal_strlit("dhcp6");
    assert("dhcp"@.len() != "dhcp6"@.len());
    assert("dhcp4"@[4] != "dhcp6"@[4]);
}

proof fn last_setting_is_found(subnets: Seq<NetworkConfigSubnet>, n: int)
    requires
        0 <= n < subnets.len(),
        asks_dhcp4(subnets[n]) || asks_dhcp6(subnets[n]),
        forall|i: int|
            n < i < subnets.len() ==> !asks_dhcp4(#[trigger] subnets[i]) && !asks_dhcp6(subnets[i]),
    ensures
        networkdata::last_dhcp(subnets) == Some(
            if asks_dhcp4(subnets[n]) {
                DhcpSetting::V4
            } else {
                DhcpSetting::V6
            },
        ),
    decreases subnets.len(),
{
    dhcp_types_differ();
    let before = subnets.drop_last();
    if n < before.len() {
        assert(before[n] == subnets[n]);
        assert forall|i: int| n < i < before.len() implies !asks_dhcp4(#[trigger] before[i])
            && !asks_dhcp6(before[i]) by {
            assert(before[i] == subnets[i]);
        }
        last_setting_is_found(before, n);
        assert(!asks_dhcp4(subnets[subnets.len() - 1]));
        assert(networkdata::dhcp_settings(subnets) == networkdata::dhcp_settings(before));
    } else {
        assert(subnets.last() == subnets[n]);
        assert(networkdata::dhcp_settings(subnets).last() == subnets[n].dhcp()->Some_0);
    }
}

proof fn no_setting_is_found(subnets: Seq<NetworkConfigSubnet>)
    requires
        forall|i: int|
            0 <= i < subnets.len() ==> !asks_dhcp4(#[trigger] subnets[i]) && !asks_dhcp6(subnets[i]),
    ensures
        networkdata::dhcp_settings(subnets).len() == 0,
    decreases subnets.len(),
{
    if subnets.len() > 0 {
        let before = subnets.drop_last();
        assert forall|i: int| 0 <= i < before.len() implies !asks_dhcp4(#[trigger] before[i])
            && !asks_dhcp6(before[i]) by {
            assert(before[i] == subnets[i]);
        }
        no_setting_is_found(before);
        assert(!asks_dhcp4(subnets[subnets.len() - 1]));
    }
}

proof fn acceptance_agrees(subnets: Seq<NetworkConfigSubnet>)
    ensures
        networkdata::subnets_accepted(subnets) is Ok <==> forall|i: int|
            0 <= i < subnets.len() ==> (#[trigger] subnets[i]).accepted() is Ok,
{
    let results = subnets.map_values(|subnet: NetworkConfigSubnet| subnet.accepted());
    error::collected_meaning(results);
    assert forall|i: int| 0 <= i < subnets.len() implies results[i] == (
    #[trigger] subnets[i]).accepted() by {}
    if networkdata::subnets_accepted(subnets) is Err {
        let i = choose|i: int| 0 <= i < results.len() && #[trigger] results[i] is Err;
        assert(subnets[i].accepted() is Err);
    } else {
        assert forall|i: int| 0 <= i < subnets.len() implies (
        #[trigger] subnets[i]).accepted() is Ok by {
            assert(results[i] is Ok);
        }
    }
}

proof fn readable_is_accepted(subnet: NetworkConfigSubnet)
    ensures
        subnet.accepted() is Ok <==> (text::occurs_in("static"@, subnet.subnet_type@)
            ==> is_readable(subnet)),
{
    networks_agree(subnet);
    if subnet.network() is Ok {
        assert(gives_network(subnet, subnet.network()->Ok_0));
    }
}

/// The interface of an entry has the name of the entry, its MAC address as `pnet_base` reads
/// it, one address for each static subnet and one default route for each that has a gateway,
/// both in the order of the subnets, and nothing else but DHCP.
pub proof fn entry_gives_its_interface(entry: NetworkConfigEntry)
    ensures
        entry.interface() matches Ok(iface) ==> {
            let statics = static_subnets(entry.subnets@);
            let routed = routed_subnets(entry.subnets@);
            &&& iface.name == entry.name.deep_view()
            &&& match entry.mac_address {
                None => iface.mac_address is None,
                Some(text) => iface.mac_address is Some && address::mac_addr_from_str(text@)
                    == Ok::<MacAddr, Seq<char>>(iface.mac_address->Some_0),
            }
            &&& iface.ip_addresses.len() == statics.len()
            &&& forall|i: int|
                0 <= i < statics.len() ==> gives_network(
                    statics[i],
                    #[trigger] iface.ip_addresses[i],
                )
            &&& iface.routes.len() == routed.len()
            &&& forall|i: int|
                0 <= i < routed.len() ==> gives_route(routed[i], #[trigger] iface.routes[i])
            &&& iface.nameservers.len() == 0
            &&& iface.path is None
            &&& iface.priority == 20
            &&& iface.bond is None
            &&& !iface.unmanaged
            &&& iface.required_for_online is None
        },
{
    if entry.interface() is Ok {
        acceptance_agrees(entry.subnets@);
        subnets_agree(entry.subnets@);
    }
}

/// The last subnet of an entry that asks for DHCP decides for which family.
pub proof fn last_dhcp_subnet_decides(entry: NetworkConfigEntry, n: int)
    requires
        0 <= n < entry.subnets@.len(),
        asks_dhcp4(entry.subnets@[n]) || asks_dhcp6(entry.subnets@[n]),
        forall|i: int|
            n < i < entry.subnets@.len() ==> !asks_dhcp4(#[trigger] entry.subnets@[i])
                && !asks_dhcp6(entry.subnets@[i]),
    ensures
        entry.interface() matches Ok(iface) ==> {
            &&& asks_dhcp4(entry.subnets@[n]) ==> iface.dhcp == Some(DhcpSetting::V4)
            &&& asks_dhcp6(entry.subnets@[n]) ==> iface.dhcp == Some(DhcpSetting::V6)
        },
{
    dhcp_types_differ();
    last_setting_is_found(entry.subnets@, n);
}

/// Without a subnet that asks for DHCP the interface of an entry does not use it.
pub proof fn dhcp_is_asked_for(entry: NetworkConfigEntry)
    requires
        forall|i: int|
            0 <= i < entry.subnets@.len() ==> !asks_dhcp4(#[trigger] entry.subnets@[i])
                && !asks_dhcp6(entry.subnets@[i]),
    ensures
        entry.interface() matches Ok(iface) ==> iface.dhcp is None,
{
    no_setting_is_found(entry.subnets@);
}

/// An entry is accepted exactly if it is a physical one, its static subnets can be read and its
/// MAC address can be read if it has one.
pub proof fn entry_is_accepted_if_readable(entry: NetworkConfigEntry)
    ensures
        entry.interface() is Ok <==> {
            &&& entry.network_type@ == "physical"@
            &&& forall|i: int|
                0 <= i < entry.subnets@.len() && text::occurs_in(
                    "static"@,
                    (#[trigger] entry.subnets@[i]).subnet_type@,
                ) ==> is_readable(entry.subnets@[i])
            &&& entry.mac_address matches Some(text) ==> address::mac_addr_from_str(text@) is Ok
        },
{
    let subnets = entry.subnets@;
    acceptance_agrees(subnets);
    assert forall|i: int| 0 <= i < subnets.len() implies ((
    #[trigger] subnets[i]).accepted() is Ok <==> (text::occurs_in(
        "static"@,
        subnets[i].subnet_type@,
    ) ==> is_readable(subnets[i]))) by {
        readable_is_accepted(subnets[i]);
    }
    if forall|i: int|
        0 <= i < subnets.len() && text::occurs_in(
            "static"@,
            (#[trigger] subnets[i]).subnet_type@,
        ) ==> is_readable(subnets[i]) {
        assert forall|i: int| 0 <= i < subnets.len() implies (
        #[trigger] subnets[i]).accepted() is Ok by {
            readable_is_accepted(subnets[i]);
        }
    }
}

/// Why a static subnet cannot be read: there is no address, or the first of its address, its
/// netmask, the two together and its gateway that cannot be read.
pub open spec fn is_reason(subnet: NetworkConfigSubnet, reason: ErrorModel) -> bool {
    match (subnet.address, subnet.netmask) {
        (None, _) => reason == ErrorModel::MissingAddress,
        (Some(address), None) => match address::ip_network_from_str(address@) {
            None => reason == ErrorModel::InvalidIpNetwork("invalid address: "@ + address@),
            Some(_) => is_gateway_reason(subnet, reason),
        },
        (Some(address), Some(netmask)) => match (
            address::ip_addr_from_str(address@),
            address::ip_addr_from_str(netmask@),
        ) {
            (Err(message), _) => reason == ErrorModel::InvalidIpAddr(message),
            (Ok(_), Err(message)) => reason == ErrorModel::InvalidIpAddr(message),
            (Ok(ip), Ok(mask)) => if exists|network: IpNetwork| is_masked(network, ip, mask) {
                is_gateway_reason(subnet, reason)
            } else {
                reason == ErrorModel::InvalidIpNetwork("invalid prefix"@)
            },
        },
    }
}

/// Why the gateway of a subnet cannot be read.
pub open spec fn is_gateway_reason(subnet: NetworkConfigSubnet, reason: ErrorModel) -> bool {
    &&& subnet.gateway matches Some(gateway)
    &&& address::ip_addr_from_str(gateway@) matches Err(message)
    &&& reason == ErrorModel::InvalidIpAddr(message)
}

/// Of what cannot be read of a physical entry, the first subnet is reported.
pub proof fn first_unreadable_subnet_is_reported(
    entry: NetworkConfigEntry,
    n: int,
    reason: ErrorModel,
)
    requires
        entry.network_type@ == "physical"@,
        0 <= n < entry.subnets@.len(),
        text::occurs_in("static"@, entry.subnets@[n].subnet_type@),
        is_reason(entry.subnets@[n], reason),
        forall|i: int|
            0 <= i < n && text::occurs_in(
                "static"@,
                (#[trigger] entry.subnets@[i]).subnet_type@,
            ) ==> is_readable(entry.subnets@[i]),
    ensures
        entry.interface() == Err::<InterfaceModel, ErrorModel>(reason),
{
    let subnets = entry.subnets@;
    let results = subnets.map_values(|subnet: NetworkConfigSubnet| subnet.accepted());
    error::collected_meaning(results);
    let subnet = subnets[n];
    networks_agree(subnet);
    if let (Some(address), Some(netmask)) = (subnet.address, subnet.netmask) {
        if let (Ok(ip), Ok(mask)) = (
            address::ip_addr_from_str(address@),
            address::ip_addr_from_str(netmask@),
        ) {
            masks_agree(ip, mask);
            if ip.with_mask(mask) is Some {
                assert(is_masked(ip.with_mask(mask)->Some_0, ip, mask));
            }
        }
    }
    assert(results[n] == subnet.accepted());
    assert(results[n] == Err::<(), ErrorModel>(reason));
    assert forall|i: int| 0 <= i < n implies #[trigger] results[i] is Ok by {
        readable_is_accepted(subnets[i]);
        assert(results[i] == subnets[i].accepted());
    }
    match error::collected(results) {
        Ok(values) => {
            assert(results[n] == Ok::<(), ErrorModel>(values[n]));
        },
        Err(error) => {
            let i = choose|i: int|
                {
                    &&& 0 <= i < results.len()
                    &&& #[trigger] results[i] == Err::<(), ErrorModel>(error)
                    &&& forall|j: int| 0 <= j < i ==> #[trigger] results[j] is Ok
                };
            assert(i == n);
        },
    }
}

/// A physical entry all of whose subnets can be read is refused for its MAC address, with what
/// `pnet_base` says of it. An entry of another type is refused for its type.
pub proof fn mac_address_and_type_are_reported(entry: NetworkConfigEntry)
    ensures
        entry.network_type@ != "physical"@ ==> entry.interface() == Err::<
            InterfaceModel,
            ErrorModel,
        >(ErrorModel::UnsupportedConfigType(entry.network_type@)),
        entry.network_type@ == "physical"@ && (forall|i: int|
            0 <= i < entry.subnets@.len() && text::occurs_in(
                "static"@,
                (#[trigger] entry.subnets@[i]).subnet_type@,
            ) ==> is_readable(entry.subnets@[i])) ==> (entry.mac_address matches Some(text)
            ==> address::mac_addr_from_str(text@) matches Err(message) ==> entry.interface()
            == Err::<InterfaceModel, ErrorModel>(ErrorModel::InvalidMacAddr(message))),
{
    let subnets = entry.subnets@;
    acceptance_agrees(subnets);
    if forall|i: int|
        0 <= i < subnets.len() && text::occurs_in(
            "static"@,
            (#[trigger] subnets[i]).subnet_type@,
        ) ==> is_readable(subnets[i]) {
        assert forall|i: int| 0 <= i < subnets.len() implies (
        #[trigger] subnets[i]).accepted() is Ok by {
            readable_is_accepted(subnets[i]);
        }
    }
}

} // verus!

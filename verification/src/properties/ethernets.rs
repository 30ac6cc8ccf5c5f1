//! What an ethernet of network data of version 2 says of its interface.

use crate::address;
use crate::address::{IpAddr, IpNetwork, MacAddr};
use crate::error;
use crate::error::ErrorModel;
use crate::network::{DhcpSetting, InterfaceModel};
use crate::networkdata;
use crate::networkdata::EthernetV2;
use vstd::prelude::*;

verus! {

/// The text that the MAC address of an ethernet is stated in.
pub open spec fn stated_mac(ethernet: EthernetV2) -> Option<Seq<char>> {
    match ethernet.match_config {
        Some(found) => found.macaddress.deep_view(),
        None => None,
    }
}

/// The texts that the DNS servers of an ethernet are stated in.
pub open spec fn stated_nameservers(ethernet: EthernetV2) -> Seq<String> {
    match ethernet.nameservers {
        Some(nameservers) => nameservers.addresses@,
        None => Seq::empty(),
    }
}

/// Whether a gateway can be read, if there is one.
pub open spec fn gateway_reads(gateway: Option<String>) -> bool {
    gateway matches Some(text) ==> address::ip_addr_from_str(text@) is Ok
}

/// Whether all texts are IP addresses.
pub open spec fn all_addresses(texts: Seq<String>) -> bool {
    forall|i: int|
        0 <= i < texts.len() ==> address::ip_addr_from_str((#[trigger] texts[i])@) is Ok
}

/// Whether all texts are IP networks.
pub open spec fn all_networks(texts: Seq<String>) -> bool {
    forall|i: int|
        0 <= i < texts.len() ==> address::ip_network_from_str((#[trigger] texts[i])@) is Some
}

/// A list of addresses is read, if each text is one, to their addresses in order, and else
/// refused for the first text that is none.
pub proof fn address_lists_are_read(texts: Seq<String>)
    ensures
        networkdata::addresses_of(texts) is Ok <==> all_addresses(texts),
        networkdata::addresses_of(texts) matches Ok(addresses) ==> addresses.len() == texts.len()
            && forall|i: int|
            0 <= i < texts.len() ==> address::ip_addr_from_str((#[trigger] texts[i])@) == Ok::<
                IpAddr,
                Seq<char>,
            >(addresses[i]),
        networkdata::addresses_of(texts) matches Err(reason) ==> exists|i: int|
            {
                &&& 0 <= i < texts.len()
                &&& address::ip_addr_from_str((#[trigger] texts[i])@) matches Err(message)
                &&& reason == ErrorModel::InvalidIpAddr(message)
                &&& all_addresses(texts.take(i))
            },
{
    let results = texts.map_values(|text: String| IpAddr::of_text(text@));
    error::collected_meaning(results);
    assert forall|i: int| 0 <= i < texts.len() implies results[i] == IpAddr::of_text(
        (#[trigger] texts[i])@,
    ) by {}
    match error::collected(results) {
        Ok(addresses) => {
            assert forall|i: int| 0 <= i < texts.len() implies address::ip_addr_from_str(
                (#[trigger] texts[i])@,
            ) == Ok::<IpAddr, Seq<char>>(addresses[i]) by {
                assert(results[i] == Ok::<IpAddr, ErrorModel>(addresses[i]));
            }
        },
        Err(reason) => {
            let n = choose|n: int|
                {
                    &&& 0 <= n < results.len()
                    &&& #[trigger] results[n] == Err::<IpAddr, ErrorModel>(reason)
                    &&& forall|j: int| 0 <= j < n ==> #[trigger] results[j] is Ok
                };
            let before = texts.take(n);
            assert forall|i: int| 0 <= i < before.len() implies address::ip_addr_from_str(
                (#[trigger] before[i])@,
            ) is Ok by {
                assert(before[i] == texts[i]);
                assert(results[i] is Ok);
            }
            assert(address::ip_addr_from_str(texts[n]@) is Err);
        },
    }
}

/// A list of networks is read, if each text is one, to their networks in order, and else
/// refused for the first text that is none.
pub proof fn network_lists_are_read(texts: Seq<String>)
    ensures
        networkdata::networks_of(texts) is Ok <==> all_networks(texts),
        networkdata::networks_of(texts) matches Ok(networks) ==> networks.len() == texts.len()
            && forall|i: int|
            0 <= i < texts.len() ==> address::ip_network_from_str((#[trigger] texts[i])@) == Some(
                networks[i],
            ),
        networkdata::networks_of(texts) matches Err(reason) ==> exists|i: int|
            {
                &&& 0 <= i < texts.len()
                &&& address::ip_network_from_str((#[trigger] texts[i])@) is None
                &&& reason == ErrorModel::InvalidIpNetwork("invalid address: "@ + texts[i]@)
                &&& all_networks(texts.take(i))
            },
{
    let results = texts.map_values(|text: String| IpNetwork::of_text(text@));
    error::collected_meaning(results);
    assert forall|i: int| 0 <= i < texts.len() implies results[i] == IpNetwork::of_text(
        (#[trigger] texts[i])@,
    ) by {}
    match error::collected(results) {
        Ok(networks) => {
            assert forall|i: int| 0 <= i < texts.len() implies address::ip_network_from_str(
                (#[trigger] texts[i])@,
            ) == Some(networks[i]) by {
                assert(results[i] == Ok::<IpNetwork, ErrorModel>(networks[i]));
            }
        },
        Err(reason) => {
            let n = choose|n: int|
                {
                    &&& 0 <= n < results.len()
                    &&& #[trigger] results[n] == Err::<IpNetwork, ErrorModel>(reason)
                    &&& forall|j: int| 0 <= j < n ==> #[trigger] results[j] is Ok
                };
            let before = texts.take(n);
            assert forall|i: int| 0 <= i < before.len() implies address::ip_network_from_str(
                (#[trigger] before[i])@,
            ) is Some by {
                assert(before[i] == texts[i]);
                assert(results[i] is Ok);
            }
            assert(address::ip_network_from_str(texts[n]@) is None);
        },
    }
}

/// The interface of an ethernet has the name that it is found by, or else the one that it is
/// listed under, its MAC address as `pnet_base` reads it, its addresses and its DNS servers in
/// their order, and nothing else but default routes and DHCP.
pub proof fn ethernet_gives_its_interface(ethernet: EthernetV2, name: Seq<char>)
    ensures
        ethernet.interface(name) matches Ok(iface) ==> {
            let servers = stated_nameservers(ethernet);
            &&& iface.name == (match ethernet.match_config {
                Some(found) => match found.name {
                    Some(other) => Some(other@),
                    None => Some(name),
                },
                None => Some(name),
            })
            &&& match stated_mac(ethernet) {
                None => iface.mac_address is None,
                Some(text) => iface.mac_address is Some && address::mac_addr_from_str(text) == Ok::<
                    MacAddr,
                    Seq<char>,
                >(iface.mac_address->Some_0),
            }
            &&& iface.ip_addresses.len() == ethernet.addresses@.len()
            &&& forall|i: int|
                0 <= i < iface.ip_addresses.len() ==> address::ip_network_from_str(
                    ethernet.addresses@[i]@,
                ) == Some(#[trigger] iface.ip_addresses[i])
            &&& iface.nameservers.len() == servers.len()
            &&& forall|i: int|
                0 <= i < servers.len() ==> address::ip_addr_from_str(servers[i]@) == Ok::<
                    IpAddr,
                    Seq<char>,
                >(#[trigger] iface.nameservers[i])
            &&& iface.path is None
            &&& iface.priority == 20
            &&& iface.bond is None
            &&& !iface.unmanaged
            &&& iface.required_for_online is None
        },
{
    network_lists_are_read(ethernet.addresses@);
    address_lists_are_read(stated_nameservers(ethernet));
    if ethernet.interface(name) is Ok {
        let iface = ethernet.interface(name)->Ok_0;
        assert forall|i: int|
            0 <= i < iface.ip_addresses.len() implies address::ip_network_from_str(
            ethernet.addresses@[i]@,
        ) == Some(#[trigger] iface.ip_addresses[i]) by {
            let text = ethernet.addresses@[i];
            assert(address::ip_network_from_str(text@) is Some);
        }
        assert forall|i: int|
            0 <= i < stated_nameservers(ethernet).len() implies address::ip_addr_from_str(
            stated_nameservers(ethernet)[i]@,
        ) == Ok::<IpAddr, Seq<char>>(#[trigger] iface.nameservers[i]) by {
            let text = stated_nameservers(ethernet)[i];
            assert(address::ip_addr_from_str(text@) is Ok);
        }
    }
}

/// The routes of an ethernet are one for all IPv4 addresses over its IPv4 gateway, if it has
/// one, and behind it one for all IPv6 addresses over its IPv6 gateway, if it has one.
pub proof fn ethernet_routes_over_its_gateways(ethernet: EthernetV2, name: Seq<char>)
    ensures
        ethernet.interface(name) matches Ok(iface) ==> {
            let n: int = if ethernet.gateway4 is Some {
                1
            } else {
                0
            };
            let m: int = if ethernet.gateway6 is Some {
                1
            } else {
                0
            };
            &&& iface.routes.len() == n + m
            &&& ethernet.gateway4 matches Some(text) ==> {
                &&& iface.routes[0].destination == (IpNetwork::V4 { ip: 0, prefix: 0 })
                &&& address::ip_addr_from_str(text@) == Ok::<IpAddr, Seq<char>>(
                    iface.routes[0].gateway,
                )
            }
            &&& ethernet.gateway6 matches Some(text) ==> {
                &&& iface.routes[n].destination == (IpNetwork::V6 { ip: 0, prefix: 0 })
                &&& address::ip_addr_from_str(text@) == Ok::<IpAddr, Seq<char>>(
                    iface.routes[n].gateway,
                )
            }
        },
{
}

/// An ethernet uses DHCP for a family exactly if the switch for that family is on.
pub proof fn dhcp_follows_switches(ethernet: EthernetV2, name: Seq<char>)
    ensures
        ethernet.interface(name) matches Ok(iface) ==> {
            &&& (iface.dhcp == Some(DhcpSetting::V4) || iface.dhcp == Some(DhcpSetting::Both))
                <==> ethernet.dhcp4 == Some(true)
            &&& (iface.dhcp == Some(DhcpSetting::V6) || iface.dhcp == Some(DhcpSetting::Both))
                <==> ethernet.dhcp6 == Some(true)
        },
{
}

/// A switch that is off and one that is missing give the same interface.
pub proof fn switch_off_is_switch_missing(
    ethernet: EthernetV2,
    dhcp4: Option<bool>,
    dhcp6: Option<bool>,
    name: Seq<char>,
)
    requires
        dhcp4 == Some(true) <==> ethernet.dhcp4 == Some(true),
        dhcp6 == Some(true) <==> ethernet.dhcp6 == Some(true),
    ensures
        (EthernetV2 { dhcp4, dhcp6, ..ethernet }).interface(name) == ethernet.interface(name),
{
}

/// An ethernet is accepted exactly if everything that it states can be read.
pub proof fn ethernet_is_accepted_if_readable(ethernet: EthernetV2, name: Seq<char>)
    ensures
        ethernet.interface(name) is Ok <==> {
            &&& stated_mac(ethernet) matches Some(text) ==> address::mac_addr_from_str(text) is Ok
            &&& all_networks(ethernet.addresses@)
            &&& gateway_reads(ethernet.gateway4)
            &&& gateway_reads(ethernet.gateway6)
            &&& all_addresses(stated_nameservers(ethernet))
        },
{
    network_lists_are_read(ethernet.addresses@);
    address_lists_are_read(stated_nameservers(ethernet));
}

/// Of what cannot be read of an ethernet, the first is reported: the MAC address, an address,
/// the IPv4 gateway, the IPv6 gateway, a DNS server.
pub proof fn first_fault_of_ethernet_is_reported(ethernet: EthernetV2, name: Seq<char>)
    ensures
        stated_mac(ethernet) matches Some(text) ==> address::mac_addr_from_str(text) matches Err(
            message,
        ) ==> ethernet.interface(name) == Err::<InterfaceModel, ErrorModel>(
            ErrorModel::InvalidMacAddr(message),
        ),
        (stated_mac(ethernet) matches Some(text) ==> address::mac_addr_from_str(text) is Ok) ==> {
            &&& networkdata::networks_of(ethernet.addresses@) matches Err(reason)
                ==> ethernet.interface(name) == Err::<InterfaceModel, ErrorModel>(reason)
            &&& all_networks(ethernet.addresses@) ==> {
                &&& ethernet.gateway4 matches Some(text) ==> address::ip_addr_from_str(
                    text@,
                ) matches Err(message) ==> ethernet.interface(name) == Err::<
                    InterfaceModel,
                    ErrorModel,
                >(ErrorModel::InvalidIpAddr(message))
                &&& gateway_reads(ethernet.gateway4) ==> (ethernet.gateway6 matches Some(text)
                    ==> address::ip_addr_from_str(text@) matches Err(message)
                    ==> ethernet.interface(name) == Err::<InterfaceModel, ErrorModel>(
                    ErrorModel::InvalidIpAddr(message),
                ))
                &&& gateway_reads(ethernet.gateway4) && gateway_reads(ethernet.gateway6) ==> (
                networkdata::addresses_of(stated_nameservers(ethernet)) matches Err(reason)
                    ==> ethernet.interface(name) == Err::<InterfaceModel, ErrorModel>(reason))
            }
        },
{
    network_lists_are_read(ethernet.addresses@);
    address_lists_are_read(stated_nameservers(ethernet));
}

} // verus!

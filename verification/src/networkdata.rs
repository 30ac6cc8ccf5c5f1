//! The network data of a config-drive, in both versions of the cloud-init format, and the
//! interfaces that it describes.

use crate::address;
use crate::address::{IpAddr, IpNetwork, MacAddr};
use crate::error;
use crate::error::{Error, ErrorModel};
use crate::network::{DhcpSetting, Interface, InterfaceModel, NetworkRoute};
use crate::text;
use vstd::prelude::*;

verus! {

/// Network data of version 1: a flat list of entries of several types.
#[derive(Debug)]
pub struct NetworkDataV1 {
    pub version: u32,
    pub config: Vec<NetworkConfigEntry>,
}

/// Network data of version 2, of which only the physical ethernet interfaces are read.
#[derive(Debug)]
pub struct NetworkDataV2 {
    pub version: u32,
    /// Physical ethernet interfaces with the names that they are listed under, each name once.
    pub ethernets: Vec<(String, EthernetV2)>,
}

/// An ethernet interface of version 2.
#[derive(Debug)]
pub struct EthernetV2 {
    /// Which interface is meant, where its name is not enough.
    pub match_config: Option<MatchV2>,
    /// Static IP addresses in CIDR notation.
    pub addresses: Vec<String>,
    /// Whether to use DHCP for IPv4.
    pub dhcp4: Option<bool>,
    /// Whether to use DHCP for IPv6.
    pub dhcp6: Option<bool>,
    /// IPv4 default gateway.
    pub gateway4: Option<String>,
    /// IPv6 default gateway.
    pub gateway6: Option<String>,
    /// DNS servers.
    pub nameservers: Option<NameserversV2>,
}

/// By which MAC address or name an interface of version 2 is found.
#[derive(Debug)]
pub struct MatchV2 {
    pub macaddress: Option<String>,
    pub name: Option<String>,
}

/// The DNS servers of an interface of version 2.
#[derive(Debug)]
pub struct NameserversV2 {
    pub addresses: Vec<String>,
}

/// Network data of either version.
#[derive(Debug)]
pub enum NetworkData {
    V1(NetworkDataV1),
    V2(NetworkDataV2),
}

/// An entry of version 1.
#[derive(Debug)]
pub struct NetworkConfigEntry {
    pub network_type: String,
    pub name: Option<String>,
    pub mac_address: Option<String>,
    pub address: Vec<String>,
    pub subnets: Vec<NetworkConfigSubnet>,
}

/// A subnet of an entry of version 1.
#[derive(Debug)]
pub struct NetworkConfigSubnet {
    pub subnet_type: String,
    pub address: Option<String>,
    pub netmask: Option<String>,
    pub gateway: Option<String>,
}

/// The default route over a gateway, for the address family of the gateway.
pub open spec fn default_route(gateway: IpAddr) -> NetworkRoute {
    NetworkRoute {
        destination: if gateway is V6 {
            address::everything_v6()
        } else {
            address::everything_v4()
        },
        gateway,
    }
}

impl NetworkConfigSubnet {
    /// Whether the subnet gives the interface a static address.
    pub open spec fn is_static(self) -> bool {
        text::occurs_in("static"@, self.subnet_type@)
    }

    /// The network of a static subnet: its address, which holds the prefix length unless
    /// there is a netmask.
    pub open spec fn network(self) -> Result<IpNetwork, ErrorModel> {
        match (self.address, self.netmask) {
            (None, _) => Err(ErrorModel::MissingAddress),
            (Some(address), None) => IpNetwork::of_text(address@),
            (Some(address), Some(netmask)) => {
                match (IpAddr::of_text(address@), IpAddr::of_text(netmask@)) {
                    (Ok(ip), Ok(mask)) => IpNetwork::of_netmask(ip, mask),
                    (Ok(_), Err(error)) => Err(error),
                    (Err(error), _) => Err(error),
                }
            },
        }
    }

    /// The route over the gateway of a static subnet, if it has one.
    pub open spec fn route(self) -> Result<Option<NetworkRoute>, ErrorModel> {
        match self.gateway {
            None => Ok(None),
            Some(gateway) => match IpAddr::of_text(gateway@) {
                Ok(ip) => Ok(Some(default_route(ip))),
                Err(error) => Err(error),
            },
        }
    }

    /// Whether the subnet can be read, or why not.
    pub open spec fn accepted(self) -> Result<(), ErrorModel> {
        if !self.is_static() {
            Ok(())
        } else {
            match (self.network(), self.route()) {
                (Ok(_), Ok(_)) => Ok(()),
                (Ok(_), Err(error)) => Err(error),
                (Err(error), _) => Err(error),
            }
        }
    }

    /// The address that the subnet adds to its interface.
    pub open spec fn static_network(self) -> Option<IpNetwork> {
        if self.is_static() && self.network() is Ok {
            Some(self.network()->Ok_0)
        } else {
            None
        }
    }

    /// The route that the subnet adds to its interface.
    pub open spec fn static_route(self) -> Option<NetworkRoute> {
        if self.is_static() && self.route() is Ok {
            self.route()->Ok_0
        } else {
            None
        }
    }

    /// The DHCP setting that the type of the subnet asks for.
    pub open spec fn dhcp(self) -> Option<DhcpSetting> {
        if self.subnet_type@ == "dhcp"@ || self.subnet_type@ == "dhcp4"@ {
            Some(DhcpSetting::V4)
        } else if self.subnet_type@ == "dhcp6"@ {
            Some(DhcpSetting::V6)
        } else {
            None
        }
    }
}

/// Whether all subnets can be read, or why the first that cannot be read is refused.
pub open spec fn subnets_accepted(subnets: Seq<NetworkConfigSubnet>) -> Result<
    Seq<()>,
    ErrorModel,
> {
    error::collected(subnets.map_values(|subnet: NetworkConfigSubnet| subnet.accepted()))
}

/// The static addresses of the subnets, in their order.
pub open spec fn static_networks(subnets: Seq<NetworkConfigSubnet>) -> Seq<IpNetwork> {
    subnets.filter_map(|subnet: NetworkConfigSubnet| subnet.static_network())
}

/// The routes of the static subnets, in their order.
pub open spec fn static_routes(subnets: Seq<NetworkConfigSubnet>) -> Seq<NetworkRoute> {
    subnets.filter_map(|subnet: NetworkConfigSubnet| subnet.static_route())
}

/// The DHCP settings that the subnets ask for, in their order.
pub open spec fn dhcp_settings(subnets: Seq<NetworkConfigSubnet>) -> Seq<DhcpSetting> {
    subnets.filter_map(|subnet: NetworkConfigSubnet| subnet.dhcp())
}

/// The last of the DHCP settings that the subnets ask for.
pub open spec fn last_dhcp(subnets: Seq<NetworkConfigSubnet>) -> Option<DhcpSetting> {
    if dhcp_settings(subnets).len() > 0 {
        Some(dhcp_settings(subnets).last())
    } else {
        None
    }
}

impl NetworkConfigEntry {
    /// The interface that the entry describes: a physical one, with an address and perhaps
    /// a default route from each static subnet, and the DHCP setting of the last subnet
    /// that asks for one. The first thing that cannot be read is the reason of a refusal,
    /// subnets before the MAC address.
    pub open spec fn interface(self) -> Result<InterfaceModel, ErrorModel> {
        if self.network_type@ != "physical"@ {
            Err(ErrorModel::UnsupportedConfigType(self.network_type@))
        } else {
            match (subnets_accepted(self.subnets@), optional_mac(self.mac_address)) {
                (Ok(_), Ok(mac_address)) => Ok(
                    InterfaceModel {
                        mac_address,
                        ip_addresses: static_networks(self.subnets@),
                        routes: static_routes(self.subnets@),
                        dhcp: last_dhcp(self.subnets@),
                        ..InterfaceModel::named(self.name.deep_view())
                    },
                ),
                (Ok(_), Err(error)) => Err(error),
                (Err(error), _) => Err(error),
            }
        }
    }
}

/// The MAC address that an optional text is read as.
pub open spec fn optional_mac(text: Option<String>) -> Result<Option<MacAddr>, ErrorModel> {
    match text {
        None => Ok(None),
        Some(text) => match MacAddr::of_text(text@) {
            Ok(mac) => Ok(Some(mac)),
            Err(error) => Err(error),
        },
    }
}

/// Reads a MAC address, where there is one.
fn read_optional_mac(text: &Option<String>) -> (result: Result<Option<MacAddr>, Error>)
    ensures
        error::outcome(result) == optional_mac(*text),
{
    match text {
        None => Ok(None),
        Some(text) => match MacAddr::from_str(text.as_str()) {
            Ok(mac) => Ok(Some(mac)),
            Err(error) => Err(error),
        },
    }
}

impl NetworkConfigSubnet {
    /// The network of a static subnet.
    fn read_network(&self) -> (result: Result<IpNetwork, Error>)
        ensures
            error::outcome(result) == self.network(),
            result is Ok ==> result->Ok_0.well_formed(),
    {
        match &self.address {
            None => Err(Error::MissingAddress),
            Some(address) => match &self.netmask {
                None => IpNetwork::from_str(address.as_str()),
                Some(netmask) => {
                    let ip = IpAddr::from_str(address.as_str())?;
                    let mask = IpAddr::from_str(netmask.as_str())?;
                    IpNetwork::with_netmask(ip, mask)
                },
            },
        }
    }

    /// The route over the gateway of a static subnet, if it has one.
    fn read_route(&self) -> (result: Result<Option<NetworkRoute>, Error>)
        ensures
            error::outcome(result) == self.route(),
    {
        match &self.gateway {
            None => Ok(None),
            Some(gateway) => {
                let gateway = IpAddr::from_str(gateway.as_str())?;
                let destination = if gateway.is_ipv6() {
                    IpNetwork::from_str("::/0")?
                } else {
                    IpNetwork::from_str("0.0.0.0/0")?
                };
                Ok(Some(NetworkRoute { destination, gateway }))
            },
        }
    }
}

/// What one more subnet adds to an interface.
proof fn subnet_step(subnets: Seq<NetworkConfigSubnet>, i: int)
    requires
        0 <= i < subnets.len(),
    ensures
        subnets_accepted(subnets.take(i)) is Ok ==> match subnets[i].accepted() {
            Ok(_) => subnets_accepted(subnets.take(i + 1)) is Ok,
            Err(error) => subnets_accepted(subnets) == Err::<Seq<()>, ErrorModel>(error),
        },
        static_networks(subnets.take(i + 1)) == (match subnets[i].static_network() {
            Some(network) => static_networks(subnets.take(i)).push(network),
            None => static_networks(subnets.take(i)),
        }),
        static_routes(subnets.take(i + 1)) == (match subnets[i].static_route() {
            Some(route) => static_routes(subnets.take(i)).push(route),
            None => static_routes(subnets.take(i)),
        }),
        last_dhcp(subnets.take(i + 1)) == (match subnets[i].dhcp() {
            Some(setting) => Some(setting),
            None => last_dhcp(subnets.take(i)),
        }),
{
    let results = subnets.map_values(|subnet: NetworkConfigSubnet| subnet.accepted());
    assert(results.take(i) =~= subnets.take(i).map_values(
        |subnet: NetworkConfigSubnet| subnet.accepted(),
    ));
    assert(results.take(i + 1) =~= subnets.take(i + 1).map_values(
        |subnet: NetworkConfigSubnet| subnet.accepted(),
    ));
    error::collected_step(results, i);
    if error::collected(results.take(i + 1)) is Err {
        error::collected_refusal(results, i + 1);
    }
    assert(subnets.take(i + 1).drop_last() =~= subnets.take(i));
    assert(subnets.take(i + 1).last() == subnets[i]);
    reveal_with_fuel(Seq::filter_map, 2);
}

impl NetworkConfigEntry {
    /// Converts the entry to an interface.
    pub fn to_interface(&self) -> (result: Result<Interface, Error>)
        ensures
            error::outcome(result) == self.interface(),
            result is Ok ==> result->Ok_0@.well_formed(),
    {
        if !text::is_text(&self.network_type, "physical") {
            return Err(Error::UnsupportedConfigType(self.network_type.clone()));
        }
        let mut iface = Interface::named(self.name.clone());
        let mut i: usize = 0;
        while i < self.subnets.len()
            invariant
                i <= self.subnets@.len(),
                self.network_type@ == "physical"@,
                subnets_accepted(self.subnets@.take(i as int)) is Ok,
                iface@ == (InterfaceModel {
                    ip_addresses: static_networks(self.subnets@.take(i as int)),
                    routes: static_routes(self.subnets@.take(i as int)),
                    dhcp: last_dhcp(self.subnets@.take(i as int)),
                    ..InterfaceModel::named(self.name.deep_view())
                }),
                forall|k: int|
                    0 <= k < iface.ip_addresses@.len() ==> (
                    #[trigger] iface.ip_addresses@[k]).well_formed(),
            decreases self.subnets@.len() - i,
        {
            let subnet = &self.subnets[i];
            proof {
                subnet_step(self.subnets@, i as int);
                reveal_strlit("dhcp");
                reveal_strlit("dhcp4");
                reveal_strlit("dhcp6");
                assert("dhcp"@.len() != "dhcp6"@.len());
                assert("dhcp4"@[4] != "dhcp6"@[4]);
            }
            if text::contains(subnet.subnet_type.as_str(), "static") {
                let network = subnet.read_network()?;
                iface.ip_addresses.push(network);
                if let Some(route) = subnet.read_route()? {
                    iface.routes.push(route);
                }
            }
            if text::is_text(&subnet.subnet_type, "dhcp") || text::is_text(
                &subnet.subnet_type,
                "dhcp4",
            ) {
                iface.dhcp = Some(DhcpSetting::V4);
            }
            if text::is_text(&subnet.subnet_type, "dhcp6") {
                iface.dhcp = Some(DhcpSetting::V6);
            }
            i = i + 1;
        }
        assert(self.subnets@.take(i as int) =~= self.subnets@);
        iface.mac_address = read_optional_mac(&self.mac_address)?;
        Ok(iface)
    }
}

/// The addresses that the given texts are read as, or why the first that is none is refused.
pub open spec fn addresses_of(texts: Seq<String>) -> Result<Seq<IpAddr>, ErrorModel> {
    error::collected(texts.map_values(|text: String| IpAddr::of_text(text@)))
}

/// The networks that the given texts are read as, or why the first that is none is refused.
pub open spec fn networks_of(texts: Seq<String>) -> Result<Seq<IpNetwork>, ErrorModel> {
    error::collected(texts.map_values(|text: String| IpNetwork::of_text(text@)))
}

/// Reads a list of addresses.
fn read_addresses(texts: &Vec<String>) -> (result: Result<Vec<IpAddr>, Error>)
    ensures
        match result {
            Ok(addresses) => addresses_of(texts@) == Ok::<Seq<IpAddr>, ErrorModel>(addresses@),
            Err(error) => addresses_of(texts@) == Err::<Seq<IpAddr>, ErrorModel>(error@),
        },
{
    let ghost results = texts@.map_values(|text: String| IpAddr::of_text(text@));
    let mut addresses: Vec<IpAddr> = Vec::new();
    let mut i: usize = 0;
    while i < texts.len()
        invariant
            i <= texts@.len(),
            results == texts@.map_values(|text: String| IpAddr::of_text(text@)),
            error::collected(results.take(i as int)) == Ok::<Seq<IpAddr>, ErrorModel>(addresses@),
        decreases texts@.len() - i,
    {
        proof {
            error::collected_step(results, i as int);
        }
        match IpAddr::from_str(texts[i].as_str()) {
            Ok(ip) => addresses.push(ip),
            Err(error) => {
                proof {
                    error::collected_refusal(results, i + 1);
                }
                return Err(error);
            },
        }
        i = i + 1;
    }
    assert(results.take(i as int) =~= results);
    Ok(addresses)
}

/// Reads a list of networks in CIDR notation.
fn read_networks(texts: &Vec<String>) -> (result: Result<Vec<IpNetwork>, Error>)
    ensures
        match result {
            Ok(networks) => networks_of(texts@) == Ok::<Seq<IpNetwork>, ErrorModel>(networks@)
                && forall|k: int|
                0 <= k < networks@.len() ==> (#[trigger] networks@[k]).well_formed(),
            Err(error) => networks_of(texts@) == Err::<Seq<IpNetwork>, ErrorModel>(error@),
        },
{
    let ghost results = texts@.map_values(|text: String| IpNetwork::of_text(text@));
    let mut networks: Vec<IpNetwork> = Vec::new();
    let mut i: usize = 0;
    while i < texts.len()
        invariant
            i <= texts@.len(),
            results == texts@.map_values(|text: String| IpNetwork::of_text(text@)),
            error::collected(results.take(i as int)) == Ok::<Seq<IpNetwork>, ErrorModel>(networks@),
            forall|k: int| 0 <= k < networks@.len() ==> (#[trigger] networks@[k]).well_formed(),
        decreases texts@.len() - i,
    {
        proof {
            error::collected_step(results, i as int);
        }
        match IpNetwork::from_str(texts[i].as_str()) {
            Ok(network) => networks.push(network),
            Err(error) => {
                proof {
                    error::collected_refusal(results, i + 1);
                }
                return Err(error);
            },
        }
        i = i + 1;
    }
    assert(results.take(i as int) =~= results);
    Ok(networks)
}

/// The route over an optional gateway to the given destination.
pub open spec fn gateway_routes(gateway: Option<String>, destination: IpNetwork) -> Result<
    Seq<NetworkRoute>,
    ErrorModel,
> {
    match gateway {
        None => Ok(Seq::empty()),
        Some(gateway) => match IpAddr::of_text(gateway@) {
            Ok(gateway) => Ok(seq![NetworkRoute { destination, gateway }]),
            Err(error) => Err(error),
        },
    }
}

impl EthernetV2 {
    /// The MAC address that the interface is found by.
    pub open spec fn mac_address(self) -> Result<Option<MacAddr>, ErrorModel> {
        match self.match_config {
            None => Ok(None),
            Some(match_config) => optional_mac(match_config.macaddress),
        }
    }

    /// The name of the interface: the one it is found by, or else the one it is listed under.
    pub open spec fn interface_name(self, name: Seq<char>) -> Seq<char> {
        match self.match_config {
            Some(MatchV2 { name: Some(match_name), .. }) => match_name@,
            _ => name,
        }
    }

    /// The DHCP setting that the two switches amount to.
    pub open spec fn dhcp(self) -> Option<DhcpSetting> {
        match (self.dhcp4 == Some(true), self.dhcp6 == Some(true)) {
            (true, true) => Some(DhcpSetting::Both),
            (true, false) => Some(DhcpSetting::V4),
            (false, true) => Some(DhcpSetting::V6),
            (false, false) => None,
        }
    }

    /// The DNS servers of the interface.
    pub open spec fn nameserver_addresses(self) -> Result<Seq<IpAddr>, ErrorModel> {
        match self.nameservers {
            None => Ok(Seq::empty()),
            Some(nameservers) => addresses_of(nameservers.addresses@),
        }
    }

    /// The default routes of the interface, IPv4 before IPv6.
    pub open spec fn default_routes(self) -> Result<Seq<NetworkRoute>, ErrorModel> {
        match (
            gateway_routes(self.gateway4, address::everything_v4()),
            gateway_routes(self.gateway6, address::everything_v6()),
        ) {
            (Ok(routes4), Ok(routes6)) => Ok(routes4 + routes6),
            (Ok(_), Err(error)) => Err(error),
            (Err(error), _) => Err(error),
        }
    }

    /// The interface that is described under a name. The first thing that cannot be read is
    /// the reason of a refusal: the MAC address, an address, a gateway or a DNS server, in
    /// this order.
    pub open spec fn interface(self, name: Seq<char>) -> Result<InterfaceModel, ErrorModel> {
        match (self.mac_address(), networks_of(self.addresses@)) {
            (Err(error), _) => Err(error),
            (Ok(_), Err(error)) => Err(error),
            (Ok(mac_address), Ok(ip_addresses)) => {
                match (self.default_routes(), self.nameserver_addresses()) {
                    (Err(error), _) => Err(error),
                    (Ok(_), Err(error)) => Err(error),
                    (Ok(routes), Ok(nameservers)) => Ok(
                        InterfaceModel {
                            mac_address,
                            nameservers,
                            ip_addresses,
                            routes,
                            dhcp: self.dhcp(),
                            ..InterfaceModel::named(Some(self.interface_name(name)))
                        },
                    ),
                }
            },
        }
    }

    /// Converts the description of an ethernet interface to an interface.
    pub fn to_interface(&self, name: &str) -> (result: Result<Interface, Error>)
        ensures
            error::outcome(result) == self.interface(name@),
            result is Ok ==> result->Ok_0@.well_formed(),
    {
        let mut iface = Interface::named(Some(name.to_owned()));
        if let Some(match_config) = &self.match_config {
            iface.mac_address = read_optional_mac(&match_config.macaddress)?;
            if let Some(match_name) = &match_config.name {
                iface.name = Some(match_name.clone());
            }
        }
        iface.ip_addresses = read_networks(&self.addresses)?;
        if let Some(gateway4) = &self.gateway4 {
            let gateway = IpAddr::from_str(gateway4.as_str())?;
            let destination = IpNetwork::from_str("0.0.0.0/0")?;
            iface.routes.push(NetworkRoute { destination, gateway });
        }
        if let Some(gateway6) = &self.gateway6 {
            let gateway = IpAddr::from_str(gateway6.as_str())?;
            let destination = IpNetwork::from_str("::/0")?;
            iface.routes.push(NetworkRoute { destination, gateway });
        }
        let dhcp4 = self.dhcp4.unwrap_or(false);
        let dhcp6 = self.dhcp6.unwrap_or(false);
        if dhcp4 && dhcp6 {
            iface.dhcp = Some(DhcpSetting::Both);
        } else if dhcp4 {
            iface.dhcp = Some(DhcpSetting::V4);
        } else if dhcp6 {
            iface.dhcp = Some(DhcpSetting::V6);
        }
        if let Some(nameservers) = &self.nameservers {
            iface.nameservers = read_addresses(&nameservers.addresses)?;
        }
        proof {
            assert(iface@.routes =~= self.default_routes()->Ok_0);
            assert(iface@.nameservers =~= self.nameserver_addresses()->Ok_0);
        }
        Ok(iface)
    }
}

/// The nameserver entries, in their order.
pub open spec fn nameserver_entries(config: Seq<NetworkConfigEntry>) -> Seq<NetworkConfigEntry> {
    config.filter(|entry: NetworkConfigEntry| entry.network_type@ == "nameserver"@)
}

/// What the physical entries are converted to, in their order.
pub open spec fn physical_interfaces(config: Seq<NetworkConfigEntry>) -> Seq<
    Result<InterfaceModel, ErrorModel>,
> {
    config.filter_map(
        |entry: NetworkConfigEntry|
            if entry.network_type@ == "physical"@ {
                Some(entry.interface())
            } else {
                None
            },
    )
}

impl InterfaceModel {
    /// The interface with other DNS servers.
    pub open spec fn with_nameservers(self, nameservers: Seq<IpAddr>) -> InterfaceModel {
        InterfaceModel { nameservers, ..self }
    }
}

impl NetworkDataV1 {
    /// The interfaces of the physical entries. The first of them gets the addresses of the
    /// nameserver entry, of which there is at most one.
    pub open spec fn interfaces(self) -> Result<Seq<InterfaceModel>, ErrorModel> {
        let nameservers = nameserver_entries(self.config@);
        if nameservers.len() > 1 {
            Err(ErrorModel::TooManyNameservers)
        } else {
            match error::collected(physical_interfaces(self.config@)) {
                Err(error) => Err(error),
                Ok(interfaces) => if interfaces.len() == 0 || nameservers.len() == 0 {
                    Ok(interfaces)
                } else {
                    match addresses_of(nameservers[0].address@) {
                        Err(error) => Err(error),
                        Ok(addresses) => Ok(
                            interfaces.update(0, interfaces[0].with_nameservers(addresses)),
                        ),
                    }
                },
            }
        }
    }
}

impl NetworkDataV2 {
    /// Whether no name is listed twice.
    pub open spec fn well_formed(self) -> bool {
        forall|i: int, j: int|
            0 <= i < j < self.ethernets@.len() ==> (#[trigger] self.ethernets@[i]).0@ != (
            #[trigger] self.ethernets@[j]).0@
    }

    /// The interfaces of the listed ethernets, in the order of the list.
    pub open spec fn interfaces(self) -> Result<Seq<InterfaceModel>, ErrorModel> {
        error::collected(
            self.ethernets@.map_values(
                |ethernet: (String, EthernetV2)| ethernet.1.interface(ethernet.0@),
            ),
        )
    }
}

impl NetworkData {
    /// The interfaces that the network data describes.
    pub open spec fn interfaces(self) -> Result<Seq<InterfaceModel>, ErrorModel> {
        match self {
            NetworkData::V1(data) => data.interfaces(),
            NetworkData::V2(data) => data.interfaces(),
        }
    }
}

/// Whether the networks of all interfaces are well formed.
pub open spec fn all_well_formed(interfaces: Seq<InterfaceModel>) -> bool {
    forall|i: int| 0 <= i < interfaces.len() ==> (#[trigger] interfaces[i]).well_formed()
}

/// Converts network data of either version to interfaces.
pub fn network_interfaces(input: &NetworkData) -> (result: Result<Vec<Interface>, Error>)
    ensures
        error::outcome(result) == input.interfaces(),
        result is Ok ==> all_well_formed(result->Ok_0.deep_view()),
{
    match input {
        NetworkData::V1(data) => network_interfaces_v1(data),
        NetworkData::V2(data) => network_interfaces_v2(data),
    }
}

/// The nameserver entries, in their order.
fn find_nameserver_entries(config: &Vec<NetworkConfigEntry>) -> (result: Vec<&NetworkConfigEntry>)
    ensures
        result@.map_values(|entry: &NetworkConfigEntry| *entry) == nameserver_entries(config@),
{
    let mut result: Vec<&NetworkConfigEntry> = Vec::new();
    let mut i: usize = 0;
    proof {
        reveal(Seq::filter);
    }
    while i < config.len()
        invariant
            i <= config@.len(),
            result@.map_values(|entry: &NetworkConfigEntry| *entry) == nameserver_entries(
                config@.take(i as int),
            ),
        decreases config@.len() - i,
    {
        proof {
            reveal(Seq::filter);
            assert(config@.take(i + 1).drop_last() =~= config@.take(i as int));
        }
        if text::is_text(&config[i].network_type, "nameserver") {
            result.push(&config[i]);
        }
        assert(result@.map_values(|entry: &NetworkConfigEntry| *entry) =~= nameserver_entries(
            config@.take(i + 1),
        ));
        i = i + 1;
    }
    assert(config@.take(i as int) =~= config@);
    result
}

/// The interfaces of the physical entries, in their order.
fn read_physical_interfaces(config: &Vec<NetworkConfigEntry>) -> (result: Result<
    Vec<Interface>,
    Error,
>)
    ensures
        error::outcome(result) == error::collected(physical_interfaces(config@)),
        result is Ok ==> all_well_formed(result->Ok_0.deep_view()),
{
    let mut interfaces: Vec<Interface> = Vec::new();
    assert(interfaces.deep_view() =~= Seq::<InterfaceModel>::empty());
    let mut i: usize = 0;
    while i < config.len()
        invariant
            i <= config@.len(),
            error::collected(physical_interfaces(config@.take(i as int))) == Ok::<
                Seq<InterfaceModel>,
                ErrorModel,
            >(interfaces.deep_view()),
            all_well_formed(interfaces.deep_view()),
        decreases config@.len() - i,
    {
        proof {
            physical_step(config@, i as int);
        }
        if text::is_text(&config[i].network_type, "physical") {
            let ghost before = interfaces.deep_view();
            let interface = config[i].to_interface()?;
            interfaces.push(interface);
            assert(interfaces.deep_view() =~= before.push(interface@));
        }
        i = i + 1;
    }
    assert(config@.take(i as int) =~= config@);
    Ok(interfaces)
}

/// What one more entry adds to the interfaces.
proof fn physical_step(config: Seq<NetworkConfigEntry>, i: int)
    requires
        0 <= i < config.len(),
        error::collected(physical_interfaces(config.take(i))) is Ok,
    ensures
        config[i].network_type@ != "physical"@ ==> physical_interfaces(config.take(i + 1))
            == physical_interfaces(config.take(i)),
        config[i].network_type@ == "physical"@ ==> match config[i].interface() {
            Ok(interface) => error::collected(physical_interfaces(config.take(i + 1)))
                == Ok::<Seq<InterfaceModel>, ErrorModel>(
                error::collected(physical_interfaces(config.take(i)))->Ok_0.push(interface),
            ),
            Err(error) => error::collected(physical_interfaces(config)) == Err::<
                Seq<InterfaceModel>,
                ErrorModel,
            >(error),
        },
{
    assert(config.take(i + 1).drop_last() =~= config.take(i));
    assert(config.take(i + 1).last() == config[i]);
    let before = physical_interfaces(config.take(i));
    let after = physical_interfaces(config.take(i + 1));
    reveal_with_fuel(Seq::filter_map, 2);
    if config[i].network_type@ == "physical"@ {
        assert(after =~= before.push(config[i].interface()));
        assert(after.drop_last() =~= before);
        if config[i].interface() is Err {
            physical_prefix(config, i + 1);
            error::collected_refusal(physical_interfaces(config), after.len() as int);
        }
    }
}

/// The first entries give the first interfaces.
proof fn physical_prefix(config: Seq<NetworkConfigEntry>, n: int)
    requires
        0 <= n <= config.len(),
    ensures
        physical_interfaces(config.take(n)).len() <= physical_interfaces(config).len(),
        physical_interfaces(config).take(physical_interfaces(config.take(n)).len() as int)
            == physical_interfaces(config.take(n)),
    decreases config.len() - n,
{
    let first = physical_interfaces(config.take(n));
    if n < config.len() {
        physical_prefix(config, n + 1);
        assert(config.take(n + 1).drop_last() =~= config.take(n));
        reveal_with_fuel(Seq::filter_map, 2);
        let longer = physical_interfaces(config.take(n + 1));
        assert(longer.take(first.len() as int) =~= first);
        assert(physical_interfaces(config).take(first.len() as int) =~= longer.take(
            first.len() as int,
        ));
    } else {
        assert(config.take(n) =~= config);
        assert(first.take(first.len() as int) =~= first);
    }
}

/// Converts network data of version 1 to interfaces.
pub fn network_interfaces_v1(input: &NetworkDataV1) -> (result: Result<Vec<Interface>, Error>)
    ensures
        error::outcome(result) == input.interfaces(),
        result is Ok ==> all_well_formed(result->Ok_0.deep_view()),
{
    let nameservers = find_nameserver_entries(&input.config);
    let ghost entries = nameservers@.map_values(|entry: &NetworkConfigEntry| *entry);
    if nameservers.len() > 1 {
        assert(entries.len() > 1);
        return Err(Error::TooManyNameservers);
    }
    let mut interfaces = read_physical_interfaces(&input.config)?;
    let ghost before = interfaces.deep_view();
    if interfaces.len() > 0 && nameservers.len() > 0 {
        assert(*nameservers@[0] == entries[0]);
        let addresses = read_addresses(&nameservers[0].address)?;
        interfaces[0].nameservers = addresses;
        assert(interfaces.deep_view() =~= before.update(
            0,
            before[0].with_nameservers(addresses@),
        ));
    }
    Ok(interfaces)
}

/// Converts network data of version 2 to interfaces.
pub fn network_interfaces_v2(input: &NetworkDataV2) -> (result: Result<Vec<Interface>, Error>)
    ensures
        error::outcome(result) == input.interfaces(),
        result is Ok ==> all_well_formed(result->Ok_0.deep_view()),
{
    let ghost results = input.ethernets@.map_values(
        |ethernet: (String, EthernetV2)| ethernet.1.interface(ethernet.0@),
    );
    let mut interfaces: Vec<Interface> = Vec::new();
    assert(interfaces.deep_view() =~= Seq::<InterfaceModel>::empty());
    let mut i: usize = 0;
    while i < input.ethernets.len()
        invariant
            i <= input.ethernets@.len(),
            results == input.ethernets@.map_values(
                |ethernet: (String, EthernetV2)| ethernet.1.interface(ethernet.0@),
            ),
            input.interfaces() == error::collected(results),
            error::collected(results.take(i as int)) == Ok::<Seq<InterfaceModel>, ErrorModel>(
                interfaces.deep_view(),
            ),
            all_well_formed(interfaces.deep_view()),
        decreases input.ethernets@.len() - i,
    {
        proof {
            error::collected_step(results, i as int);
            if results[i as int] is Err {
                error::collected_refusal(results, i + 1);
            }
        }
        let ethernet = &input.ethernets[i];
        let ghost before = interfaces.deep_view();
        let interface = ethernet.1.to_interface(ethernet.0.as_str())?;
        interfaces.push(interface);
        assert(interfaces.deep_view() =~= before.push(interface@));
        i = i + 1;
    }
    assert(results.take(i as int) =~= results);
    Ok(interfaces)
}

} // verus!

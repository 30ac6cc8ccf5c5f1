//! Network interfaces in the common form that all metadata sources are brought into.

use crate::address::{IpAddr, IpNetwork, MacAddr};
use vstd::prelude::*;

verus! {

/// For which address families an interface asks a DHCP server.
#[derive(Clone, Copy, Debug, PartialEq, Eq, Structural)]
pub enum DhcpSetting {
    Both,
    V4,
    V6,
}

/// A route: packets for the destination go to the gateway.
#[derive(Clone, Copy, Debug, PartialEq, Eq, Structural)]
pub struct NetworkRoute {
    pub destination: IpNetwork,
    pub gateway: IpAddr,
}

impl DeepView for NetworkRoute {
    type V = NetworkRoute;

    open spec fn deep_view(&self) -> NetworkRoute {
        *self
    }
}

/// A network interface and its configuration.
#[derive(Debug)]
pub struct Interface {
    pub name: Option<String>,
    pub mac_address: Option<MacAddr>,
    pub path: Option<String>,
    pub priority: u8,
    pub nameservers: Vec<IpAddr>,
    pub ip_addresses: Vec<IpNetwork>,
    pub routes: Vec<NetworkRoute>,
    pub dhcp: Option<DhcpSetting>,
    pub bond: Option<String>,
    pub unmanaged: bool,
    pub required_for_online: Option<String>,
}

/// What an [`Interface`] says, with its texts and lists as sequences.
#[verifier::ext_equal]
pub struct InterfaceModel {
    pub name: Option<Seq<char>>,
    pub mac_address: Option<MacAddr>,
    pub path: Option<Seq<char>>,
    pub priority: u8,
    pub nameservers: Seq<IpAddr>,
    pub ip_addresses: Seq<IpNetwork>,
    pub routes: Seq<NetworkRoute>,
    pub dhcp: Option<DhcpSetting>,
    pub bond: Option<Seq<char>>,
    pub unmanaged: bool,
    pub required_for_online: Option<Seq<char>>,
}

impl View for Interface {
    type V = InterfaceModel;

    open spec fn view(&self) -> InterfaceModel {
        InterfaceModel {
            name: self.name.deep_view(),
            mac_address: self.mac_address,
            path: self.path.deep_view(),
            priority: self.priority,
            nameservers: self.nameservers@,
            ip_addresses: self.ip_addresses@,
            routes: self.routes@,
            dhcp: self.dhcp,
            bond: self.bond.deep_view(),
            unmanaged: self.unmanaged,
            required_for_online: self.required_for_online.deep_view(),
        }
    }
}

impl DeepView for Interface {
    type V = InterfaceModel;

    open spec fn deep_view(&self) -> InterfaceModel {
        self@
    }
}

impl InterfaceModel {
    /// An interface of which nothing but its name is configured.
    pub open spec fn named(name: Option<Seq<char>>) -> InterfaceModel {
        InterfaceModel {
            name,
            mac_address: None,
            path: None,
            priority: 20,
            nameservers: Seq::empty(),
            ip_addresses: Seq::empty(),
            routes: Seq::empty(),
            dhcp: None,
            bond: None,
            unmanaged: false,
            required_for_online: None,
        }
    }

    /// Whether the prefix of each network of the interface fits its address.
    pub open spec fn well_formed(self) -> bool {
        forall|i: int|
            0 <= i < self.ip_addresses.len() ==> (#[trigger] self.ip_addresses[i]).well_formed()
    }
}

impl Interface {
    /// An interface of which nothing but its name is configured.
    pub fn named(name: Option<String>) -> (result: Interface)
        ensures
            result@ == InterfaceModel::named(name.deep_view()),
    {
        Interface {
            name,
            mac_address: None,
            path: None,
            priority: 20,
            nameservers: Vec::new(),
            ip_addresses: Vec::new(),
            routes: Vec::new(),
            dhcp: None,
            bond: None,
            unmanaged: false,
            required_for_online: None,
        }
    }
}

} // verus!

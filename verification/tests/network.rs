//! Network data, the interfaces it describes and their kernel arguments.

use afterburn_kubevirt::address::{IpAddr, IpNetwork, MacAddr};
use afterburn_kubevirt::cloudconfig::KubeVirtCloudConfig;
use afterburn_kubevirt::document::{parse_network_data, DataVersion};
use afterburn_kubevirt::error::Error;
use afterburn_kubevirt::kargs::{write_network_kargs, KargStyle};
use afterburn_kubevirt::metadata::MetaDataJSON;
use afterburn_kubevirt::network::{DhcpSetting, Interface, NetworkRoute};
use afterburn_kubevirt::networkdata::{
    network_interfaces, network_interfaces_v1, network_interfaces_v2, EthernetV2, MatchV2,
    NameserversV2, NetworkConfigEntry, NetworkConfigSubnet, NetworkData, NetworkDataV1,
    NetworkDataV2,
};
use afterburn_kubevirt::provider::KubeVirtProvider;

const V1_JSON: &str = r#"
{
  "version": 1,
  "config": [
    {
      "type": "physical",
      "name": "eth0",
      "mac_address": "06:52:db:01:ff:d9",
      "subnets": [
        {
          "type": "static",
          "address": "192.168.1.10",
          "netmask": "255.255.255.0",
          "gateway": "192.168.1.1"
        }
      ]
    },
    {
      "type": "physical",
      "name": "eth1",
      "mac_address": "06:f6:71:3b:64:01",
      "subnets": [{"type": "dhcp"}]
    },
    {
      "type": "nameserver",
      "address": ["8.8.8.8", "8.8.4.4"]
    }
  ]
}
"#;

const V1_YAML: &str = "version: 1
config:
  - type: physical
    name: eth0
    mac_address: '06:52:db:01:ff:d9'
    subnets:
      - type: static
        address: 192.168.1.10/24
        gateway: 192.168.1.1
  - type: physical
    name: eth1
    mac_address: '06:f6:71:3b:64:01'
    subnets:
      - type: dhcp4
  - type: nameserver
    address:
      - 8.8.8.8
      - 8.8.4.4
";

const V2_JSON: &str = r#"
{
  "version": 2,
  "ethernets": {
    "eth0": {
      "match": {"macaddress": "06:52:db:01:ff:d9"},
      "addresses": ["192.168.1.10/24"],
      "gateway4": "192.168.1.1",
      "nameservers": {"addresses": ["8.8.8.8", "8.8.4.4"]}
    },
    "eth1": {
      "match": {"macaddress": "06:f6:71:3b:64:01"},
      "dhcp4": true
    }
  }
}
"#;

const V2_YAML: &str = "version: 2
ethernets:
  eth1:
    match:
      macaddress: '06:f6:71:3b:64:01'
    dhcp4: true
  nic0:
    match:
      macaddress: '06:52:db:01:ff:d9'
      name: eth0
    addresses:
      - 192.168.1.10/24
    gateway4: 192.168.1.1
    nameservers:
      addresses: [8.8.8.8, 8.8.4.4]
";

fn text_of(value: &serde_json::Value, key: &str) -> Option<String> {
    value.get(key).and_then(|v| v.as_str()).map(|s| s.to_string())
}

fn texts_of(value: &serde_json::Value, key: &str) -> Vec<String> {
    match value.get(key).and_then(|v| v.as_array()) {
        Some(items) => items.iter().map(|item| item.as_str().unwrap().to_string()).collect(),
        None => vec![],
    }
}

fn read_entry(value: &serde_json::Value) -> NetworkConfigEntry {
    let subnets = match value.get("subnets").and_then(|v| v.as_array()) {
        Some(subnets) => subnets
            .iter()
            .map(|subnet| NetworkConfigSubnet {
                subnet_type: text_of(subnet, "type").unwrap(),
                address: text_of(subnet, "address"),
                netmask: text_of(subnet, "netmask"),
                gateway: text_of(subnet, "gateway"),
            })
            .collect(),
        None => vec![],
    };
    NetworkConfigEntry {
        network_type: text_of(value, "type").unwrap(),
        name: text_of(value, "name"),
        mac_address: text_of(value, "mac_address"),
        address: texts_of(value, "address"),
        subnets,
    }
}

fn read_ethernet(value: &serde_json::Value) -> EthernetV2 {
    EthernetV2 {
        match_config: value.get("match").map(|found| MatchV2 {
            macaddress: text_of(found, "macaddress"),
            name: text_of(found, "name"),
        }),
        addresses: texts_of(value, "addresses"),
        dhcp4: value.get("dhcp4").and_then(|v| v.as_bool()),
        dhcp6: value.get("dhcp6").and_then(|v| v.as_bool()),
        gateway4: text_of(value, "gateway4"),
        gateway6: text_of(value, "gateway6"),
        nameservers: value
            .get("nameservers")
            .map(|servers| NameserversV2 { addresses: texts_of(servers, "addresses") }),
    }
}

fn read_network_data(content: &str) -> NetworkData {
    let document = parse_network_data(content).unwrap();
    match document.version {
        DataVersion::V1 => NetworkData::V1(NetworkDataV1 {
            version: 1,
            config: document.value.get("config").unwrap().as_array().unwrap().iter().map(read_entry).collect(),
        }),
        DataVersion::V2 => NetworkData::V2(NetworkDataV2 {
            version: 2,
            ethernets: document
                .value
                .get("ethernets")
                .unwrap()
                .as_object()
                .unwrap()
                .iter()
                .map(|(name, ethernet)| (name.clone(), read_ethernet(ethernet)))
                .collect(),
        }),
    }
}

fn subnet(subnet_type: &str) -> NetworkConfigSubnet {
    NetworkConfigSubnet {
        subnet_type: subnet_type.to_string(),
        address: None,
        netmask: None,
        gateway: None,
    }
}

fn static_subnet(address: &str, netmask: Option<&str>, gateway: Option<&str>) -> NetworkConfigSubnet {
    NetworkConfigSubnet {
        subnet_type: "static".to_string(),
        address: Some(address.to_string()),
        netmask: netmask.map(|s| s.to_string()),
        gateway: gateway.map(|s| s.to_string()),
    }
}

fn entry(network_type: &str, name: Option<&str>, subnets: Vec<NetworkConfigSubnet>) -> NetworkConfigEntry {
    NetworkConfigEntry {
        network_type: network_type.to_string(),
        name: name.map(|s| s.to_string()),
        mac_address: None,
        address: vec![],
        subnets,
    }
}

fn nameserver(addresses: &[&str]) -> NetworkConfigEntry {
    let mut entry = entry("nameserver", None, vec![]);
    entry.address = addresses.iter().map(|s| s.to_string()).collect();
    entry
}

fn ethernet() -> EthernetV2 {
    EthernetV2 {
        match_config: None,
        addresses: vec![],
        dhcp4: None,
        dhcp6: None,
        gateway4: None,
        gateway6: None,
        nameservers: None,
    }
}

fn v1(config: Vec<NetworkConfigEntry>) -> NetworkData {
    NetworkData::V1(NetworkDataV1 { version: 1, config })
}

fn v2(ethernets: Vec<(&str, EthernetV2)>) -> NetworkData {
    NetworkData::V2(NetworkDataV2 {
        version: 2,
        ethernets: ethernets.into_iter().map(|(name, e)| (name.to_string(), e)).collect(),
    })
}

fn config(network_data: Option<NetworkData>) -> KubeVirtCloudConfig {
    KubeVirtCloudConfig {
        meta_data: MetaDataJSON {
            hostname: "node".to_string(),
            instance_id: "id".to_string(),
            instance_type: None,
            public_keys: None,
        },
        network_data,
    }
}

fn named(name: &str) -> Interface {
    Interface::named(Some(name.to_string()))
}

#[test]
fn test_kubevirt_network_data() {
    let documents = [("v1 json", V1_JSON), ("v1 yaml", V1_YAML), ("v2 json", V2_JSON), ("v2 yaml", V2_YAML)];
    for (title, content) in documents {
        let parsed = read_network_data(content);
        let interfaces = network_interfaces(&parsed).unwrap();

        assert_eq!(interfaces.len(), 2, "{}", title);
        let (eth0_idx, eth1_idx) = if interfaces[0].name == Some("eth0".to_string()) {
            (0, 1)
        } else {
            (1, 0)
        };
        assert_eq!(interfaces[eth0_idx].name, Some("eth0".to_string()), "{}", title);
        assert_eq!(interfaces[eth0_idx].mac_address, Some(MacAddr::from_str("06:52:db:01:ff:d9").unwrap()), "{}", title);
        assert_eq!(interfaces[eth0_idx].ip_addresses.len(), 1, "{}", title);
        assert_eq!(interfaces[eth0_idx].ip_addresses[0], IpNetwork::from_str("192.168.1.10/24").unwrap(), "{}", title);
        assert_eq!(interfaces[eth0_idx].routes.len(), 1, "{}", title);
        assert_eq!(interfaces[eth0_idx].routes[0].gateway, IpAddr::from_str("192.168.1.1").unwrap(), "{}", title);
        assert_eq!(interfaces[eth0_idx].nameservers.len(), 2, "{}", title);
        assert_eq!(interfaces[eth0_idx].nameservers[0], IpAddr::from_str("8.8.8.8").unwrap(), "{}", title);
        assert_eq!(interfaces[eth0_idx].nameservers[1], IpAddr::from_str("8.8.4.4").unwrap(), "{}", title);
        assert_eq!(interfaces[eth1_idx].name, Some("eth1".to_string()), "{}", title);
        assert_eq!(interfaces[eth1_idx].mac_address, Some(MacAddr::from_str("06:f6:71:3b:64:01").unwrap()), "{}", title);
        assert_eq!(interfaces[eth1_idx].dhcp, Some(DhcpSetting::V4), "{}", title);
        assert_eq!(interfaces[eth1_idx].ip_addresses.len(), 0, "{}", title);
        assert_eq!(interfaces[eth1_idx].nameservers.len(), 0, "{}", title);
        let kargs = KubeVirtProvider::read_rd_network_kargs(&parsed).unwrap().unwrap();
        let kargs_parts: Vec<&str> = kargs.split_whitespace().collect();
        assert_eq!(kargs_parts.len(), 3, "{}", title);
        assert!(kargs.contains("ip=eth1:dhcp"), "{}", title);
        assert!(kargs.contains("ip=192.168.1.10::192.168.1.1:255.255.255.0::eth0:none"), "{}", title);
        assert!(kargs.contains("nameserver=8.8.8.8,8.8.4.4"), "{}", title);
    }
}

#[test]
fn cloud_config_names_interfaces_by_mac_address() {
    let config = config(Some(read_network_data(V1_JSON)));
    assert_eq!(
        config.rd_network_kargs().unwrap().unwrap(),
        "ip=192.168.1.10::192.168.1.1:255.255.255.0::06:52:db:01:ff:d9:static \
         nameserver=8.8.8.8,8.8.4.4 ip=06:f6:71:3b:64:01:dhcp"
    );
    assert_eq!(config.networks().unwrap().len(), 2);
}

#[test]
fn cloud_config_without_network_data_has_no_interfaces() {
    let config = config(None);
    assert!(config.networks().unwrap().is_empty());
    assert_eq!(config.rd_network_kargs().unwrap(), None);
}

#[test]
fn refused_network_data_gives_no_kargs() {
    let mut broken = entry("physical", Some("eth0"), vec![subnet("dhcp")]);
    broken.mac_address = Some("no mac".to_string());
    let data = v1(vec![broken]);
    assert!(network_interfaces(&data).is_err());
    assert_eq!(KubeVirtProvider::read_rd_network_kargs(&data).unwrap(), None);
    let config = config(Some(data));
    assert!(config.networks().is_err());
    assert_eq!(config.rd_network_kargs().unwrap(), None);
}

#[test]
fn interfaces_without_configuration_give_no_kargs() {
    let data = v1(vec![entry("physical", Some("eth0"), vec![])]);
    assert_eq!(network_interfaces(&data).unwrap().len(), 1);
    assert_eq!(KubeVirtProvider::read_rd_network_kargs(&data).unwrap(), None);
    assert_eq!(KubeVirtProvider::read_rd_network_kargs(&v1(vec![])).unwrap(), None);
}

#[test]
fn unnamed_interface_has_empty_name_or_is_left_out() {
    let unnamed = || vec![entry("physical", None, vec![subnet("dhcp6")])];
    assert_eq!(
        KubeVirtProvider::read_rd_network_kargs(&v1(unnamed())).unwrap().unwrap(),
        "ip=:dhcp6"
    );
    assert_eq!(config(Some(v1(unnamed()))).rd_network_kargs().unwrap(), None);
}

#[test]
fn cloud_config_falls_back_to_interface_name() {
    let data = v1(vec![entry(
        "physical",
        Some("eth0"),
        vec![static_subnet("10.1.2.3/8", None, None), subnet("dhcp")],
    )]);
    assert_eq!(
        config(Some(data)).rd_network_kargs().unwrap().unwrap(),
        "ip=10.1.2.3:::255.0.0.0::eth0:static ip=eth0:dhcp"
    );
}

#[test]
fn only_physical_entries_convert() {
    let error = entry("bond", Some("bond0"), vec![]).to_interface().unwrap_err();
    assert_eq!(
        error.message(),
        "cannot convert config to interface: unsupported config type \"bond\""
    );
    assert!(matches!(error, Error::UnsupportedConfigType(kind) if kind == "bond"));
    let data = v1(vec![
        entry("bond", Some("bond0"), vec![]),
        entry("physical", Some("eth0"), vec![]),
        entry("vlan", Some("vlan0"), vec![]),
        entry("physical", Some("eth1"), vec![]),
    ]);
    let interfaces = network_interfaces(&data).unwrap();
    assert_eq!(interfaces.len(), 2);
    assert_eq!(interfaces[0].name.as_deref(), Some("eth0"));
    assert_eq!(interfaces[1].name.as_deref(), Some("eth1"));
}

#[test]
fn static_subnet_needs_address() {
    let error = entry("physical", None, vec![subnet("static")]).to_interface().unwrap_err();
    assert!(matches!(error, Error::MissingAddress));
    assert_eq!(
        error.message(),
        "cannot convert static subnet to interface: missing address"
    );
    // A type that contains the word counts as well.
    let error = entry("physical", None, vec![subnet("ipv6_static")]).to_interface().unwrap_err();
    assert!(matches!(error, Error::MissingAddress));
}

#[test]
fn static_subnet_has_address_route_and_mask() {
    let iface = entry(
        "physical",
        Some("eth0"),
        vec![
            static_subnet("192.168.1.10", Some("255.255.0.0"), Some("192.168.1.1")),
            static_subnet("fd00::5/64", None, Some("fd00::1")),
            static_subnet("10.0.0.1", None, None),
        ],
    )
    .to_interface()
    .unwrap();
    assert_eq!(
        iface.ip_addresses,
        vec![
            IpNetwork::V4 { ip: 0xc0a8_010a, prefix: 16 },
            IpNetwork::V6 { ip: 0xfd00_0000_0000_0000_0000_0000_0000_0005, prefix: 64 },
            IpNetwork::V4 { ip: 0x0a00_0001, prefix: 32 },
        ]
    );
    assert_eq!(
        iface.routes,
        vec![
            NetworkRoute {
                destination: IpNetwork::V4 { ip: 0, prefix: 0 },
                gateway: IpAddr::V4(0xc0a8_0101),
            },
            NetworkRoute {
                destination: IpNetwork::V6 { ip: 0, prefix: 0 },
                gateway: IpAddr::V6(0xfd00_0000_0000_0000_0000_0000_0000_0001),
            },
        ]
    );
    assert_eq!(iface.priority, 20);
    assert!(!iface.unmanaged);
    assert!(iface.bond.is_none() && iface.path.is_none() && iface.required_for_online.is_none());
}

#[test]
fn netmask_may_be_of_other_family() {
    let network = IpNetwork::with_netmask(IpAddr::V4(0x0a00_0001), IpAddr::from_str("ff00::").unwrap());
    assert_eq!(network.unwrap(), IpNetwork::V4 { ip: 0x0a00_0001, prefix: 8 });
    let network = IpNetwork::with_netmask(IpAddr::V6(1), IpAddr::from_str("255.255.255.255").unwrap());
    assert_eq!(network.unwrap(), IpNetwork::V6 { ip: 1, prefix: 32 });
    let error = IpNetwork::with_netmask(IpAddr::V4(1), IpAddr::from_str("ffff:ffff:ffff::").unwrap()).unwrap_err();
    assert_eq!(error.message(), "invalid prefix");
}

#[test]
fn netmask_with_holes_is_refused() {
    let error = entry(
        "physical",
        None,
        vec![static_subnet("10.0.0.1", Some("255.0.255.0"), None)],
    )
    .to_interface()
    .unwrap_err();
    assert!(matches!(error, Error::InvalidIpNetwork(_)));
    assert_eq!(error.message(), "invalid prefix");
}

#[test]
fn unreadable_addresses_are_refused() {
    let refused = |subnet: NetworkConfigSubnet| entry("physical", None, vec![subnet]).to_interface().unwrap_err();
    let error = refused(static_subnet("10.0.0.300/8", None, None));
    assert_eq!(error.message(), "invalid address: 10.0.0.300/8");
    assert!(matches!(error, Error::InvalidIpNetwork(_)));
    let error = refused(static_subnet("nowhere", Some("255.0.0.0"), None));
    assert_eq!(error.message(), "invalid IP address syntax");
    assert!(matches!(error, Error::InvalidIpAddr(_)));
    // With a netmask, the address has no prefix of its own.
    assert!(matches!(
        refused(static_subnet("10.0.0.1/8", Some("255.0.0.0"), None)),
        Error::InvalidIpAddr(_)
    ));
    assert!(matches!(
        refused(static_subnet("10.0.0.1", Some("mask"), None)),
        Error::InvalidIpAddr(_)
    ));
    assert!(matches!(
        refused(static_subnet("10.0.0.1", None, Some("10.0.0.1/8"))),
        Error::InvalidIpAddr(_)
    ));
}

#[test]
fn unreadable_mac_address_is_refused() {
    let mut broken = entry("physical", None, vec![]);
    broken.mac_address = Some("06:52:db:01:ff".to_string());
    let error = broken.to_interface().unwrap_err();
    assert!(matches!(error, Error::InvalidMacAddr(_)));
    let expect = "06:52:db:01:ff".parse::<pnet_base::MacAddr>().unwrap_err().to_string();
    assert_eq!(error.message(), expect);
}

#[test]
fn last_dhcp_subnet_counts() {
    let dhcp = |types: &[&str]| {
        let subnets = types.iter().map(|t| subnet(t)).collect();
        entry("physical", None, subnets).to_interface().unwrap().dhcp
    };
    assert_eq!(dhcp(&["dhcp"]), Some(DhcpSetting::V4));
    assert_eq!(dhcp(&["dhcp4"]), Some(DhcpSetting::V4));
    assert_eq!(dhcp(&["dhcp6"]), Some(DhcpSetting::V6));
    assert_eq!(dhcp(&["dhcp4", "dhcp6"]), Some(DhcpSetting::V6));
    assert_eq!(dhcp(&["dhcp6", "dhcp", "ipv6_slaac"]), Some(DhcpSetting::V4));
    assert_eq!(dhcp(&["ipv6_slaac", "dhcp8"]), None);
    assert_eq!(dhcp(&[]), None);
}

#[test]
fn nameservers_go_to_first_interface() {
    let data = v1(vec![
        nameserver(&["8.8.8.8", "2001:4860:4860::8888"]),
        entry("physical", Some("eth0"), vec![]),
        entry("physical", Some("eth1"), vec![]),
    ]);
    let interfaces = network_interfaces(&data).unwrap();
    assert_eq!(
        interfaces[0].nameservers,
        vec![
            IpAddr::V4(0x0808_0808),
            IpAddr::V6(0x2001_4860_4860_0000_0000_0000_0000_8888),
        ]
    );
    assert!(interfaces[1].nameservers.is_empty());
    assert_eq!(
        KubeVirtProvider::read_rd_network_kargs(&data).unwrap().unwrap(),
        "nameserver=8.8.8.8,2001:4860:4860::8888"
    );
}

#[test]
fn only_one_nameserver_entry_is_accepted() {
    let data = v1(vec![nameserver(&["8.8.8.8"]), nameserver(&["8.8.4.4"])]);
    let error = network_interfaces(&data).unwrap_err();
    assert!(matches!(error, Error::TooManyNameservers));
    assert_eq!(error.message(), "too many nameservers, only one supported");
}

#[test]
fn nameservers_are_read_for_an_interface_only() {
    assert!(network_interfaces(&v1(vec![nameserver(&["nowhere"])])).unwrap().is_empty());
    let data = v1(vec![nameserver(&["nowhere"]), entry("physical", None, vec![])]);
    assert!(matches!(network_interfaces(&data), Err(Error::InvalidIpAddr(_))));
}

#[test]
fn ethernet_name_can_be_matched() {
    let mut matched = ethernet();
    matched.match_config = Some(MatchV2 {
        macaddress: Some("06:52:DB:01:FF:D9".to_string()),
        name: Some("ens3".to_string()),
    });
    let iface = matched.to_interface("eth0").unwrap();
    assert_eq!(iface.name.as_deref(), Some("ens3"));
    assert_eq!(iface.mac_address, Some(MacAddr(0x06, 0x52, 0xdb, 0x01, 0xff, 0xd9)));
    let iface = ethernet().to_interface("eth0").unwrap();
    assert_eq!(iface.name.as_deref(), Some("eth0"));
    assert_eq!(iface.mac_address, None);
    assert_eq!(iface.priority, 20);
}

#[test]
fn ethernet_dhcp_switches_combine() {
    let dhcp = |dhcp4, dhcp6| {
        let mut e = ethernet();
        e.dhcp4 = dhcp4;
        e.dhcp6 = dhcp6;
        e.to_interface("eth0").unwrap().dhcp
    };
    assert_eq!(dhcp(Some(true), Some(true)), Some(DhcpSetting::Both));
    assert_eq!(dhcp(Some(true), Some(false)), Some(DhcpSetting::V4));
    assert_eq!(dhcp(None, Some(true)), Some(DhcpSetting::V6));
    assert_eq!(dhcp(Some(false), None), None);
    assert_eq!(dhcp(None, None), None);
}

#[test]
fn ethernet_refuses_what_comes_first() {
    let mut broken = ethernet();
    broken.nameservers = Some(NameserversV2 { addresses: vec!["dns".to_string()] });
    assert!(matches!(broken.to_interface("eth0"), Err(Error::InvalidIpAddr(_))));
    broken.gateway6 = Some("gateway".to_string());
    assert!(matches!(broken.to_interface("eth0"), Err(Error::InvalidIpAddr(_))));
    broken.addresses = vec!["10.0.0.1/8".to_string(), "10.0.0.2/33".to_string()];
    let error = broken.to_interface("eth0").unwrap_err();
    assert_eq!(error.message(), "invalid address: 10.0.0.2/33");
    broken.match_config = Some(MatchV2 { macaddress: Some("mac".to_string()), name: None });
    assert!(matches!(broken.to_interface("eth0"), Err(Error::InvalidMacAddr(_))));
}

#[test]
fn ethernet_gateways_are_used_per_family() {
    let mut dual = ethernet();
    dual.addresses = vec!["10.0.0.2/30".to_string(), "fd00::2/64".to_string()];
    dual.gateway4 = Some("10.0.0.1".to_string());
    dual.gateway6 = Some("fd00::1".to_string());
    dual.dhcp4 = Some(true);
    dual.dhcp6 = Some(true);
    let data = v2(vec![("eth0", dual)]);
    assert_eq!(
        KubeVirtProvider::read_rd_network_kargs(&data).unwrap().unwrap(),
        "ip=10.0.0.2::10.0.0.1:255.255.255.252::eth0:none ip=fd00::2::fd00::1:64::eth0:none \
         ip=eth0:dhcp,dhcp6"
    );
}

#[test]
fn first_gateway_of_a_family_is_used() {
    let data = v1(vec![entry(
        "physical",
        Some("eth0"),
        vec![
            static_subnet("fd00::2/64", None, Some("fd00::1")),
            static_subnet("10.0.0.2/8", None, Some("10.0.0.1")),
            static_subnet("10.0.0.3/8", None, Some("10.0.0.254")),
        ],
    )]);
    assert_eq!(
        KubeVirtProvider::read_rd_network_kargs(&data).unwrap().unwrap(),
        "ip=fd00::2::fd00::1:64::eth0:none ip=10.0.0.2::10.0.0.1:255.0.0.0::eth0:none \
         ip=10.0.0.3::10.0.0.1:255.0.0.0::eth0:none"
    );
}

#[test]
fn routes_to_part_of_a_family_are_no_default() {
    let mut iface = named("eth0");
    iface.ip_addresses.push(IpNetwork::from_str("10.0.0.2/0").unwrap());
    iface.routes.push(NetworkRoute {
        destination: IpNetwork::from_str("10.0.0.0/8").unwrap(),
        gateway: IpAddr::from_str("10.0.0.1").unwrap(),
    });
    iface.routes.push(NetworkRoute {
        destination: IpNetwork::from_str("::/0").unwrap(),
        gateway: IpAddr::from_str("fd00::1").unwrap(),
    });
    assert_eq!(
        write_network_kargs(&vec![iface], KargStyle::Name).unwrap(),
        "ip=10.0.0.2:::0.0.0.0::eth0:none"
    );
}

#[test]
fn order_of_ethernets_keeps_their_interfaces() {
    let with = |address: &str| {
        let mut e = ethernet();
        e.addresses = vec![address.to_string()];
        e
    };
    let forth = network_interfaces(&v2(vec![("eth0", with("10.0.0.1/8")), ("eth1", with("10.0.0.2/8"))])).unwrap();
    let back = network_interfaces(&v2(vec![("eth1", with("10.0.0.2/8")), ("eth0", with("10.0.0.1/8"))])).unwrap();
    assert_eq!(forth[0].name, back[1].name);
    assert_eq!(forth[0].ip_addresses, back[1].ip_addresses);
    assert_eq!(forth[1].name, back[0].name);
    assert_ne!(forth[0].name, forth[1].name);
    assert!(network_interfaces(&v2(vec![("eth0", with("10.0.0.1/8")), ("eth1", with("?"))])).is_err());
    assert!(network_interfaces(&v2(vec![("eth1", with("?")), ("eth0", with("10.0.0.1/8"))])).is_err());
}

#[test]
fn versions_give_the_same_interface() {
    let mut physical = entry(
        "physical",
        Some("eth0"),
        vec![static_subnet("10.0.0.2/8", None, Some("10.0.0.1")), subnet("dhcp6")],
    );
    physical.mac_address = Some("06:52:db:01:ff:d9".to_string());
    let mut e = ethernet();
    e.match_config = Some(MatchV2 { macaddress: Some("06:52:db:01:ff:d9".to_string()), name: None });
    e.addresses = vec!["10.0.0.2/8".to_string()];
    e.gateway4 = Some("10.0.0.1".to_string());
    e.dhcp6 = Some(true);
    let a = physical.to_interface().unwrap();
    let b = e.to_interface("eth0").unwrap();
    assert_eq!(a.name, b.name);
    assert_eq!(a.mac_address, b.mac_address);
    assert_eq!(a.ip_addresses, b.ip_addresses);
    assert_eq!(a.routes, b.routes);
    assert_eq!(a.dhcp, b.dhcp);
    assert_eq!(a.nameservers, b.nameservers);
}

#[test]
fn netmasks_are_written_as_given() {
    for mask in ["0.0.0.0", "128.0.0.0", "255.255.255.0", "255.255.255.254", "255.255.255.255"] {
        let data = v1(vec![entry(
            "physical",
            Some("eth0"),
            vec![static_subnet("10.0.0.2", Some(mask), None)],
        )]);
        assert_eq!(
            KubeVirtProvider::read_rd_network_kargs(&data).unwrap().unwrap(),
            format!("ip=10.0.0.2:::{}::eth0:none", mask)
        );
    }
}

#[test]
fn addresses_know_their_parts() {
    let v4 = IpNetwork::from_str("10.0.0.2/255.0.0.0").unwrap();
    assert_eq!(v4.ip(), IpAddr::V4(0x0a00_0002));
    assert_eq!(v4.prefix(), 8);
    assert!(v4.is_ipv4() && !v4.is_ipv6());
    let v6 = IpNetwork::from_str("::1").unwrap();
    assert_eq!(v6.ip(), IpAddr::V6(1));
    assert_eq!(v6.prefix(), 128);
    assert!(v6.is_ipv6() && !v6.is_ipv4());
    assert!(v6.ip().is_ipv6() && !v4.ip().is_ipv6());
}

#[test]
fn kargs_keep_the_order_of_interfaces() {
    let mut first = named("eth0");
    first.dhcp = Some(DhcpSetting::V4);
    first.nameservers.push(IpAddr::V4(0x0101_0101));
    let mut second = named("eth1");
    second.dhcp = Some(DhcpSetting::Both);
    second.mac_address = Some(MacAddr(0, 1, 0xa, 0xb, 0xfe, 0xff));
    let interfaces = vec![first, named("eth2"), second];
    assert_eq!(
        write_network_kargs(&interfaces, KargStyle::Name).unwrap(),
        "ip=eth0:dhcp nameserver=1.1.1.1 ip=eth1:dhcp,dhcp6"
    );
    assert_eq!(
        write_network_kargs(&interfaces, KargStyle::MacOrName).unwrap(),
        "ip=eth0:dhcp nameserver=1.1.1.1 ip=00:01:0a:0b:fe:ff:dhcp,dhcp6"
    );
    assert_eq!(write_network_kargs(&vec![], KargStyle::Name), None);
}

#[test]
fn written_addresses_are_read_back() {
    assert_eq!(IpAddr::from_str("192.168.1.10").unwrap(), IpAddr::V4(0xc0a8_010a));
    assert!(IpAddr::from_str("192.168.01.10").is_err());
    assert_eq!(
        IpNetwork::from_str("192.168.1.10/0").unwrap(),
        IpNetwork::V4 { ip: 0xc0a8_010a, prefix: 0 }
    );
    assert_eq!(
        IpNetwork::from_str("255.255.255.255/32").unwrap(),
        IpNetwork::V4 { ip: u32::MAX, prefix: 32 }
    );
    assert_eq!(
        MacAddr::from_str("00:01:0a:0b:fe:ff").unwrap(),
        MacAddr(0, 1, 0xa, 0xb, 0xfe, 0xff)
    );
    let error = MacAddr::from_str("00:01:0a:0b:fe:ff:00").unwrap_err();
    assert!(matches!(error, Error::InvalidMacAddr(_)));
}

#[test]
fn other_entries_change_nothing() {
    let eth0 = || entry("physical", Some("eth0"), vec![subnet("dhcp")]);
    let eth1 = || entry("physical", Some("eth1"), vec![subnet("dhcp6")]);
    let dns = || nameserver(&["8.8.8.8"]);
    let plain = NetworkDataV1 { version: 1, config: vec![eth0(), eth1(), dns()] };
    let mixed = NetworkDataV1 {
        version: 1,
        config: vec![entry("bond", None, vec![]), eth0(), dns(), entry("vlan", None, vec![]), eth1()],
    };
    let a = network_interfaces_v1(&plain).unwrap();
    let b = network_interfaces_v1(&mixed).unwrap();
    assert_eq!(a.len(), 2);
    assert_eq!(b.len(), 2);
    for k in 0..2 {
        assert_eq!(a[k].name, b[k].name);
        assert_eq!(a[k].dhcp, b[k].dhcp);
        assert_eq!(a[k].nameservers, b[k].nameservers);
    }
}

#[test]
fn no_ethernets_give_no_interfaces() {
    assert!(network_interfaces_v2(&NetworkDataV2 { version: 2, ethernets: vec![] }).unwrap().is_empty());
}

//! Attributes, hostnames and the config device.

use afterburn_kubevirt::address::IpNetwork;
use afterburn_kubevirt::cloudconfig::{KubeVirtCloudConfig, LoadError};
use afterburn_kubevirt::error::Error;
use afterburn_kubevirt::metadata::MetaDataJSON;
use afterburn_kubevirt::network::Interface;
use afterburn_kubevirt::provider::{AttributesError, KubeVirtProvider};

fn text_of(value: &serde_json::Value, key: &str) -> Option<String> {
    value.get(key).and_then(|v| v.as_str()).map(|s| s.to_string())
}

fn read_metadata(text: &str) -> MetaDataJSON {
    let value: serde_json::Value = serde_json::from_str(text).unwrap();
    MetaDataJSON {
        hostname: text_of(&value, "hostname").unwrap(),
        instance_id: text_of(&value, "uuid").unwrap(),
        instance_type: text_of(&value, "instance_type"),
        public_keys: None,
    }
}

fn metadata(instance_id: &str, hostname: &str) -> MetaDataJSON {
    MetaDataJSON {
        hostname: hostname.to_string(),
        instance_id: instance_id.to_string(),
        instance_type: None,
        public_keys: None,
    }
}

fn interface_with(addresses: &[&str]) -> Interface {
    let mut iface = Interface::named(Some("eth0".to_string()));
    for address in addresses {
        iface.ip_addresses.push(IpNetwork::from_str(address).unwrap());
    }
    iface
}

#[test]
fn test_kubevirt_basic_attributes() {
    let metadata = r#"
{
  "hostname": "test_instance-kubevirt.foo.cloud",
  "uuid": "41b4fb82-ca29-11eb-b8bc-0242ac130003"
}
"#;

    let parsed = read_metadata(metadata);
    assert_eq!(parsed.instance_id, "41b4fb82-ca29-11eb-b8bc-0242ac130003");
    assert_eq!(parsed.hostname, "test_instance-kubevirt.foo.cloud");

    let attrs = KubeVirtProvider::known_attributes(parsed).unwrap();
    assert_eq!(attrs.len(), 2);
    assert_eq!(
        attrs.get("KUBEVIRT_INSTANCE_ID"),
        Some(&"41b4fb82-ca29-11eb-b8bc-0242ac130003".to_string())
    );
    assert_eq!(
        attrs.get("KUBEVIRT_HOSTNAME"),
        Some(&"test_instance-kubevirt.foo.cloud".to_string())
    );
}

#[test]
fn test_kubevirt_extended_attributes() {
    let metadata = r#"
{
  "hostname": "test_instance-kubevirt.foo.cloud",
  "uuid": "41b4fb82-ca29-11eb-b8bc-0242ac130003",
  "instance_type": "some_type"
}
"#;

    let parsed = read_metadata(metadata);
    assert_eq!(parsed.instance_id, "41b4fb82-ca29-11eb-b8bc-0242ac130003");
    assert_eq!(parsed.hostname, "test_instance-kubevirt.foo.cloud");
    assert_eq!(parsed.instance_type.as_deref().unwrap(), "some_type");

    let attrs = KubeVirtProvider::known_attributes(parsed).unwrap();
    assert_eq!(attrs.len(), 3);
    assert_eq!(
        attrs.get("KUBEVIRT_INSTANCE_ID"),
        Some(&"41b4fb82-ca29-11eb-b8bc-0242ac130003".to_string())
    );
    assert_eq!(
        attrs.get("KUBEVIRT_HOSTNAME"),
        Some(&"test_instance-kubevirt.foo.cloud".to_string())
    );
    assert_eq!(
        attrs.get("KUBEVIRT_INSTANCE_TYPE"),
        Some(&"some_type".to_string())
    );
}

#[test]
fn empty_instance_id_is_refused_first() {
    match KubeVirtProvider::known_attributes(metadata("", "")) {
        Err(error) => {
            assert!(matches!(error, Error::EmptyInstanceId));
            assert_eq!(error.message(), "empty instance ID");
        }
        Ok(_) => panic!("an empty instance ID was accepted"),
    }
}

#[test]
fn empty_hostname_is_refused_as_attribute() {
    match KubeVirtProvider::known_attributes(metadata("id", "")) {
        Err(error) => {
            assert!(matches!(error, Error::EmptyHostname));
            assert_eq!(error.message(), "empty local hostname");
        }
        Ok(_) => panic!("an empty hostname was accepted"),
    }
}

#[test]
fn empty_hostname_is_no_hostname() {
    assert_eq!(KubeVirtProvider::hostname(metadata("id", "")).unwrap(), None);
    assert_eq!(
        KubeVirtProvider::hostname(metadata("id", "node")).unwrap(),
        Some("node".to_string())
    );
    let config = KubeVirtCloudConfig { meta_data: metadata("id", ""), network_data: None };
    assert_eq!(config.hostname().unwrap(), None);
    let config = KubeVirtCloudConfig { meta_data: metadata("id", "node"), network_data: None };
    assert_eq!(config.hostname().unwrap(), Some("node".to_string()));
}

#[test]
fn cloud_config_has_the_known_attributes() {
    let mut meta_data = metadata("id", "node");
    meta_data.instance_type = Some("small".to_string());
    let config = KubeVirtCloudConfig { meta_data, network_data: None };
    let attrs = config.attributes().unwrap();
    assert_eq!(attrs.len(), 3);
    assert_eq!(attrs.get("KUBEVIRT_INSTANCE_ID"), Some(&"id".to_string()));
    assert_eq!(attrs.get("KUBEVIRT_HOSTNAME"), Some(&"node".to_string()));
    assert_eq!(attrs.get("KUBEVIRT_INSTANCE_TYPE"), Some(&"small".to_string()));
    let config = KubeVirtCloudConfig { meta_data: metadata("", "node"), network_data: None };
    assert!(matches!(config.attributes(), Err(Error::EmptyInstanceId)));
}

#[test]
fn attributes_hold_last_address_of_each_family() {
    let networks = vec![
        interface_with(&["10.0.0.1/8", "fd00::1/64", "192.168.1.10/24", "fd00::2/64"]),
        interface_with(&["172.16.0.1/12"]),
    ];
    let attrs = KubeVirtProvider::attributes::<Error>(metadata("id", "node"), Ok(networks)).ok();
    let attrs = attrs.unwrap();
    assert_eq!(attrs.len(), 4);
    assert_eq!(attrs.get("KUBEVIRT_IPV4"), Some(&"192.168.1.10".to_string()));
    assert_eq!(attrs.get("KUBEVIRT_IPV6"), Some(&"fd00::2".to_string()));
    assert_eq!(attrs.get("KUBEVIRT_INSTANCE_ID"), Some(&"id".to_string()));
}

#[test]
fn attributes_without_interfaces_hold_no_address() {
    let attrs = KubeVirtProvider::attributes::<Error>(metadata("id", "node"), Ok(vec![])).ok();
    assert_eq!(attrs.unwrap().len(), 2);
    let networks = vec![interface_with(&[]), interface_with(&["10.0.0.1/8"])];
    let attrs = KubeVirtProvider::attributes::<Error>(metadata("id", "node"), Ok(networks)).ok();
    assert_eq!(attrs.unwrap().len(), 2);
}

#[test]
fn attributes_report_metadata_before_networks() {
    let refused = KubeVirtProvider::attributes(metadata("", "node"), Err("unreadable"));
    assert!(matches!(refused, Err(AttributesError::Metadata(Error::EmptyInstanceId))));
    let refused = KubeVirtProvider::attributes(metadata("id", "node"), Err("unreadable"));
    assert!(matches!(refused, Err(AttributesError::Networks("unreadable"))));
}

#[test]
fn stored_addresses_leave_other_attributes() {
    let mut attrs = KubeVirtProvider::known_attributes(metadata("id", "node")).unwrap();
    attrs.insert("KUBEVIRT_IPV6".to_string(), "::1".to_string());
    KubeVirtProvider::add_addresses(&mut attrs, &vec![interface_with(&["10.0.0.1/8"])]);
    assert_eq!(attrs.len(), 4);
    assert_eq!(attrs.get("KUBEVIRT_IPV4"), Some(&"10.0.0.1".to_string()));
    assert_eq!(attrs.get("KUBEVIRT_IPV6"), Some(&"::1".to_string()));
    assert_eq!(attrs.get("KUBEVIRT_HOSTNAME"), Some(&"node".to_string()));
}

#[test]
fn config_device_is_trimmed_output() {
    let device = KubeVirtProvider::config_device(true, &b" /dev/vdb\n".to_vec()).unwrap();
    assert_eq!(device, "/dev/vdb");
    let device = KubeVirtProvider::config_device(true, &vec![]).unwrap();
    assert_eq!(device, "");
    let device = KubeVirtProvider::config_device(true, &vec![b'/', 0xff, b'\n']).unwrap();
    assert_eq!(device, "/\u{fffd}");
}

#[test]
fn config_device_may_be_missing() {
    let error = KubeVirtProvider::config_device(false, &b"/dev/vdb\n".to_vec()).unwrap_err();
    assert!(matches!(error, Error::ConfigDeviceNotFound));
    assert_eq!(error.message(), "could not find config device");
    assert_eq!(error.cause(), None);
}

#[test]
fn cloud_config_needs_metadata() {
    let missing = KubeVirtCloudConfig::try_new::<String>(Ok(None), Ok(None));
    assert_eq!(missing.unwrap_err(), LoadError::MetadataNotFound);
    let both = KubeVirtCloudConfig::try_new(Err("metadata"), Err("network data"));
    assert_eq!(both.unwrap_err(), LoadError::Unreadable("metadata"));
    let missing_first = KubeVirtCloudConfig::try_new(Ok(None), Err("network data"));
    assert_eq!(missing_first.unwrap_err(), LoadError::MetadataNotFound);
    let network = KubeVirtCloudConfig::try_new(Ok(Some(metadata("id", "node"))), Err("network"));
    assert_eq!(network.unwrap_err(), LoadError::Unreadable("network"));
    let config = KubeVirtCloudConfig::try_new::<String>(Ok(Some(metadata("id", "node"))), Ok(None));
    let config = config.unwrap();
    assert_eq!(config.meta_data.hostname, "node");
    assert!(config.network_data.is_none());
}

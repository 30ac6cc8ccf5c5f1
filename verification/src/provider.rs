//! The KubeVirt provider, which reads its config-drive anew for each question. These are its
//! answers to what was read.

use crate::address;
use crate::address::IpNetwork;
use crate::error;
use crate::error::{Error, ErrorModel};
use crate::kargs;
use crate::kargs::KargStyle;
use crate::metadata;
use crate::metadata::{MetaDataJSON, PublicKey};
use crate::network::{Interface, InterfaceModel};
use crate::networkdata;
use crate::networkdata::NetworkData;
use crate::text;
use vstd::hash_map::StringHashMap;
use vstd::prelude::*;

verus! {

/// The provider of KubeVirt metadata.
pub struct KubeVirtProvider;

/// The attribute that the address of a network is stored under.
pub open spec fn address_attribute(network: IpNetwork) -> Seq<char> {
    match network {
        IpNetwork::V4 { .. } => "KUBEVIRT_IPV4"@,
        IpNetwork::V6 { .. } => "KUBEVIRT_IPV6"@,
    }
}

/// Attributes with the addresses of the given networks stored one after the other, so that
/// of each family the last one remains.
pub open spec fn with_addresses(
    attributes: Map<Seq<char>, Seq<char>>,
    networks: Seq<IpNetwork>,
) -> Map<Seq<char>, Seq<char>>
    decreases networks.len(),
{
    if networks.len() == 0 {
        attributes
    } else {
        with_addresses(attributes, networks.drop_last()).insert(
            address_attribute(networks.last()),
            address::address_text(networks.last().address()),
        )
    }
}

/// Attributes with the addresses of the first of the given interfaces, if there is one.
pub open spec fn with_first_interface(
    attributes: Map<Seq<char>, Seq<char>>,
    interfaces: Seq<InterfaceModel>,
) -> Map<Seq<char>, Seq<char>> {
    if interfaces.len() == 0 {
        attributes
    } else {
        with_addresses(attributes, interfaces.first().ip_addresses)
    }
}

/// Why a provider has no attributes.
#[derive(Debug)]
pub enum AttributesError<E> {
    /// The metadata does not identify the instance.
    Metadata(Error),
    /// The interfaces could not be had.
    Networks(E),
}

/// The text that `String::from_utf8_lossy` of std makes of bytes.
pub uninterp spec fn lossy_text(bytes: Seq<u8>) -> Seq<char>;

/// `String::from_utf8_lossy` of std: the bytes as text, exactly if they are valid UTF-8 and
/// with replacement characters for what is not. The result depends on the bytes alone.
#[verifier::external_body]
fn from_utf8_lossy(bytes: &Vec<u8>) -> (result: String)
    ensures
        result@ == lossy_text(bytes@),
        vstd::utf8::valid_utf8(bytes@) ==> vstd::utf8::encode_utf8(result@) == bytes@,
{
    String::from_utf8_lossy(bytes).into_owned()
}

impl KubeVirtProvider {
    /// The line of kernel arguments for the interfaces of network data, which are named by their
    /// names.
    pub open spec fn kernel_arguments(network_data: NetworkData) -> Option<Seq<char>> {
        kargs::karg_line_of(network_data.interfaces(), KargStyle::Name)
    }

    /// The device that a block device lookup named in the given text, if it succeeded.
    pub open spec fn named_device(found: bool, output: Seq<char>) -> Result<Seq<char>, ErrorModel> {
        if found {
            Ok(text::trimmed(output))
        } else {
            Err(ErrorModel::ConfigDeviceNotFound)
        }
    }

    /// The device that carries the config-drive, as the block device lookup named it on its
    /// standard output, provided that the lookup succeeded.
    pub fn config_device(found: bool, stdout: &Vec<u8>) -> (result: Result<String, Error>)
        ensures
            error::outcome(result) == KubeVirtProvider::named_device(found, lossy_text(stdout@)),
    {
        if found {
            let output = from_utf8_lossy(stdout);
            Ok(text::trim(output.as_str()).to_owned())
        } else {
            Err(Error::ConfigDeviceNotFound)
        }
    }

    /// The attributes that identify the instance.
    pub fn known_attributes(metadata: MetaDataJSON) -> (result: Result<
        StringHashMap<String>,
        Error,
    >)
        ensures
            match result {
                Ok(attributes) => metadata.attributes() == Ok::<
                    Map<Seq<char>, Seq<char>>,
                    ErrorModel,
                >(metadata::attribute_texts(attributes@)),
                Err(error) => metadata.attributes() == Err::<
                    Map<Seq<char>, Seq<char>>,
                    ErrorModel,
                >(error@),
            },
    {
        metadata.read_attributes()
    }

    /// Adds the addresses of the first interface to the attributes.
    pub fn add_addresses(attributes: &mut StringHashMap<String>, networks: &Vec<Interface>)
        ensures
            metadata::attribute_texts(final(attributes)@) == with_first_interface(
                metadata::attribute_texts(old(attributes)@),
                networks.deep_view(),
            ),
    {
        if networks.len() == 0 {
            return;
        }
        let ghost before = metadata::attribute_texts(attributes@);
        let first = &networks[0];
        let mut i: usize = 0;
        assert(first.ip_addresses@.take(0) =~= Seq::empty());
        while i < first.ip_addresses.len()
            invariant
                i <= first.ip_addresses@.len(),
                metadata::attribute_texts(attributes@) == with_addresses(
                    before,
                    first.ip_addresses@.take(i as int),
                ),
            decreases first.ip_addresses@.len() - i,
        {
            let network = first.ip_addresses[i];
            let key = match network {
                IpNetwork::V4 { .. } => "KUBEVIRT_IPV4",
                IpNetwork::V6 { .. } => "KUBEVIRT_IPV6",
            };
            let address = address::ip_addr_text(network.ip());
            let ghost stored = metadata::attribute_texts(attributes@);
            attributes.insert(key.to_owned(), address);
            proof {
                assert(metadata::attribute_texts(attributes@) =~= stored.insert(key@, address@));
                assert(first.ip_addresses@.take(i + 1).drop_last() =~= first.ip_addresses@.take(
                    i as int,
                ));
            }
            i = i + 1;
        }
        assert(first.ip_addresses@.take(i as int) =~= first.ip_addresses@);
    }

    /// The attributes of the instance: those that identify it, and the addresses of its first
    /// interface. What is wrong with the metadata is reported first.
    pub fn attributes<E>(
        metadata: MetaDataJSON,
        networks: Result<Vec<Interface>, E>,
    ) -> (result: Result<StringHashMap<String>, AttributesError<E>>)
        ensures
            match result {
                Ok(attributes) => {
                    &&& metadata.attributes() is Ok
                    &&& networks is Ok
                    &&& metadata::attribute_texts(attributes@) == with_first_interface(
                        metadata.attributes()->Ok_0,
                        networks->Ok_0.deep_view(),
                    )
                },
                Err(AttributesError::Metadata(error)) => metadata.attributes() == Err::<
                    Map<Seq<char>, Seq<char>>,
                    ErrorModel,
                >(error@),
                Err(AttributesError::Networks(error)) => {
                    &&& metadata.attributes() is Ok
                    &&& networks == Err::<Vec<Interface>, E>(error)
                },
            },
    {
        let mut attributes = match KubeVirtProvider::known_attributes(metadata) {
            Ok(attributes) => attributes,
            Err(error) => return Err(AttributesError::Metadata(error)),
        };
        match networks {
            Ok(networks) => {
                KubeVirtProvider::add_addresses(&mut attributes, &networks);
                Ok(attributes)
            },
            Err(error) => Err(AttributesError::Networks(error)),
        }
    }

    /// The hostname, unless it is empty.
    pub fn hostname(metadata: MetaDataJSON) -> (result: Result<Option<String>, Error>)
        ensures
            error::outcome(result) == Ok::<Option<Seq<char>>, ErrorModel>(
                metadata.visible_hostname(),
            ),
    {
        Ok(metadata.read_hostname())
    }

    /// The SSH keys of the instance.
    pub fn public_keys(metadata: MetaDataJSON) -> (result: Result<Vec<PublicKey>, Error>)
        requires
            metadata.keys_can_be_parsed(),
        ensures
            error::outcome(result) == metadata::keys_of(metadata.listed_keys()),
    {
        metadata.read_keys()
    }

    /// The SSH keys of the instance. There is no result if a key is reached that the key parser
    /// may not be given.
    pub fn try_public_keys(metadata: MetaDataJSON) -> (result: Option<
        Result<Vec<PublicKey>, Error>,
    >)
        ensures
            match result {
                Some(keys) => {
                    &&& metadata.keys_can_be_parsed()
                    &&& error::outcome(keys) == metadata::keys_of(metadata.listed_keys())
                },
                None => !metadata.keys_can_be_parsed(),
            },
    {
        if metadata.keys_parse() {
            Some(KubeVirtProvider::public_keys(metadata))
        } else {
            None
        }
    }

    /// The kernel arguments that the interfaces need in the initramfs, if they need any.
    /// Network data that describes no interfaces because it is refused needs none.
    pub fn read_rd_network_kargs(network_data: &NetworkData) -> (result: Result<
        Option<String>,
        Error,
    >)
        ensures
            error::outcome(result) == Ok::<Option<Seq<char>>, ErrorModel>(
                KubeVirtProvider::kernel_arguments(*network_data),
            ),
    {
        match networkdata::network_interfaces(network_data) {
            Ok(networks) => Ok(kargs::write_network_kargs(&networks, KargStyle::Name)),
            Err(_) => Ok(None),
        }
    }
}

} // verus!

//! The configuration of a KubeVirt instance once its files have been read.
//!
//! The config-drive is the only metadata source. Its layout is that of the cloud-init
//! ConfigDrive: `meta_data.json` must be there, `network_data.json` may be.

use crate::error;
use crate::error::{Error, ErrorModel};
use crate::kargs;
use crate::kargs::KargStyle;
use crate::metadata;
use crate::metadata::{MetaDataJSON, PublicKey};
use crate::network::{Interface, InterfaceModel};
use crate::networkdata;
use crate::networkdata::NetworkData;
use vstd::hash_map::StringHashMap;
use vstd::prelude::*;

verus! {

/// The contents of a config-drive.
#[derive(Debug)]
pub struct KubeVirtCloudConfig {
    pub meta_data: MetaDataJSON,
    pub network_data: Option<NetworkData>,
}

/// Why a config-drive gives no configuration.
#[derive(Debug, PartialEq, Eq)]
pub enum LoadError<E> {
    /// There is no `meta_data.json`.
    MetadataNotFound,
    /// A file could not be read.
    Unreadable(E),
}

impl KubeVirtCloudConfig {
    /// The interfaces that the network data describes; none without network data.
    pub open spec fn interfaces(self) -> Result<Seq<InterfaceModel>, ErrorModel> {
        match self.network_data {
            Some(data) => data.interfaces(),
            None => Ok(Seq::empty()),
        }
    }

    /// The line of kernel arguments for the interfaces, which are named by their MAC addresses.
    pub open spec fn kernel_arguments(self) -> Option<Seq<char>> {
        kargs::karg_line_of(self.interfaces(), KargStyle::MacOrName)
    }

    /// Puts together what was read of the two files of a config-drive: the metadata, without
    /// which there is no configuration, and the network data, which may be missing. What is
    /// wrong with the metadata is reported first.
    pub fn try_new<E>(
        meta_data: Result<Option<MetaDataJSON>, E>,
        network_data: Result<Option<NetworkData>, E>,
    ) -> (result: Result<KubeVirtCloudConfig, LoadError<E>>)
        ensures
            result == (match (meta_data, network_data) {
                (Err(error), _) => Err(LoadError::Unreadable(error)),
                (Ok(None), _) => Err(LoadError::MetadataNotFound),
                (Ok(Some(_)), Err(error)) => Err(LoadError::Unreadable(error)),
                (Ok(Some(meta_data)), Ok(network_data)) => Ok(
                    KubeVirtCloudConfig { meta_data, network_data },
                ),
            }),
    {
        let meta_data = match meta_data {
            Ok(Some(meta_data)) => meta_data,
            Ok(None) => return Err(LoadError::MetadataNotFound),
            Err(error) => return Err(LoadError::Unreadable(error)),
        };
        match network_data {
            Ok(network_data) => Ok(KubeVirtCloudConfig { meta_data, network_data }),
            Err(error) => Err(LoadError::Unreadable(error)),
        }
    }

    /// The attributes that identify the instance.
    pub fn attributes(&self) -> (result: Result<StringHashMap<String>, Error>)
        ensures
            match result {
                Ok(attributes) => self.meta_data.attributes() == Ok::<
                    Map<Seq<char>, Seq<char>>,
                    ErrorModel,
                >(metadata::attribute_texts(attributes@)),
                Err(error) => self.meta_data.attributes() == Err::<
                    Map<Seq<char>, Seq<char>>,
                    ErrorModel,
                >(error@),
            },
    {
        self.meta_data.read_attributes()
    }

    /// The hostname, unless it is empty.
    pub fn hostname(&self) -> (result: Result<Option<String>, Error>)
        ensures
            error::outcome(result) == Ok::<Option<Seq<char>>, ErrorModel>(
                self.meta_data.visible_hostname(),
            ),
    {
        Ok(self.meta_data.read_hostname())
    }

    /// The SSH keys of the instance.
    pub fn ssh_keys(&self) -> (result: Result<Vec<PublicKey>, Error>)
        requires
            self.meta_data.keys_can_be_parsed(),
        ensures
            error::outcome(result) == metadata::keys_of(self.meta_data.listed_keys()),
    {
        self.meta_data.read_keys()
    }

    /// The SSH keys of the instance. There is no result if a key is reached that the key parser
    /// may not be given.
    pub fn try_ssh_keys(&self) -> (result: Option<Result<Vec<PublicKey>, Error>>)
        ensures
            match result {
                Some(keys) => {
                    &&& self.meta_data.keys_can_be_parsed()
                    &&& error::outcome(keys) == metadata::keys_of(self.meta_data.listed_keys())
                },
                None => !self.meta_data.keys_can_be_parsed(),
            },
    {
        if self.meta_data.keys_parse() {
            Some(self.ssh_keys())
        } else {
            None
        }
    }

    /// The interfaces that the network data describes; none without network data.
    pub fn networks(&self) -> (result: Result<Vec<Interface>, Error>)
        ensures
            error::outcome(result) == self.interfaces(),
            result is Ok ==> networkdata::all_well_formed(result->Ok_0.deep_view()),
    {
        match &self.network_data {
            Some(network_data) => networkdata::network_interfaces(network_data),
            None => {
                let none: Vec<Interface> = Vec::new();
                assert(none.deep_view() =~= Seq::<InterfaceModel>::empty());
                Ok(none)
            },
        }
    }

    /// The kernel arguments that the interfaces need in the initramfs, if they need any.
    /// Network data that describes no interfaces because it is refused needs none.
    pub fn rd_network_kargs(&self) -> (result: Result<Option<String>, Error>)
        ensures
            error::outcome(result) == Ok::<Option<Seq<char>>, ErrorModel>(self.kernel_arguments()),
    {
        match self.networks() {
            Ok(networks) => Ok(kargs::write_network_kargs(&networks, KargStyle::MacOrName)),
            Err(_) => Ok(None),
        }
    }
}

} // verus!

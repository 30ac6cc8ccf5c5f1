//! What the KubeVirt provider of a metadata agent computes from a config-drive.
//!
//! A KubeVirt guest finds its metadata on a config-drive that follows the
//! cloud-init ConfigDrive layout. This crate holds the part of the provider that
//! decides and computes: which network data format and version a document is in,
//! which interfaces the network data describes, the dracut kernel arguments for
//! them, the instance attributes, the hostname and the SSH keys.

pub mod address;
pub mod cloudconfig;
pub mod document;
pub mod error;
pub mod kargs;
pub mod metadata;
pub mod network;
pub mod networkdata;
pub mod properties;
pub mod provider;
pub mod text;

//! What network data as a whole says of the list of interfaces.

use super::ethernets;
use crate::address;
use crate::address::IpAddr;
use crate::cloudconfig::KubeVirtCloudConfig;
use crate::error;
use crate::error::ErrorModel;
use crate::network::InterfaceModel;
use crate::networkdata;
use crate::networkdata::{
    EthernetV2, NetworkConfigEntry, NetworkData, NetworkDataV1, NetworkDataV2,
};
use vstd::prelude::*;

verus! {

/// The entries of a type, in their order.
pub open spec fn entries_of_type(config: Seq<NetworkConfigEntry>, kind: Seq<char>) -> Seq<
    NetworkConfigEntry,
> {
    config.filter(|entry: NetworkConfigEntry| entry.network_type@ == kind)
}

proof fn entries_agree(config: Seq<NetworkConfigEntry>)
    ensures
        networkdata::physical_interfaces(config) == entries_of_type(config, "physical"@).map_values(
            |entry: NetworkConfigEntry| entry.interface(),
        ),
        networkdata::nameserver_entries(config) == entries_of_type(config, "nameserver"@),
    decreases config.len(),
{
    reveal(Seq::filter);
    let f = |entry: NetworkConfigEntry| entry.interface();
    if config.len() > 0 {
        entries_agree(config.drop_last());
    }
    assert(networkdata::physical_interfaces(config) =~= entries_of_type(
        config,
        "physical"@,
    ).map_values(f));
    assert(networkdata::nameserver_entries(config) =~= entries_of_type(config, "nameserver"@));
}

/// The interfaces of version 1 are those of its physical entries, in their order. The first has
/// the addresses of the nameserver entry as its DNS servers, in their order; the others have
/// none.
pub proof fn v1_list_is_made_of_entries(data: NetworkDataV1)
    ensures
        data.interfaces() matches Ok(interfaces) ==> {
            let physical = entries_of_type(data.config@, "physical"@);
            let servers = entries_of_type(data.config@, "nameserver"@);
            &&& interfaces.len() == physical.len()
            &&& servers.len() <= 1
            &&& forall|i: int|
                0 <= i < physical.len() ==> (#[trigger] physical[i]).interface() == Ok::<
                    InterfaceModel,
                    ErrorModel,
                >(InterfaceModel { nameservers: Seq::empty(), ..interfaces[i] })
            &&& forall|i: int|
                0 < i < interfaces.len() ==> (#[trigger] interfaces[i]).nameservers.len() == 0
            &&& interfaces.len() > 0 && servers.len() == 0 ==> interfaces[0].nameservers.len() == 0
            &&& interfaces.len() > 0 && servers.len() == 1 ==> {
                let texts = servers[0].address@;
                let addresses = interfaces[0].nameservers;
                &&& addresses.len() == texts.len()
                &&& forall|i: int|
                    0 <= i < texts.len() ==> address::ip_addr_from_str((#[trigger] texts[i])@)
                        == Ok::<IpAddr, Seq<char>>(addresses[i])
            }
        },
{
    entries_agree(data.config@);
    if data.interfaces() is Ok {
        let results = networkdata::physical_interfaces(data.config@);
        let physical = entries_of_type(data.config@, "physical"@);
        let servers = entries_of_type(data.config@, "nameserver"@);
        let read = error::collected(results)->Ok_0;
        let interfaces = data.interfaces()->Ok_0;
        error::collected_meaning(results);
        assert forall|i: int| 0 <= i < physical.len() implies (
        #[trigger] physical[i]).interface() == Ok::<InterfaceModel, ErrorModel>(
            InterfaceModel { nameservers: Seq::empty(), ..interfaces[i] },
        ) by {
            assert(results[i] == physical[i].interface());
            assert(results[i] == Ok::<InterfaceModel, ErrorModel>(read[i]));
        }
        assert forall|i: int| 0 < i < interfaces.len() implies (
        #[trigger] interfaces[i]).nameservers.len() == 0 by {
            assert(results[i] == physical[i].interface());
            assert(results[i] == Ok::<InterfaceModel, ErrorModel>(read[i]));
        }
        if interfaces.len() > 0 {
            assert(results[0] == physical[0].interface());
            assert(results[0] == Ok::<InterfaceModel, ErrorModel>(read[0]));
            if servers.len() == 1 {
                ethernets::address_lists_are_read(servers[0].address@);
            }
        }
    }
}

/// Version 1 is refused exactly if there is more than one nameserver entry, or a physical entry
/// is refused, or there is an interface for the addresses of the nameserver entry and one of
/// them cannot be read.
pub proof fn v1_list_is_accepted_if_readable(data: NetworkDataV1)
    ensures
        ({
            let physical = entries_of_type(data.config@, "physical"@);
            let servers = entries_of_type(data.config@, "nameserver"@);
            data.interfaces() is Ok <==> {
                &&& servers.len() <= 1
                &&& forall|i: int|
                    0 <= i < physical.len() ==> (#[trigger] physical[i]).interface() is Ok
                &&& physical.len() > 0 && servers.len() > 0 ==> ethernets::all_addresses(
                    servers[0].address@,
                )
            }
        }),
{
    entries_agree(data.config@);
    let results = networkdata::physical_interfaces(data.config@);
    let physical = entries_of_type(data.config@, "physical"@);
    let servers = entries_of_type(data.config@, "nameserver"@);
    error::collected_meaning(results);
    assert forall|i: int| 0 <= i < physical.len() implies results[i] == (
    #[trigger] physical[i]).interface() by {}
    if error::collected(results) is Ok {
        assert forall|i: int| 0 <= i < physical.len() implies (
        #[trigger] physical[i]).interface() is Ok by {
            assert(results[i] is Ok);
        }
    } else {
        let i = choose|i: int| 0 <= i < results.len() && #[trigger] results[i] is Err;
        assert(physical[i].interface() is Err);
    }
    if servers.len() > 0 {
        ethernets::address_lists_are_read(servers[0].address@);
    }
}

/// Of what is wrong with version 1, more than one nameserver entry is reported first, then the
/// first physical entry that is refused, then the nameserver entry.
pub proof fn first_fault_of_v1_is_reported(data: NetworkDataV1, n: int, reason: ErrorModel)
    ensures
        ({
            let physical = entries_of_type(data.config@, "physical"@);
            let servers = entries_of_type(data.config@, "nameserver"@);
            &&& servers.len() > 1 ==> data.interfaces() == Err::<Seq<InterfaceModel>, ErrorModel>(
                ErrorModel::TooManyNameservers,
            )
            &&& servers.len() <= 1 && 0 <= n < physical.len() && physical[n].interface() == Err::<
                InterfaceModel,
                ErrorModel,
            >(reason) && (forall|i: int|
                0 <= i < n ==> (#[trigger] physical[i]).interface() is Ok) ==> data.interfaces()
                == Err::<Seq<InterfaceModel>, ErrorModel>(reason)
            &&& servers.len() == 1 && physical.len() > 0 && (forall|i: int|
                0 <= i < physical.len() ==> (#[trigger] physical[i]).interface() is Ok)
                && networkdata::addresses_of(servers[0].address@) == Err::<
                Seq<IpAddr>,
                ErrorModel,
            >(reason) ==> data.interfaces() == Err::<Seq<InterfaceModel>, ErrorModel>(reason)
        }),
{
    entries_agree(data.config@);
    let results = networkdata::physical_interfaces(data.config@);
    let physical = entries_of_type(data.config@, "physical"@);
    assert forall|i: int| 0 <= i < physical.len() implies results[i] == (
    #[trigger] physical[i]).interface() by {}
    first_refusal(results, n, reason);
    if forall|i: int| 0 <= i < physical.len() ==> (#[trigger] physical[i]).interface() is Ok {
        error::collected_meaning(results);
        assert forall|i: int| 0 <= i < results.len() implies #[trigger] results[i] is Ok by {
            assert(physical[i].interface() is Ok);
        }
    }
    if forall|i: int| 0 <= i < n ==> (#[trigger] physical[i]).interface() is Ok {
        assert forall|i: int| 0 <= i < n && i < results.len() implies #[trigger] results[i] is Ok by {
            assert(physical[i].interface() is Ok);
        }
    }
}

proof fn first_refusal<T>(results: Seq<Result<T, ErrorModel>>, n: int, reason: ErrorModel)
    ensures
        0 <= n < results.len() && results[n] == Err::<T, ErrorModel>(reason) && (forall|i: int|
            0 <= i < n ==> #[trigger] results[i] is Ok) ==> error::collected(results) == Err::<
            Seq<T>,
            ErrorModel,
        >(reason),
{
    error::collected_meaning(results);
    if 0 <= n < results.len() && results[n] == Err::<T, ErrorModel>(reason) && (forall|i: int|
        0 <= i < n ==> #[trigger] results[i] is Ok) {
        match error::collected(results) {
            Ok(values) => {
                assert(results[n] == Ok::<T, ErrorModel>(values[n]));
            },
            Err(error) => {
                let i = choose|i: int|
                    {
                        &&& 0 <= i < results.len()
                        &&& #[trigger] results[i] == Err::<T, ErrorModel>(error)
                        &&& forall|j: int| 0 <= j < i ==> #[trigger] results[j] is Ok
                    };
                assert(i == n);
            },
        }
    }
}

/// Version 2 is refused for the first of its ethernets that is refused.
pub proof fn first_fault_of_v2_is_reported(data: NetworkDataV2, n: int, reason: ErrorModel)
    requires
        0 <= n < data.ethernets@.len(),
        data.ethernets@[n].1.interface(data.ethernets@[n].0@) == Err::<InterfaceModel, ErrorModel>(
            reason,
        ),
        forall|i: int|
            0 <= i < n ==> (#[trigger] data.ethernets@[i]).1.interface(
                data.ethernets@[i].0@,
            ) is Ok,
    ensures
        data.interfaces() == Err::<Seq<InterfaceModel>, ErrorModel>(reason),
{
    let results = data.ethernets@.map_values(
        |ethernet: (String, EthernetV2)| ethernet.1.interface(ethernet.0@),
    );
    assert(results[n] == Err::<InterfaceModel, ErrorModel>(reason));
    assert forall|i: int| 0 <= i < n implies #[trigger] results[i] is Ok by {
        assert(data.ethernets@[i].1.interface(data.ethernets@[i].0@) is Ok);
    }
    first_refusal(results, n, reason);
}

/// Network data of a version gives the interfaces of that version, and a configuration those of
/// its network data, or none without network data.
pub proof fn interfaces_are_those_of_the_data(
    v1: NetworkDataV1,
    v2: NetworkDataV2,
    config: KubeVirtCloudConfig,
)
    ensures
        NetworkData::V1(v1).interfaces() == v1.interfaces(),
        NetworkData::V2(v2).interfaces() == v2.interfaces(),
        config.network_data matches Some(data) ==> config.interfaces() == data.interfaces(),
        config.network_data is None ==> config.interfaces() == Ok::<
            Seq<InterfaceModel>,
            ErrorModel,
        >(Seq::empty()),
{
}

} // verus!

//! What holds of the crate as a whole: properties that relate several of its functions, over
//! all inputs.

pub mod arguments;
pub mod documents;
pub mod entries;
pub mod ethernets;
pub mod identity;
pub mod lists;
pub mod values;

use crate::address;
use crate::address::{IpAddr, IpNetwork};
use crate::document;
use crate::document::{DataFormat, DataVersion};
use crate::error;
use crate::error::ErrorModel;
use crate::kargs;
use crate::kargs::KargStyle;
use crate::metadata;
use crate::metadata::{MetaDataJSON, PublicKeyModel};
use crate::network::{InterfaceModel, NetworkRoute};
use crate::networkdata;
use crate::networkdata::{
    EthernetV2, NetworkConfigEntry, NetworkConfigSubnet, NetworkData, NetworkDataV1,
    NetworkDataV2,
};
use crate::provider;
use crate::text;
use vstd::arithmetic::power2;
use vstd::prelude::*;

verus! {

/// Whether an interface has the settings that config-drives say nothing about.
pub open spec fn has_defaults(iface: InterfaceModel) -> bool {
    &&& iface.path is None
    &&& iface.priority == 20
    &&& iface.bond is None
    &&& !iface.unmanaged
    &&& iface.required_for_online is None
}

/// The physical entries, in their order.
pub open spec fn physical_entries(config: Seq<NetworkConfigEntry>) -> Seq<NetworkConfigEntry> {
    config.filter(|entry: NetworkConfigEntry| entry.network_type@ == "physical"@)
}

/// The conversions of the physical entries are one for each of them.
proof fn physical_entries_convert(config: Seq<NetworkConfigEntry>)
    ensures
        networkdata::physical_interfaces(config) == physical_entries(config).map_values(
            |entry: NetworkConfigEntry| entry.interface(),
        ),
        forall|i: int|
            0 <= i < physical_entries(config).len() ==> (#[trigger] physical_entries(
                config,
            )[i]).network_type@ == "physical"@,
    decreases config.len(),
{
    reveal(Seq::filter);
    let f = |entry: NetworkConfigEntry| entry.interface();
    if config.len() > 0 {
        let before = config.drop_last();
        physical_entries_convert(before);
        assert(networkdata::physical_interfaces(config) =~= physical_entries(config).map_values(
            f,
        ));
        assert forall|i: int| 0 <= i < physical_entries(config).len() implies (
        #[trigger] physical_entries(config)[i]).network_type@ == "physical"@ by {
            if i < physical_entries(before).len() {
                assert(physical_entries(config)[i] == physical_entries(before)[i]);
            }
        }
    } else {
        assert(networkdata::physical_interfaces(config) =~= physical_entries(config).map_values(
            f,
        ));
    }
}

/// Version 1 gives one interface for each physical entry, in the order of the entries. Only
/// the first interface has DNS servers, those of the nameserver entry if there is one.
pub proof fn v1_interfaces_follow_physical_entries(data: NetworkDataV1)
    ensures
        data.interfaces() matches Ok(interfaces) ==> {
            let physical = physical_entries(data.config@);
            let nameservers = networkdata::nameserver_entries(data.config@);
            &&& interfaces.len() == physical.len()
            &&& nameservers.len() <= 1
            &&& forall|i: int|
                0 <= i < physical.len() ==> (#[trigger] physical[i]).interface() == Ok::<
                    InterfaceModel,
                    ErrorModel,
                >(interfaces[i].with_nameservers(Seq::empty()))
            &&& forall|i: int|
                0 < i < interfaces.len() ==> (#[trigger] interfaces[i]).nameservers.len() == 0
            &&& interfaces.len() > 0 ==> Ok::<Seq<IpAddr>, ErrorModel>(interfaces[0].nameservers)
                == (if nameservers.len() == 1 {
                networkdata::addresses_of(nameservers[0].address@)
            } else {
                Ok(Seq::empty())
            })
        },
{
    if data.interfaces() is Ok {
        let results = networkdata::physical_interfaces(data.config@);
        let physical = physical_entries(data.config@);
        let read = error::collected(results)->Ok_0;
        let interfaces = data.interfaces()->Ok_0;
        physical_entries_convert(data.config@);
        error::collected_meaning(results);
        assert forall|i: int| 0 <= i < physical.len() implies {
            &&& (#[trigger] physical[i]).interface() == Ok::<InterfaceModel, ErrorModel>(read[i])
            &&& read[i].nameservers == Seq::<IpAddr>::empty()
            &&& read[i] == interfaces[i].with_nameservers(Seq::empty())
            &&& i > 0 ==> interfaces[i] == read[i]
        } by {
            assert(results[i] == physical[i].interface());
            assert(results[i] == Ok::<InterfaceModel, ErrorModel>(read[i]));
        }
        if interfaces.len() > 0 {
            assert(physical[0].interface() == Ok::<InterfaceModel, ErrorModel>(read[0]));
        }
        assert forall|i: int| 0 < i < interfaces.len() implies (
        #[trigger] interfaces[i]).nameservers.len() == 0 by {
            assert(physical[i].interface() == Ok::<InterfaceModel, ErrorModel>(read[i]));
        }
    }
}

/// Version 1 is refused exactly if there is more than one nameserver entry, or a physical entry
/// is refused, or there is a physical entry and an address of the nameserver entry cannot be
/// read.
pub proof fn v1_is_refused_for_a_reason(data: NetworkDataV1)
    ensures
        ({
            let physical = physical_entries(data.config@);
            let nameservers = networkdata::nameserver_entries(data.config@);
            data.interfaces() is Err <==> {
                ||| nameservers.len() > 1
                ||| exists|i: int|
                    0 <= i < physical.len() && (#[trigger] physical[i]).interface() is Err
                ||| physical.len() > 0 && nameservers.len() > 0 && exists|k: int|
                    0 <= k < nameservers[0].address@.len() && IpAddr::of_text(
                        (#[trigger] nameservers[0].address@[k])@,
                    ) is Err
            }
        }),
{
    let results = networkdata::physical_interfaces(data.config@);
    let physical = physical_entries(data.config@);
    let nameservers = networkdata::nameserver_entries(data.config@);
    physical_entries_convert(data.config@);
    error::collected_meaning(results);
    assert forall|i: int| 0 <= i < physical.len() implies results[i] == (
    #[trigger] physical[i]).interface() by {}
    if error::collected(results) is Err {
        let i = choose|i: int| 0 <= i < results.len() && #[trigger] results[i] is Err;
        assert(physical[i].interface() is Err);
    } else if nameservers.len() > 0 {
        let texts = nameservers[0].address@;
        let read = texts.map_values(|text: String| IpAddr::of_text(text@));
        error::collected_meaning(read);
        assert forall|k: int| 0 <= k < texts.len() implies read[k] == IpAddr::of_text(
            (#[trigger] texts[k])@,
        ) by {}
        if error::collected(read) is Err {
            let k = choose|k: int| 0 <= k < read.len() && #[trigger] read[k] is Err;
            assert(IpAddr::of_text(texts[k]@) is Err);
        }
    }
}

/// Version 1 depends on its physical entries and on its nameserver entries alone: leaving out
/// entries of other types, or moving a nameserver entry among the physical ones, changes
/// neither whether it is accepted nor the interfaces.
pub proof fn v1_other_entries_are_irrelevant(a: NetworkDataV1, b: NetworkDataV1)
    requires
        physical_entries(a.config@) == physical_entries(b.config@),
        networkdata::nameserver_entries(a.config@) == networkdata::nameserver_entries(b.config@),
    ensures
        a.interfaces() == b.interfaces(),
{
    physical_entries_convert(a.config@);
    physical_entries_convert(b.config@);
}

/// Every interface of either version has the settings that network data says nothing about.
pub proof fn interfaces_have_defaults(data: NetworkData)
    ensures
        data.interfaces() matches Ok(interfaces) ==> forall|i: int|
            0 <= i < interfaces.len() ==> has_defaults(#[trigger] interfaces[i]),
{
    if data.interfaces() is Ok {
        let interfaces = data.interfaces()->Ok_0;
        match data {
            NetworkData::V1(v1) => {
                v1_interfaces_follow_physical_entries(v1);
                assert forall|i: int| 0 <= i < interfaces.len() implies has_defaults(
                    #[trigger] interfaces[i],
                ) by {
                    let entry = physical_entries(v1.config@)[i];
                    assert(has_defaults(entry.interface()->Ok_0));
                }
            },
            NetworkData::V2(v2) => {
                let results = v2.ethernets@.map_values(
                    |ethernet: (String, EthernetV2)| ethernet.1.interface(ethernet.0@),
                );
                error::collected_meaning(results);
                assert forall|i: int| 0 <= i < interfaces.len() implies has_defaults(
                    #[trigger] interfaces[i],
                ) by {
                    assert(results[i] == Ok::<InterfaceModel, ErrorModel>(interfaces[i]));
                }
            },
        }
    }
}

/// Version 2 gives one interface for each listed ethernet, in the order of the list.
pub proof fn v2_interfaces_follow_ethernets(data: NetworkDataV2)
    ensures
        data.interfaces() matches Ok(interfaces) ==> {
            &&& interfaces.len() == data.ethernets@.len()
            &&& forall|i: int|
                0 <= i < interfaces.len() ==> Ok::<InterfaceModel, ErrorModel>(
                    #[trigger] interfaces[i],
                ) == data.ethernets@[i].1.interface(data.ethernets@[i].0@)
        },
{
    let results = data.ethernets@.map_values(
        |ethernet: (String, EthernetV2)| ethernet.1.interface(ethernet.0@),
    );
    error::collected_meaning(results);
    if data.interfaces() is Ok {
        let interfaces = data.interfaces()->Ok_0;
        assert forall|i: int| 0 <= i < interfaces.len() implies Ok::<InterfaceModel, ErrorModel>(
            #[trigger] interfaces[i],
        ) == data.ethernets@[i].1.interface(data.ethernets@[i].0@) by {
            assert(results[i] == Ok::<InterfaceModel, ErrorModel>(interfaces[i]));
        }
    }
}

/// Version 2 is refused exactly if one of its ethernets is.
pub proof fn v2_is_refused_for_a_reason(data: NetworkDataV2)
    ensures
        data.interfaces() is Err <==> exists|i: int|
            0 <= i < data.ethernets@.len() && (#[trigger] data.ethernets@[i]).1.interface(
                data.ethernets@[i].0@,
            ) is Err,
{
    let results = data.ethernets@.map_values(
        |ethernet: (String, EthernetV2)| ethernet.1.interface(ethernet.0@),
    );
    error::collected_meaning(results);
    assert forall|i: int| 0 <= i < results.len() implies results[i] == (
    #[trigger] data.ethernets@[i]).1.interface(data.ethernets@[i].0@) by {}
    if data.interfaces() is Err {
        let i = choose|i: int| 0 <= i < results.len() && #[trigger] results[i] is Err;
        assert(data.ethernets@[i].1.interface(data.ethernets@[i].0@) is Err);
    }
}

/// The ethernets of version 2 are listed by interface name: where none is found by another
/// name, no two interfaces have the same name.
pub proof fn v2_names_are_distinct(data: NetworkDataV2)
    requires
        data.well_formed(),
        forall|i: int|
            0 <= i < data.ethernets@.len() ==> ((
            #[trigger] data.ethernets@[i]).1.match_config matches Some(found) ==> found.name
                is None),
    ensures
        data.interfaces() matches Ok(interfaces) ==> {
            &&& forall|i: int|
                0 <= i < interfaces.len() ==> (#[trigger] interfaces[i]).name == Some(
                    data.ethernets@[i].0@,
                )
            &&& forall|i: int, j: int|
                0 <= i < j < interfaces.len() ==> (#[trigger] interfaces[i]).name != (
                #[trigger] interfaces[j]).name
        },
{
    v2_interfaces_follow_ethernets(data);
    if data.interfaces() is Ok {
        let interfaces = data.interfaces()->Ok_0;
        assert forall|i: int| 0 <= i < interfaces.len() implies (#[trigger] interfaces[i]).name
            == Some(data.ethernets@[i].0@) by {
            let ethernet = data.ethernets@[i];
            assert(Ok::<InterfaceModel, ErrorModel>(interfaces[i]) == ethernet.1.interface(
                ethernet.0@,
            ));
        }
        assert forall|i: int, j: int| 0 <= i < j < interfaces.len() implies (
        #[trigger] interfaces[i]).name != (#[trigger] interfaces[j]).name by {
            assert(data.ethernets@[i].0@ != data.ethernets@[j].0@);
        }
    }
}

/// What is made of each item of a list does not depend on their order.
proof fn map_keeps_multiset<A, B>(a: Seq<A>, b: Seq<A>, f: spec_fn(A) -> B)
    requires
        a.to_multiset() == b.to_multiset(),
    ensures
        a.map_values(f).to_multiset() == b.map_values(f).to_multiset(),
    decreases b.len(),
{
    broadcast use vstd::seq_lib::group_to_multiset_ensures;

    assert(a.len() == a.to_multiset().len());
    assert(b.len() == b.to_multiset().len());
    if b.len() == 0 {
        assert(a.map_values(f) =~= b.map_values(f));
    } else {
        let last = b.last();
        assert(b.contains(last));
        assert(b.to_multiset().count(last) > 0);
        assert(a.contains(last));
        let i = choose|i: int| 0 <= i < a.len() && a[i] == last;
        let rest = a.remove(i);
        assert(b.drop_last() =~= b.remove(b.len() - 1));
        assert(rest.to_multiset() =~= b.drop_last().to_multiset());
        map_keeps_multiset(rest, b.drop_last(), f);
        assert(rest.map_values(f) =~= a.map_values(f).remove(i));
        assert(b.drop_last().map_values(f) =~= b.map_values(f).remove(b.len() - 1));
        let image = f(last);
        assert(a.map_values(f)[i] == image);
        assert(b.map_values(f)[b.len() - 1] == image);
        assert(a.map_values(f).contains(image));
        assert(b.map_values(f).contains(image));
        assert(a.map_values(f).to_multiset() =~= a.map_values(f).remove(i).to_multiset().insert(
            image,
        ));
        assert(b.map_values(f).to_multiset() =~= b.map_values(f).remove(
            b.len() - 1,
        ).to_multiset().insert(image));
    }
}

/// Whether results can be collected, and which values they have, does not depend on their
/// order.
proof fn collected_in_any_order<T>(
    a: Seq<Result<T, ErrorModel>>,
    b: Seq<Result<T, ErrorModel>>,
)
    requires
        a.to_multiset() == b.to_multiset(),
        error::collected(a) is Ok,
    ensures
        error::collected(b) is Ok,
        error::collected(a)->Ok_0.to_multiset() == error::collected(b)->Ok_0.to_multiset(),
{
    broadcast use vstd::seq_lib::group_to_multiset_ensures;

    error::collected_meaning(a);
    error::collected_meaning(b);
    assert forall|i: int| 0 <= i < b.len() implies #[trigger] b[i] is Ok by {
        assert(b.contains(b[i]));
        assert(b.to_multiset().count(b[i]) > 0);
        assert(a.contains(b[i]));
        let j = choose|j: int| 0 <= j < a.len() && a[j] == b[i];
        assert(a[j] is Ok);
    }
    let value = |result: Result<T, ErrorModel>| result->Ok_0;
    assert(a.map_values(value) =~= error::collected(a)->Ok_0) by {
        assert forall|i: int| 0 <= i < a.len() implies a.map_values(value)[i] == error::collected(
            a,
        )->Ok_0[i] by {
            assert(a[i] == Ok::<T, ErrorModel>(error::collected(a)->Ok_0[i]));
        }
    }
    assert(b.map_values(value) =~= error::collected(b)->Ok_0) by {
        assert forall|i: int| 0 <= i < b.len() implies b.map_values(value)[i] == error::collected(
            b,
        )->Ok_0[i] by {
            assert(b[i] == Ok::<T, ErrorModel>(error::collected(b)->Ok_0[i]));
        }
    }
    map_keeps_multiset(a, b, value);
}

/// The order in which version 2 lists its ethernets decides neither whether they are accepted
/// nor which interfaces they give.
pub proof fn v2_order_is_irrelevant(a: NetworkDataV2, b: NetworkDataV2)
    requires
        a.ethernets@.to_multiset() == b.ethernets@.to_multiset(),
    ensures
        a.interfaces() is Ok <==> b.interfaces() is Ok,
        a.interfaces() is Ok ==> a.interfaces()->Ok_0.to_multiset()
            == b.interfaces()->Ok_0.to_multiset(),
{
    let f = |ethernet: (String, EthernetV2)| ethernet.1.interface(ethernet.0@);
    map_keeps_multiset(a.ethernets@, b.ethernets@, f);
    if a.interfaces() is Ok {
        collected_in_any_order(a.ethernets@.map_values(f), b.ethernets@.map_values(f));
    }
    if b.interfaces() is Ok {
        collected_in_any_order(b.ethernets@.map_values(f), a.ethernets@.map_values(f));
    }
}

/// The order in which SSH keys are listed decides neither whether they are accepted nor which
/// keys they are.
pub proof fn key_order_is_irrelevant(a: MetaDataJSON, b: MetaDataJSON)
    requires
        a.listed_keys().to_multiset() == b.listed_keys().to_multiset(),
    ensures
        metadata::keys_of(a.listed_keys()) is Ok <==> metadata::keys_of(b.listed_keys()) is Ok,
        metadata::keys_of(a.listed_keys()) is Ok ==> metadata::keys_of(
            a.listed_keys(),
        )->Ok_0.to_multiset() == metadata::keys_of(b.listed_keys())->Ok_0.to_multiset(),
{
    let f = |entry: (String, String)| metadata::PublicKey::of_text(entry.1@);
    map_keeps_multiset(a.listed_keys(), b.listed_keys(), f);
    if metadata::keys_of(a.listed_keys()) is Ok {
        collected_in_any_order(a.listed_keys().map_values(f), b.listed_keys().map_values(f));
    }
    if metadata::keys_of(b.listed_keys()) is Ok {
        collected_in_any_order(b.listed_keys().map_values(f), a.listed_keys().map_values(f));
    }
}

/// Keys are accepted exactly if each listed text is a key, and then there is one key for each
/// of them, in the order of the list. As no name is listed twice, that is one for each name.
pub proof fn one_key_for_each_name(metadata: MetaDataJSON)
    requires
        metadata.well_formed(),
    ensures
        ({
            let listed = metadata.listed_keys();
            let names = listed.map_values(|entry: (String, String)| entry.0@).to_set();
            &&& metadata::keys_of(listed) is Err <==> exists|i: int|
                0 <= i < listed.len() && metadata::PublicKey::of_text(
                    (#[trigger] listed[i]).1@,
                ) is Err
            &&& metadata::keys_of(listed) matches Ok(keys) ==> {
                &&& keys.len() == listed.len()
                &&& keys.len() == names.len()
                &&& forall|i: int|
                    0 <= i < listed.len() ==> metadata::PublicKey::of_text(
                        (#[trigger] listed[i]).1@,
                    ) == Ok::<PublicKeyModel, ErrorModel>(keys[i])
            }
        }),
{
    let listed = metadata.listed_keys();
    let results = listed.map_values(
        |entry: (String, String)| metadata::PublicKey::of_text(entry.1@),
    );
    error::collected_meaning(results);
    assert forall|i: int| 0 <= i < listed.len() implies results[i]
        == metadata::PublicKey::of_text((#[trigger] listed[i]).1@) by {}
    if metadata::keys_of(listed) is Err {
        let i = choose|i: int| 0 <= i < results.len() && #[trigger] results[i] is Err;
        assert(metadata::PublicKey::of_text(listed[i].1@) is Err);
    }
    let names = listed.map_values(|entry: (String, String)| entry.0@);
    assert forall|i: int, j: int| 0 <= i < names.len() && 0 <= j < names.len() && i
        != j implies names[i] != names[j] by {
        assert(names[i] == listed[i].0@);
        assert(names[j] == listed[j].0@);
    }
    names.unique_seq_to_set();
}

/// The address texts of the static subnets, in their order.
pub open spec fn static_addresses(subnets: Seq<NetworkConfigSubnet>) -> Seq<Seq<char>> {
    subnets.filter_map(
        |subnet: NetworkConfigSubnet|
            match subnet.address {
                Some(address) => if subnet.is_static() {
                    Some(address@)
                } else {
                    None
                },
                None => None,
            },
    )
}

/// Whether static subnets give their addresses in CIDR notation, and gateways that can be
/// read.
pub open spec fn in_cidr_notation(subnets: Seq<NetworkConfigSubnet>) -> bool {
    forall|i: int|
        0 <= i < subnets.len() && (#[trigger] subnets[i]).is_static() ==> {
            &&& subnets[i].address is Some
            &&& subnets[i].netmask is None
            &&& subnets[i].route() is Ok
        }
}

spec fn networks_of_texts(texts: Seq<Seq<char>>) -> Result<Seq<IpNetwork>, ErrorModel> {
    error::collected(texts.map_values(|text: Seq<char>| IpNetwork::of_text(text)))
}

proof fn static_networks_are_read(subnets: Seq<NetworkConfigSubnet>)
    requires
        in_cidr_notation(subnets),
    ensures
        match networks_of_texts(static_addresses(subnets)) {
            Ok(networks) => networkdata::subnets_accepted(subnets) is Ok
                && networkdata::static_networks(subnets) == networks,
            Err(_) => networkdata::subnets_accepted(subnets) is Err,
        },
    decreases subnets.len(),
{
    let accepted = subnets.map_values(|subnet: NetworkConfigSubnet| subnet.accepted());
    if subnets.len() > 0 {
        let before = subnets.drop_last();
        let last = subnets.last();
        assert(subnets[subnets.len() - 1] == last);
        assert forall|i: int| 0 <= i < before.len() && (#[trigger] before[i]).is_static() implies {
            &&& before[i].address is Some
            &&& before[i].netmask is None
            &&& before[i].route() is Ok
        } by {
            assert(subnets[i].is_static());
        }
        static_networks_are_read(before);
        assert(accepted.drop_last() =~= before.map_values(
            |subnet: NetworkConfigSubnet| subnet.accepted(),
        ));
        let texts = static_addresses(before);
        let f = |text: Seq<char>| IpNetwork::of_text(text);
        if last.is_static() {
            let all = static_addresses(subnets);
            assert(all =~= texts.push(last.address->Some_0@));
            assert(all.map_values(f).drop_last() =~= texts.map_values(f));
            assert(all.map_values(f).last() == IpNetwork::of_text(last.address->Some_0@));
        } else {
            assert(static_addresses(subnets) == texts);
        }
        if networks_of_texts(static_addresses(subnets)) is Ok {
            assert(networkdata::static_networks(subnets) =~= networks_of_texts(
                static_addresses(subnets),
            )->Ok_0);
        }
    } else {
        assert(static_addresses(subnets).map_values(
            |text: Seq<char>| IpNetwork::of_text(text),
        ).len() == 0);
        assert(networkdata::static_networks(subnets) =~= Seq::<IpNetwork>::empty());
    }
}

/// Both versions can say the same: an entry of version 1 and an ethernet of version 2 with the
/// same name, MAC address, static addresses, routes and DHCP setting, and without DNS servers
/// of its own, are accepted or refused together, and give the same interface.
pub proof fn versions_agree(entry: NetworkConfigEntry, ethernet: EthernetV2, name: Seq<char>)
    requires
        entry.network_type@ == "physical"@,
        entry.name.deep_view() == Some(ethernet.interface_name(name)),
        networkdata::optional_mac(entry.mac_address) == ethernet.mac_address(),
        in_cidr_notation(entry.subnets@),
        static_addresses(entry.subnets@) == text::texts(ethernet.addresses@),
        ethernet.default_routes() == Ok::<Seq<NetworkRoute>, ErrorModel>(
            networkdata::static_routes(entry.subnets@),
        ),
        ethernet.dhcp() == networkdata::last_dhcp(entry.subnets@),
        ethernet.nameserver_addresses() == Ok::<Seq<IpAddr>, ErrorModel>(Seq::empty()),
    ensures
        match (entry.interface(), ethernet.interface(name)) {
            (Ok(a), Ok(b)) => a == b,
            (Err(_), Err(_)) => true,
            _ => false,
        },
{
    static_networks_are_read(entry.subnets@);
    assert(ethernet.addresses@.map_values(|text: String| IpNetwork::of_text(text@))
        =~= text::texts(ethernet.addresses@).map_values(
        |text: Seq<char>| IpNetwork::of_text(text),
    ));
}

/// Of the routes in a list, one more at the end is used only if no other was.
proof fn default_gateway_of_more(routes: Seq<NetworkRoute>, route: NetworkRoute, ipv6: bool)
    ensures
        kargs::default_gateway(routes.push(route), ipv6) == (match kargs::default_gateway(
            routes,
            ipv6,
        ) {
            Some(gateway) => Some(gateway),
            None => if kargs::is_default_route(route, ipv6) {
                Some(route.gateway)
            } else {
                None
            },
        }),
    decreases routes.len(),
{
    reveal_with_fuel(kargs::default_gateway, 2);
    if routes.len() > 0 {
        assert(routes.push(route).drop_first() =~= routes.drop_first().push(route));
        default_gateway_of_more(routes.drop_first(), route, ipv6);
    } else {
        assert(routes.push(route).drop_first() =~= routes);
    }
}

/// The gateways of the static subnets that belong to an address family, in their order.
pub open spec fn static_gateways(subnets: Seq<NetworkConfigSubnet>, ipv6: bool) -> Seq<IpAddr> {
    subnets.filter_map(
        |subnet: NetworkConfigSubnet|
            match subnet.static_route() {
                Some(route) => if (route.gateway is V6) == ipv6 {
                    Some(route.gateway)
                } else {
                    None
                },
                None => None,
            },
    )
}

/// The gateway that version 1 uses for the static addresses of a family is the first of that
/// family among the gateways of the static subnets.
pub proof fn v1_uses_first_gateway(entry: NetworkConfigEntry, ipv6: bool)
    ensures
        entry.interface() matches Ok(iface) ==> kargs::default_gateway(iface.routes, ipv6) == (if
        static_gateways(entry.subnets@, ipv6).len() > 0 {
            Some(static_gateways(entry.subnets@, ipv6).first())
        } else {
            None
        }),
{
    first_gateway_is_found(entry.subnets@, ipv6);
}

proof fn first_gateway_is_found(subnets: Seq<NetworkConfigSubnet>, ipv6: bool)
    ensures
        kargs::default_gateway(networkdata::static_routes(subnets), ipv6) == (if static_gateways(
            subnets,
            ipv6,
        ).len() > 0 {
            Some(static_gateways(subnets, ipv6).first())
        } else {
            None
        }),
    decreases subnets.len(),
{
    if subnets.len() > 0 {
        let before = subnets.drop_last();
        first_gateway_is_found(before, ipv6);
        if let Some(route) = subnets.last().static_route() {
            default_gateway_of_more(networkdata::static_routes(before), route, ipv6);
            assert(networkdata::static_routes(subnets) =~= networkdata::static_routes(before).push(
                route,
            ));
        }
    }
}

/// The gateway that version 2 uses for the static addresses of a family is the one that is
/// given for that family.
pub proof fn v2_uses_given_gateway(ethernet: EthernetV2, name: Seq<char>)
    ensures
        ethernet.interface(name) matches Ok(iface) ==> {
            &&& kargs::default_gateway(iface.routes, false) == (match ethernet.gateway4 {
                Some(gateway) => Some(IpAddr::of_text(gateway@)->Ok_0),
                None => None,
            })
            &&& kargs::default_gateway(iface.routes, true) == (match ethernet.gateway6 {
                Some(gateway) => Some(IpAddr::of_text(gateway@)->Ok_0),
                None => None,
            })
        },
{
    if ethernet.interface(name) is Ok {
        let routes4 = networkdata::gateway_routes(
            ethernet.gateway4,
            address::everything_v4(),
        )->Ok_0;
        let routes6 = networkdata::gateway_routes(
            ethernet.gateway6,
            address::everything_v6(),
        )->Ok_0;
        reveal_with_fuel(kargs::default_gateway, 3);
        assert((routes4 + routes6).drop_first() =~= (if routes4.len() > 0 {
            routes6
        } else {
            routes6.drop_first()
        })) by {
            if routes4.len() > 0 {
                assert(routes4.len() == 1);
            } else {
                assert(routes4 + routes6 =~= routes6);
            }
        }
        assert(routes6.len() > 0 ==> routes6.drop_first() =~= Seq::<NetworkRoute>::empty());
    }
}

/// An address is a netmask for one prefix length at most.
pub proof fn mask_prefix_is_unique(mask: IpAddr, a: nat, b: nat)
    requires
        mask.is_mask(a),
        mask.is_mask(b),
    ensures
        a == b,
{
    let width = mask.width();
    if a < b {
        power2::lemma_pow2_strictly_increases((width - b) as nat, (width - a) as nat);
    } else if b < a {
        power2::lemma_pow2_strictly_increases((width - a) as nat, (width - b) as nat);
    }
}

/// A netmask that was given for an IPv4 address is the one that is written for it.
pub proof fn netmask_is_written_as_given(ip: u32, mask: u32)
    ensures
        IpAddr::V4(ip).with_mask(IpAddr::V4(mask)) matches Some(network) ==> {
            &&& network.address() == IpAddr::V4(ip)
            &&& network.well_formed()
            &&& kargs::extent_text(network) == address::dotted_decimal(mask)
        },
{
    power2::lemma2_to64();
}

/// The netmask that is written for an IPv4 network, when given for its address, makes the
/// same network.
pub proof fn written_netmask_gives_network_back(ip: u32, prefix: u8)
    requires
        prefix <= 32,
    ensures
        IpAddr::V4(ip).with_mask(IpAddr::V4(kargs::netmask_v4(prefix))) == Some(
            IpNetwork::V4 { ip, prefix },
        ),
{
    let mask = IpAddr::V4(kargs::netmask_v4(prefix));
    power2::lemma2_to64();
    power2::lemma_pow2_pos((32 - prefix) as nat);
    if prefix > 0 {
        power2::lemma_pow2_strictly_increases((32 - prefix) as nat, 32);
    }
    assert(mask.is_mask(prefix as nat));
    let found = choose|found: u8| mask.is_mask(found as nat);
    mask_prefix_is_unique(mask, prefix as nat, found as nat);
}

/// Different attribute names.
proof fn attribute_names_differ()
    ensures
        "KUBEVIRT_INSTANCE_ID"@ != "KUBEVIRT_HOSTNAME"@,
        "KUBEVIRT_INSTANCE_ID"@ != "KUBEVIRT_INSTANCE_TYPE"@,
        "KUBEVIRT_HOSTNAME"@ != "KUBEVIRT_INSTANCE_TYPE"@,
        "KUBEVIRT_IPV4"@ != "KUBEVIRT_IPV6"@,
        "KUBEVIRT_INSTANCE_ID"@.len() != "KUBEVIRT_IPV4"@.len(),
        "KUBEVIRT_HOSTNAME"@.len() != "KUBEVIRT_IPV4"@.len(),
        "KUBEVIRT_INSTANCE_TYPE"@.len() != "KUBEVIRT_IPV4"@.len(),
        "KUBEVIRT_IPV6"@.len() == "KUBEVIRT_IPV4"@.len(),
{
    reveal_strlit("KUBEVIRT_INSTANCE_ID");
    reveal_strlit("KUBEVIRT_HOSTNAME");
    reveal_strlit("KUBEVIRT_INSTANCE_TYPE");
    reveal_strlit("KUBEVIRT_IPV4");
    reveal_strlit("KUBEVIRT_IPV6");
    assert("KUBEVIRT_INSTANCE_ID"@.len() != "KUBEVIRT_HOSTNAME"@.len());
    assert("KUBEVIRT_INSTANCE_ID"@.len() != "KUBEVIRT_INSTANCE_TYPE"@.len());
    assert("KUBEVIRT_HOSTNAME"@.len() != "KUBEVIRT_INSTANCE_TYPE"@.len());
    assert("KUBEVIRT_IPV4"@[12] != "KUBEVIRT_IPV6"@[12]);
}

/// There are attributes exactly for an instance with an ID and a hostname. They hold these
/// two, and the instance type exactly if there is one, and nothing else.
pub proof fn attributes_identify_the_instance(metadata: MetaDataJSON)
    ensures
        metadata.attributes() is Ok <==> metadata.instance_id@.len() > 0
            && metadata.hostname@.len() > 0,
        metadata.attributes() matches Ok(attributes) ==> {
            &&& attributes.contains_key("KUBEVIRT_INSTANCE_ID"@)
            &&& attributes["KUBEVIRT_INSTANCE_ID"@] == metadata.instance_id@
            &&& attributes.contains_key("KUBEVIRT_HOSTNAME"@)
            &&& attributes["KUBEVIRT_HOSTNAME"@] == metadata.hostname@
            &&& attributes.contains_key("KUBEVIRT_INSTANCE_TYPE"@) <==> metadata.instance_type
                is Some
            &&& metadata.instance_type matches Some(instance_type)
                ==> attributes["KUBEVIRT_INSTANCE_TYPE"@] == instance_type@
            &&& attributes.dom().finite()
            &&& attributes.len() == (if metadata.instance_type is Some {
                3int
            } else {
                2int
            })
        },
{
    attribute_names_differ();
    if metadata.attributes() is Ok {
        let empty = Map::<Seq<char>, Seq<char>>::empty();
        let one = empty.insert("KUBEVIRT_INSTANCE_ID"@, metadata.instance_id@);
        let two = one.insert("KUBEVIRT_HOSTNAME"@, metadata.hostname@);
        assert(empty.dom().finite() && empty.len() == 0);
        assert(one.dom() =~= empty.dom().insert("KUBEVIRT_INSTANCE_ID"@));
        assert(two.dom() =~= one.dom().insert("KUBEVIRT_HOSTNAME"@));
        assert(one.len() == 1);
        assert(two.len() == 2);
        if let Some(instance_type) = metadata.instance_type {
            let three = two.insert("KUBEVIRT_INSTANCE_TYPE"@, instance_type@);
            assert(three.dom() =~= two.dom().insert("KUBEVIRT_INSTANCE_TYPE"@));
            assert(three.len() == 3);
        }
    }
}

/// The networks of one address family, in their order.
pub open spec fn of_family(networks: Seq<IpNetwork>, ipv6: bool) -> Seq<IpNetwork> {
    networks.filter(|network: IpNetwork| (network is V6) == ipv6)
}

/// Storing addresses changes the two address attributes alone. Each holds the last address of
/// its family, if there is one, and otherwise stays as it was.
pub proof fn addresses_keep_other_attributes(
    attributes: Map<Seq<char>, Seq<char>>,
    networks: Seq<IpNetwork>,
)
    ensures
        ({
            let stored = provider::with_addresses(attributes, networks);
            &&& forall|key: Seq<char>|
                key != "KUBEVIRT_IPV4"@ && key != "KUBEVIRT_IPV6"@ ==> (
                #[trigger] stored.contains_key(key) <==> attributes.contains_key(key))
            &&& forall|key: Seq<char>|
                key != "KUBEVIRT_IPV4"@ && key != "KUBEVIRT_IPV6"@ && attributes.contains_key(key)
                    ==> #[trigger] stored[key] == attributes[key]
            &&& address_is_stored(attributes, stored, networks, "KUBEVIRT_IPV4"@, false)
            &&& address_is_stored(attributes, stored, networks, "KUBEVIRT_IPV6"@, true)
        }),
    decreases networks.len(),
{
    attribute_names_differ();
    reveal(Seq::filter);
    if networks.len() > 0 {
        addresses_keep_other_attributes(attributes, networks.drop_last());
    }
}

/// Whether an address attribute holds the last address of a family, or is as it was before if
/// there is none.
pub open spec fn address_is_stored(
    before: Map<Seq<char>, Seq<char>>,
    after: Map<Seq<char>, Seq<char>>,
    networks: Seq<IpNetwork>,
    key: Seq<char>,
    ipv6: bool,
) -> bool {
    let candidates = of_family(networks, ipv6);
    if candidates.len() > 0 {
        after.contains_key(key) && after[key] == address::address_text(candidates.last().address())
    } else {
        &&& after.contains_key(key) <==> before.contains_key(key)
        &&& before.contains_key(key) ==> after[key] == before[key]
    }
}

/// Interfaces with different MAC addresses are named differently in the style that uses them.
pub proof fn mac_addresses_tell_interfaces_apart(a: InterfaceModel, b: InterfaceModel)
    requires
        a.mac_address is Some,
        b.mac_address is Some,
        a.mac_address != b.mac_address,
    ensures
        KargStyle::MacOrName.identifier(a) is Some,
        KargStyle::MacOrName.identifier(b) is Some,
        KargStyle::MacOrName.identifier(a) != KargStyle::MacOrName.identifier(b),
{
    let m = a.mac_address->Some_0;
    let n = b.mac_address->Some_0;
    let x = address::mac_text(m);
    let y = address::mac_text(n);
    reveal_strlit(":");
    if x == y {
        octets_are_written_differently(m.0, n.0, x, y, 0);
        octets_are_written_differently(m.1, n.1, x, y, 3);
        octets_are_written_differently(m.2, n.2, x, y, 6);
        octets_are_written_differently(m.3, n.3, x, y, 9);
        octets_are_written_differently(m.4, n.4, x, y, 12);
        octets_are_written_differently(m.5, n.5, x, y, 15);
    }
}

proof fn octets_are_written_differently(m: u8, n: u8, x: Seq<char>, y: Seq<char>, at: int)
    requires
        x == y,
        x[at] == address::hex_octet(m)[0],
        x[at + 1] == address::hex_octet(m)[1],
        y[at] == address::hex_octet(n)[0],
        y[at + 1] == address::hex_octet(n)[1],
    ensures
        m == n,
{
}

/// An interface has one argument for each static address, one more if it uses DHCP and one
/// more if it has DNS servers.
pub proof fn kargs_are_counted(iface: InterfaceModel, id: Seq<char>, method: Seq<char>)
    ensures
        kargs::interface_kargs(iface, id, method).len() == iface.ip_addresses.len() + (if iface.dhcp
            is Some {
            1int
        } else {
            0int
        }) + (if iface.nameservers.len() > 0 {
            1int
        } else {
            0int
        }),
{
}

/// A text that is in one part of a text is in the whole text.
proof fn occurs_in_more(part: Seq<char>, before: Seq<char>, text: Seq<char>, after: Seq<char>)
    requires
        text::occurs_in(part, text),
    ensures
        text::occurs_in(part, before + text + after),
{
    let at = choose|at: int|
        0 <= at <= text.len() - part.len() && #[trigger] text.subrange(at, at + part.len()) == part;
    let whole = before + text + after;
    let shifted = before.len() + at;
    assert(whole.subrange(shifted, shifted + part.len()) =~= text.subrange(at, at + part.len()));
}

/// Each of the joined texts is in what they are joined to.
proof fn joined_texts_occur(parts: Seq<Seq<char>>, separator: Seq<char>, i: int)
    requires
        0 <= i < parts.len(),
    ensures
        text::occurs_in(parts[i], text::joined(parts, separator)),
    decreases parts.len(),
{
    let empty = Seq::<char>::empty();
    let whole = text::joined(parts, separator);
    let start: int = 0;
    assert(parts[i].subrange(start, start + parts[i].len()) =~= parts[i]);
    assert(text::occurs_in(parts[i], parts[i]));
    if parts.len() == 1 {
        assert(whole == parts[i]);
    } else if i == parts.len() - 1 {
        let front = text::joined(parts.drop_last(), separator) + separator;
        occurs_in_more(parts[i], front, parts[i], empty);
        assert(front + parts[i] + empty =~= whole);
    } else {
        joined_texts_occur(parts.drop_last(), separator, i);
        let front = text::joined(parts.drop_last(), separator);
        occurs_in_more(parts[i], empty, front, separator + parts.last());
        assert(empty + front + (separator + parts.last()) =~= whole);
    }
}

/// Each argument of each interface that a style can name is on the line of arguments.
pub proof fn kargs_are_on_the_line(interfaces: Seq<InterfaceModel>, style: KargStyle, i: int, k: int)
    requires
        0 <= i < interfaces.len(),
        0 <= k < kargs::styled_kargs(interfaces[i], style).len(),
    ensures
        kargs::karg_line(kargs::network_kargs(interfaces, style)) matches Some(line)
            && text::occurs_in(kargs::styled_kargs(interfaces[i], style)[k], line),
{
    karg_is_among_all(interfaces, style, i, k);
    let all = kargs::network_kargs(interfaces, style);
    let karg = kargs::styled_kargs(interfaces[i], style)[k];
    let at = choose|at: int| 0 <= at < all.len() && all[at] == karg;
    joined_texts_occur(all, " "@, at);
}

proof fn karg_is_among_all(interfaces: Seq<InterfaceModel>, style: KargStyle, i: int, k: int)
    requires
        0 <= i < interfaces.len(),
        0 <= k < kargs::styled_kargs(interfaces[i], style).len(),
    ensures
        kargs::network_kargs(interfaces, style).contains(
            kargs::styled_kargs(interfaces[i], style)[k],
        ),
    decreases interfaces.len(),
{
    let all = kargs::network_kargs(interfaces, style);
    let karg = kargs::styled_kargs(interfaces[i], style)[k];
    let front = kargs::network_kargs(interfaces.drop_last(), style);
    if i == interfaces.len() - 1 {
        assert(all[front.len() + k] == karg);
    } else {
        karg_is_among_all(interfaces.drop_last(), style, i, k);
        let at = choose|at: int| 0 <= at < front.len() && front[at] == karg;
        assert(all[at] == karg);
    }
}

/// There is no line of arguments exactly if network data is refused or no interface that a
/// style can name has a static address, uses DHCP or has DNS servers.
pub proof fn line_is_missing_without_configuration(
    interfaces: Result<Seq<InterfaceModel>, ErrorModel>,
    style: KargStyle,
)
    ensures
        kargs::karg_line_of(interfaces, style) is None <==> (interfaces matches Ok(interfaces)
            ==> forall|i: int|
            0 <= i < interfaces.len() ==> {
                ||| style.identifier(#[trigger] interfaces[i]) is None
                ||| {
                    &&& interfaces[i].ip_addresses.len() == 0
                    &&& interfaces[i].dhcp is None
                    &&& interfaces[i].nameservers.len() == 0
                }
            }),
{
    if let Ok(interfaces) = interfaces {
        no_kargs_without_configuration(interfaces, style);
    }
}

proof fn no_kargs_without_configuration(interfaces: Seq<InterfaceModel>, style: KargStyle)
    ensures
        kargs::network_kargs(interfaces, style).len() == 0 <==> forall|i: int|
            0 <= i < interfaces.len() ==> {
                ||| style.identifier(#[trigger] interfaces[i]) is None
                ||| {
                    &&& interfaces[i].ip_addresses.len() == 0
                    &&& interfaces[i].dhcp is None
                    &&& interfaces[i].nameservers.len() == 0
                }
            },
    decreases interfaces.len(),
{
    if interfaces.len() > 0 {
        let before = interfaces.drop_last();
        let last = interfaces.last();
        no_kargs_without_configuration(before, style);
        if let Some(id) = style.identifier(last) {
            kargs_are_counted(last, id, style.method());
        }
        assert(interfaces[interfaces.len() - 1] == last);
        assert(forall|i: int| 0 <= i < before.len() ==> #[trigger] interfaces[i] == before[i]);
        if kargs::network_kargs(interfaces, style).len() > 0 {
            if kargs::network_kargs(before, style).len() > 0 {
                let i = choose|i: int|
                    0 <= i < before.len() && !({
                        ||| style.identifier(#[trigger] before[i]) is None
                        ||| {
                            &&& before[i].ip_addresses.len() == 0
                            &&& before[i].dhcp is None
                            &&& before[i].nameservers.len() == 0
                        }
                    });
                assert(interfaces[i] == before[i]);
            }
        }
    }
}

/// A document is JSON exactly if the first of its characters that is no blank is a brace or a
/// square bracket.
pub proof fn first_visible_character_decides(content: Seq<char>)
    ensures
        document::format_of(content) == DataFormat::Json <==> exists|i: int|
            {
                &&& 0 <= i < content.len()
                &&& (#[trigger] content[i] == '{' || content[i] == '[')
                &&& forall|j: int| 0 <= j < i ==> text::is_blank(#[trigger] content[j])
            },
{
    let start = text::without_leading_blanks(content);
    trailing_blanks_keep_start(start);
    leading_blanks_are_skipped(content);
    let skipped = content.len() - start.len();
    if document::format_of(content) == DataFormat::Json {
        assert(content[skipped] == start[0]);
    }
    if exists|i: int|
        {
            &&& 0 <= i < content.len()
            &&& (#[trigger] content[i] == '{' || content[i] == '[')
            &&& forall|j: int| 0 <= j < i ==> text::is_blank(#[trigger] content[j])
        } {
        let i = choose|i: int|
            {
                &&& 0 <= i < content.len()
                &&& (#[trigger] content[i] == '{' || content[i] == '[')
                &&& forall|j: int| 0 <= j < i ==> text::is_blank(#[trigger] content[j])
            };
        assert(!text::is_blank(content[i]));
        if i < skipped {
            assert(text::is_blank(content[i]));
        } else if i > skipped {
            assert(text::is_blank(content[skipped]));
            assert(start.first() == content[skipped]);
        }
        assert(start.first() == content[i]);
    }
}

proof fn leading_blanks_are_skipped(content: Seq<char>)
    ensures
        ({
            let start = text::without_leading_blanks(content);
            let skipped = content.len() - start.len();
            &&& skipped >= 0
            &&& start == content.skip(skipped)
            &&& forall|j: int| 0 <= j < skipped ==> text::is_blank(#[trigger] content[j])
            &&& start.len() > 0 ==> !text::is_blank(start.first())
        }),
    decreases content.len(),
{
    let start = text::without_leading_blanks(content);
    if content.len() > 0 && text::is_blank(content.first()) {
        let rest = content.drop_first();
        leading_blanks_are_skipped(rest);
        let skipped = content.len() - start.len();
        assert(start =~= content.skip(skipped));
        assert forall|j: int| 0 <= j < skipped implies text::is_blank(#[trigger] content[j]) by {
            if j > 0 {
                assert(content[j] == rest[j - 1]);
            }
        }
    } else {
        assert(start =~= content.skip(0));
    }
}

proof fn trailing_blanks_keep_start(text: Seq<char>)
    ensures
        text.len() > 0 && !text::is_blank(text.first()) ==> {
            &&& text::without_trailing_blanks(text).len() > 0
            &&& text::without_trailing_blanks(text).first() == text.first()
        },
        text.len() == 0 ==> text::without_trailing_blanks(text).len() == 0,
    decreases text.len(),
{
    if text.len() > 0 && text::is_blank(text.last()) {
        trailing_blanks_keep_start(text.drop_last());
    }
}

/// A document that can be read has version 1 exactly if it states no version or version 1, and
/// version 2 exactly if it states version 2. Any other number is refused.
pub proof fn versions_are_detected(content: Seq<char>)
    ensures
        document::document_json(content) matches Ok(json) ==> {
            let stated = document::stated_version(json);
            &&& document::versioned_json(content) == Ok::<(DataVersion, Seq<char>), ErrorModel>(
                (DataVersion::V1, json),
            ) <==> stated is None || stated == Some(1u64)
            &&& document::versioned_json(content) == Ok::<(DataVersion, Seq<char>), ErrorModel>(
                (DataVersion::V2, json),
            ) <==> stated == Some(2u64)
            &&& stated matches Some(number) ==> number != 1 && number != 2
                ==> document::versioned_json(content) == Err::<
                (DataVersion, Seq<char>),
                ErrorModel,
            >(ErrorModel::UnsupportedVersion(number))
        },
{
}

/// A document in YAML and one in JSON that hold the same are read as the same.
pub proof fn formats_agree(json: Seq<char>, yaml: Seq<char>)
    requires
        document::format_of(json) == DataFormat::Json,
        document::format_of(yaml) == DataFormat::Yaml,
        document::json_from_str(json) is Ok,
        document::yaml_from_str(yaml) is Ok,
        document::json_from_yaml(document::yaml_from_str(yaml)->Ok_0) == document::json_from_str(
            json,
        ),
    ensures
        document::versioned_json(yaml) == document::versioned_json(json),
{
}

} // verus!

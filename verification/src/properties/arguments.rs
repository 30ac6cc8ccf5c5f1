//! What the kernel arguments say of the interfaces that they are written for.

use crate::address;
use crate::address::{IpAddr, IpNetwork};
use crate::cloudconfig::KubeVirtCloudConfig;
use crate::error::ErrorModel;
use crate::kargs;
use crate::kargs::KargStyle;
use crate::network::{DhcpSetting, InterfaceModel, NetworkRoute};
use crate::networkdata::NetworkData;
use crate::provider::KubeVirtProvider;
use crate::text;
use vstd::arithmetic::power2;
use vstd::prelude::*;

verus! {

/// An address in the notation of its family.
pub open spec fn notation(ip: IpAddr) -> Seq<char> {
    match ip {
        IpAddr::V4(value) => address::dotted_decimal(value),
        IpAddr::V6(value) => address::ipv6_text(value),
    }
}

/// Whether packets for every IPv4 address take the route.
pub open spec fn routes_ipv4(route: NetworkRoute) -> bool {
    route.destination matches IpNetwork::V4 { prefix, .. } && prefix == 0
}

/// Whether packets for every IPv6 address take the route.
pub open spec fn routes_ipv6(route: NetworkRoute) -> bool {
    route.destination matches IpNetwork::V6 { prefix, .. } && prefix == 0
}

proof fn no_gateway_is_found(routes: Seq<NetworkRoute>, ipv6: bool)
    requires
        forall|i: int|
            0 <= i < routes.len() ==> !(if ipv6 {
                routes_ipv6(#[trigger] routes[i])
            } else {
                routes_ipv4(routes[i])
            }),
    ensures
        kargs::default_gateway(routes, ipv6) is None,
    decreases routes.len(),
{
    if routes.len() > 0 {
        let rest = routes.drop_first();
        assert forall|i: int| 0 <= i < rest.len() implies !(if ipv6 {
            routes_ipv6(#[trigger] rest[i])
        } else {
            routes_ipv4(rest[i])
        }) by {
            assert(rest[i] == routes[i + 1]);
        }
        assert(routes[0] == routes.first());
        no_gateway_is_found(rest, ipv6);
    }
}

proof fn first_gateway_is_found(routes: Seq<NetworkRoute>, ipv6: bool, n: int)
    requires
        0 <= n < routes.len(),
        if ipv6 {
            routes_ipv6(routes[n])
        } else {
            routes_ipv4(routes[n])
        },
        forall|i: int|
            0 <= i < n ==> !(if ipv6 {
                routes_ipv6(#[trigger] routes[i])
            } else {
                routes_ipv4(routes[i])
            }),
    ensures
        kargs::default_gateway(routes, ipv6) == Some(routes[n].gateway),
    decreases routes.len(),
{
    if n > 0 {
        let rest = routes.drop_first();
        assert forall|i: int| 0 <= i < n - 1 implies !(if ipv6 {
            routes_ipv6(#[trigger] rest[i])
        } else {
            routes_ipv4(rest[i])
        }) by {
            assert(rest[i] == routes[i + 1]);
        }
        assert(routes[0] == routes.first());
        first_gateway_is_found(rest, ipv6, n - 1);
    }
}

/// An IPv6 address without an IPv6 default route is written without a gateway, whatever IPv4
/// routes there are.
pub proof fn ipv6_address_without_gateway(
    ip: u128,
    prefix: u8,
    routes: Seq<NetworkRoute>,
    id: Seq<char>,
    method: Seq<char>,
)
    requires
        forall|i: int| 0 <= i < routes.len() ==> !routes_ipv6(#[trigger] routes[i]),
    ensures
        kargs::address_karg(IpNetwork::V6 { ip, prefix }, routes, id, method) == "ip="@
            + address::ipv6_text(ip) + ":::"@ + text::decimal(prefix as nat) + "::"@ + id + ":"@
            + method,
{
    no_gateway_is_found(routes, true);
    reveal_strlit("::");
    reveal_strlit(":");
    reveal_strlit(":::");
    assert("::"@ + Seq::<char>::empty() + ":"@ =~= ":::"@);
    assert(kargs::address_karg(IpNetwork::V6 { ip, prefix }, routes, id, method) =~= "ip="@
        + address::ipv6_text(ip) + ("::"@ + Seq::<char>::empty() + ":"@) + text::decimal(
        prefix as nat,
    ) + "::"@ + id + ":"@ + method);
}

/// An IPv6 address is written with the gateway of the first IPv6 default route.
pub proof fn ipv6_address_with_gateway(
    ip: u128,
    prefix: u8,
    routes: Seq<NetworkRoute>,
    n: int,
    id: Seq<char>,
    method: Seq<char>,
)
    requires
        0 <= n < routes.len(),
        routes_ipv6(routes[n]),
        forall|i: int| 0 <= i < n ==> !routes_ipv6(#[trigger] routes[i]),
    ensures
        kargs::address_karg(IpNetwork::V6 { ip, prefix }, routes, id, method) == "ip="@
            + address::ipv6_text(ip) + "::"@ + notation(routes[n].gateway) + ":"@ + text::decimal(
            prefix as nat,
        ) + "::"@ + id + ":"@ + method,
{
    first_gateway_is_found(routes, true, n);
}

/// An IPv4 address without an IPv4 default route is written without a gateway, whatever IPv6
/// routes there are. Its netmask has ones for the length of the prefix.
pub proof fn ipv4_address_without_gateway(
    ip: u32,
    prefix: u8,
    mask: u32,
    routes: Seq<NetworkRoute>,
    id: Seq<char>,
    method: Seq<char>,
)
    requires
        prefix <= 32,
        mask == 0x1_0000_0000 - power2::pow2((32 - prefix) as nat),
        forall|i: int| 0 <= i < routes.len() ==> !routes_ipv4(#[trigger] routes[i]),
    ensures
        kargs::address_karg(IpNetwork::V4 { ip, prefix }, routes, id, method) == "ip="@
            + address::dotted_decimal(ip) + ":::"@ + address::dotted_decimal(mask) + "::"@ + id
            + ":"@ + method,
{
    no_gateway_is_found(routes, false);
    power2::lemma2_to64();
    reveal_strlit("::");
    reveal_strlit(":");
    reveal_strlit(":::");
    assert("::"@ + Seq::<char>::empty() + ":"@ =~= ":::"@);
    assert(kargs::address_karg(IpNetwork::V4 { ip, prefix }, routes, id, method) =~= "ip="@
        + address::dotted_decimal(ip) + ("::"@ + Seq::<char>::empty() + ":"@)
        + address::dotted_decimal(mask) + "::"@ + id + ":"@ + method);
}

/// An IPv4 address is written with the gateway of the first IPv4 default route.
pub proof fn ipv4_address_with_gateway(
    ip: u32,
    prefix: u8,
    mask: u32,
    routes: Seq<NetworkRoute>,
    n: int,
    id: Seq<char>,
    method: Seq<char>,
)
    requires
        prefix <= 32,
        mask == 0x1_0000_0000 - power2::pow2((32 - prefix) as nat),
        0 <= n < routes.len(),
        routes_ipv4(routes[n]),
        forall|i: int| 0 <= i < n ==> !routes_ipv4(#[trigger] routes[i]),
    ensures
        kargs::address_karg(IpNetwork::V4 { ip, prefix }, routes, id, method) == "ip="@
            + address::dotted_decimal(ip) + "::"@ + notation(routes[n].gateway) + ":"@
            + address::dotted_decimal(mask) + "::"@ + id + ":"@ + method,
{
    first_gateway_is_found(routes, false, n);
    power2::lemma2_to64();
}

/// The gateway of an address depends on the default routes of its own family alone: other
/// routes may be added behind or before the routes without any effect.
pub proof fn other_routes_change_no_address(
    network: IpNetwork,
    before: Seq<NetworkRoute>,
    routes: Seq<NetworkRoute>,
    after: Seq<NetworkRoute>,
    id: Seq<char>,
    method: Seq<char>,
)
    requires
        forall|i: int|
            0 <= i < before.len() ==> !(if network is V6 {
                routes_ipv6(#[trigger] before[i])
            } else {
                routes_ipv4(before[i])
            }),
        forall|i: int|
            0 <= i < after.len() ==> !(if network is V6 {
                routes_ipv6(#[trigger] after[i])
            } else {
                routes_ipv4(after[i])
            }),
    ensures
        kargs::address_karg(network, before + routes + after, id, method) == kargs::address_karg(
            network,
            routes,
            id,
            method,
        ),
{
    let all = before + routes + after;
    let ipv6 = network is V6;
    if exists|n: int|
        0 <= n < routes.len() && (if ipv6 {
            routes_ipv6(#[trigger] routes[n])
        } else {
            routes_ipv4(routes[n])
        }) {
        let n = first_default_route(routes, ipv6);
        first_gateway_is_found(routes, ipv6, n);
        let m = before.len() + n;
        assert(all[m] == routes[n]);
        assert forall|i: int| 0 <= i < m implies !(if ipv6 {
            routes_ipv6(#[trigger] all[i])
        } else {
            routes_ipv4(all[i])
        }) by {
            if i < before.len() {
                assert(all[i] == before[i]);
            } else {
                assert(all[i] == routes[i - before.len()]);
            }
        }
        first_gateway_is_found(all, ipv6, m);
    } else {
        no_gateway_is_found(routes, ipv6);
        assert forall|i: int| 0 <= i < all.len() implies !(if ipv6 {
            routes_ipv6(#[trigger] all[i])
        } else {
            routes_ipv4(all[i])
        }) by {
            if i < before.len() {
                assert(all[i] == before[i]);
            } else if i < before.len() + routes.len() {
                assert(all[i] == routes[i - before.len()]);
            } else {
                assert(all[i] == after[i - before.len() - routes.len()]);
            }
        }
        no_gateway_is_found(all, ipv6);
    }
}

proof fn first_default_route(routes: Seq<NetworkRoute>, ipv6: bool) -> (n: int)
    requires
        exists|n: int|
            0 <= n < routes.len() && (if ipv6 {
                routes_ipv6(#[trigger] routes[n])
            } else {
                routes_ipv4(routes[n])
            }),
    ensures
        0 <= n < routes.len(),
        if ipv6 {
            routes_ipv6(routes[n])
        } else {
            routes_ipv4(routes[n])
        },
        forall|i: int|
            0 <= i < n ==> !(if ipv6 {
                routes_ipv6(#[trigger] routes[i])
            } else {
                routes_ipv4(routes[i])
            }),
    decreases routes.len(),
{
    let first = routes.first();
    if if ipv6 {
        routes_ipv6(first)
    } else {
        routes_ipv4(first)
    } {
        0
    } else {
        let rest = routes.drop_first();
        let found = choose|n: int|
            0 <= n < routes.len() && (if ipv6 {
                routes_ipv6(#[trigger] routes[n])
            } else {
                routes_ipv4(routes[n])
            });
        assert(rest[found - 1] == routes[found]);
        let n = first_default_route(rest, ipv6);
        assert forall|i: int| 0 <= i < n + 1 implies !(if ipv6 {
            routes_ipv6(#[trigger] routes[i])
        } else {
            routes_ipv4(routes[i])
        }) by {
            if i > 0 {
                assert(routes[i] == rest[i - 1]);
            }
        }
        n + 1
    }
}

/// An interface has an argument for each static address, in their order. One for DHCP follows
/// them exactly if it uses DHCP, and the one for DNS servers is the last.
pub proof fn interface_arguments_in_order(iface: InterfaceModel, id: Seq<char>, method: Seq<char>)
    ensures
        ({
            let written = kargs::interface_kargs(iface, id, method);
            let n = iface.ip_addresses.len() as int;
            &&& forall|i: int|
                0 <= i < n ==> #[trigger] written[i] == kargs::address_karg(
                    iface.ip_addresses[i],
                    iface.routes,
                    id,
                    method,
                )
            &&& iface.dhcp == Some(DhcpSetting::V4) ==> written[n] == "ip="@ + id + ":dhcp"@
            &&& iface.dhcp == Some(DhcpSetting::V6) ==> written[n] == "ip="@ + id + ":dhcp6"@
            &&& iface.dhcp == Some(DhcpSetting::Both) ==> written[n] == "ip="@ + id
                + ":dhcp,dhcp6"@
            &&& iface.nameservers.len() > 0 ==> written.last() == kargs::nameserver_karg(
                iface.nameservers,
            )
        }),
{
}

/// The argument for DNS servers lists their addresses in order, with commas between them.
pub proof fn nameservers_are_listed(nameservers: Seq<IpAddr>, last: IpAddr)
    ensures
        nameservers.len() == 0 ==> kargs::nameserver_karg(nameservers.push(last)) == "nameserver="@
            + notation(last),
        nameservers.len() > 0 ==> kargs::nameserver_karg(nameservers.push(last))
            == kargs::nameserver_karg(nameservers) + ","@ + notation(last),
{
    let f = |ip: IpAddr| address::address_text(ip);
    let all = nameservers.push(last).map_values(f);
    let before = nameservers.map_values(f);
    assert(all.drop_last() =~= before);
    assert(all.last() == notation(last));
    if nameservers.len() > 0 {
        assert(kargs::nameserver_karg(nameservers.push(last)) =~= kargs::nameserver_karg(
            nameservers,
        ) + ","@ + notation(last));
    }
}

/// By name, an interface is written with its name, or with none if it has none; static
/// addresses then have the method `none`.
pub proof fn arguments_by_name(iface: InterfaceModel)
    ensures
        iface.name matches Some(name) ==> kargs::styled_kargs(iface, KargStyle::Name)
            == kargs::interface_kargs(iface, name, "none"@),
        iface.name is None ==> kargs::styled_kargs(iface, KargStyle::Name)
            == kargs::interface_kargs(iface, Seq::empty(), "none"@),
{
}

/// By MAC address, an interface is written with its MAC address, else with its name, else not at
/// all; static addresses then have the method `static`.
pub proof fn arguments_by_mac_address(iface: InterfaceModel)
    ensures
        iface.mac_address matches Some(mac) ==> kargs::styled_kargs(iface, KargStyle::MacOrName)
            == kargs::interface_kargs(iface, address::mac_text(mac), "static"@),
        iface.mac_address is None ==> (iface.name matches Some(name) ==> kargs::styled_kargs(
            iface,
            KargStyle::MacOrName,
        ) == kargs::interface_kargs(iface, name, "static"@)),
        iface.mac_address is None && iface.name is None ==> kargs::styled_kargs(
            iface,
            KargStyle::MacOrName,
        ).len() == 0,
{
}

/// The arguments of two lists of interfaces, one behind the other, are those of the one behind
/// those of the other.
pub proof fn arguments_follow_interfaces(
    a: Seq<InterfaceModel>,
    b: Seq<InterfaceModel>,
    style: KargStyle,
)
    ensures
        kargs::network_kargs(a + b, style) == kargs::network_kargs(a, style)
            + kargs::network_kargs(b, style),
    decreases b.len(),
{
    if b.len() == 0 {
        assert(a + b =~= a);
        assert(kargs::network_kargs(a, style) + Seq::<Seq<char>>::empty() =~= kargs::network_kargs(
            a,
            style,
        ));
    } else {
        assert((a + b).drop_last() =~= a + b.drop_last());
        assert((a + b).last() == b.last());
        arguments_follow_interfaces(a, b.drop_last(), style);
        assert(kargs::network_kargs(a + b, style) =~= kargs::network_kargs(a, style)
            + kargs::network_kargs(b, style));
    }
}

/// The arguments of a single interface are those that its style gives it.
pub proof fn arguments_of_one_interface(iface: InterfaceModel, style: KargStyle)
    ensures
        kargs::network_kargs(seq![iface], style) == kargs::styled_kargs(iface, style),
{
    assert(seq![iface].drop_last() =~= Seq::<InterfaceModel>::empty());
    reveal_with_fuel(kargs::network_kargs, 2);
    assert(kargs::network_kargs(seq![iface], style) =~= kargs::styled_kargs(iface, style));
}

/// Joining two lists of texts, one behind the other, joins what each of them is joined to. A
/// single text stays as it is.
pub proof fn joined_in_two(a: Seq<Seq<char>>, b: Seq<Seq<char>>, separator: Seq<char>)
    requires
        a.len() > 0,
        b.len() > 0,
    ensures
        a.len() == 1 ==> text::joined(a, separator) == a[0],
        text::joined(a + b, separator) == text::joined(a, separator) + separator + text::joined(
            b,
            separator,
        ),
    decreases b.len(),
{
    assert((a + b).drop_last() =~= a + b.drop_last());
    assert((a + b).last() == b.last());
    if b.len() == 1 {
        assert(a + b.drop_last() =~= a);
        assert(text::joined(b, separator) == b.last());
    } else {
        joined_in_two(a, b.drop_last(), separator);
        assert(text::joined(a + b, separator) =~= text::joined(a, separator) + separator
            + text::joined(b, separator));
    }
}

/// Arguments stand on one line in their order, with a space between two of them and nothing
/// else. There is no line exactly if there are no arguments.
pub proof fn arguments_are_on_one_line(a: Seq<Seq<char>>, b: Seq<Seq<char>>, one: Seq<char>)
    ensures
        kargs::karg_line(Seq::empty()) is None,
        kargs::karg_line(seq![one]) == Some(one),
        kargs::karg_line(a) is None <==> a.len() == 0,
        a.len() > 0 && b.len() > 0 ==> kargs::karg_line(a + b) == Some(
            kargs::karg_line(a)->Some_0 + " "@ + kargs::karg_line(b)->Some_0,
        ),
{
    if a.len() > 0 && b.len() > 0 {
        joined_in_two(a, b, " "@);
    }
}

/// The line for two lists of interfaces, one behind the other, is made of their lines. Refused
/// network data has no line.
pub proof fn lines_follow_interfaces(
    a: Seq<InterfaceModel>,
    b: Seq<InterfaceModel>,
    error: ErrorModel,
    style: KargStyle,
)
    ensures
        kargs::karg_line_of(Err(error), style) is None,
        kargs::karg_line_of(Ok(Seq::empty()), style) is None,
        kargs::karg_line_of(Ok(a), style) == kargs::karg_line(kargs::network_kargs(a, style)),
        kargs::karg_line_of(Ok(a + b), style) == (match (
            kargs::karg_line_of(Ok(a), style),
            kargs::karg_line_of(Ok(b), style),
        ) {
            (Some(line_a), Some(line_b)) => Some(line_a + " "@ + line_b),
            (Some(line_a), None) => Some(line_a),
            (None, line_b) => line_b,
        }),
{
    arguments_follow_interfaces(a, b, style);
    let x = kargs::network_kargs(a, style);
    let y = kargs::network_kargs(b, style);
    arguments_are_on_one_line(x, y, Seq::empty());
    if x.len() == 0 {
        assert(x + y =~= y);
    }
    if y.len() == 0 {
        assert(x + y =~= x);
    }
}

proof fn arguments_are_flattened(interfaces: Seq<InterfaceModel>, style: KargStyle)
    ensures
        kargs::network_kargs(interfaces, style) == interfaces.map_values(
            |iface: InterfaceModel| kargs::styled_kargs(iface, style),
        ).flatten(),
    decreases interfaces.len(),
{
    let f = |iface: InterfaceModel| kargs::styled_kargs(iface, style);
    let written = interfaces.map_values(f);
    if interfaces.len() == 0 {
        assert(written.flatten() =~= Seq::<Seq<char>>::empty());
    } else {
        let before = interfaces.drop_last();
        arguments_are_flattened(before, style);
        written.lemma_flatten_and_flatten_alt_are_equivalent();
        before.map_values(f).lemma_flatten_and_flatten_alt_are_equivalent();
        assert(written.drop_last() =~= before.map_values(f));
        assert(written.last() == kargs::styled_kargs(interfaces.last(), style));
    }
}

/// The provider writes the arguments of all interfaces, by name, on one line. There is none if
/// network data is refused or there are no arguments.
pub proof fn provider_writes_by_name(data: NetworkData)
    ensures
        match data.interfaces() {
            Err(_) => KubeVirtProvider::kernel_arguments(data) is None,
            Ok(interfaces) => {
                let written = interfaces.map_values(
                    |iface: InterfaceModel| kargs::styled_kargs(iface, KargStyle::Name),
                ).flatten();
                &&& KubeVirtProvider::kernel_arguments(data) is None <==> written.len() == 0
                &&& KubeVirtProvider::kernel_arguments(data) matches Some(line) ==> line
                    == text::joined(written, " "@)
            },
        },
{
    if let Ok(interfaces) = data.interfaces() {
        arguments_are_flattened(interfaces, KargStyle::Name);
    }
}

/// A configuration writes the arguments of all interfaces, by MAC address, on one line. There is
/// none if there is no network data, if it is refused or if there are no arguments.
pub proof fn configuration_writes_by_mac_address(config: KubeVirtCloudConfig)
    ensures
        config.network_data is None ==> config.kernel_arguments() is None,
        config.network_data matches Some(data) ==> match data.interfaces() {
            Err(_) => config.kernel_arguments() is None,
            Ok(interfaces) => {
                let written = interfaces.map_values(
                    |iface: InterfaceModel| kargs::styled_kargs(iface, KargStyle::MacOrName),
                ).flatten();
                &&& config.kernel_arguments() is None <==> written.len() == 0
                &&& config.kernel_arguments() matches Some(line) ==> line == text::joined(
                    written,
                    " "@,
                )
            },
        },
{
    if let Ok(interfaces) = config.interfaces() {
        arguments_are_flattened(interfaces, KargStyle::MacOrName);
    }
}

} // verus!

//! The network interfaces of this machine, and the one whose address the virtual network binds
//! to.
use vstd::prelude::*;

use crate::text;

verus! {

/// An address of a network interface.
#[derive(Debug, Clone, Copy)]
pub enum InterfaceAddress {
    V4([u8; 4]),
    V6([u8; 16]),
}

/// A network interface: its name and its addresses.
#[derive(Debug)]
pub struct Interface {
    pub name: String,
    pub addresses: Vec<InterfaceAddress>,
}

/// What an interface holds.
pub struct InterfaceView {
    pub name: Seq<char>,
    pub addresses: Seq<InterfaceAddress>,
}

impl View for Interface {
    type V = InterfaceView;

    open spec fn view(&self) -> InterfaceView {
        InterfaceView { name: self.name@, addresses: self.addresses@ }
    }
}

/// What a list of interfaces holds.
pub open spec fn interface_views(interfaces: Seq<Interface>) -> Seq<InterfaceView> {
    interfaces.map_values(|i: Interface| i@)
}

/// `network_interface::NetworkInterface::show`: the interfaces of this machine, of which
/// nothing is known, or nothing where they could not be listed. Each interface is taken with
/// its name and the octets of its addresses.
#[verifier::external_body]
fn list_interfaces() -> (interfaces: Option<Vec<Interface>>) {
    let address = |a| match a {
        network_interface::Addr::V4(v4) => InterfaceAddress::V4(v4.ip.octets()),
        network_interface::Addr::V6(v6) => InterfaceAddress::V6(v6.ip.octets()),
    };
    let listed = <network_interface::NetworkInterface as
        network_interface::NetworkInterfaceConfig>::show().ok()?;
    let interface = |i: network_interface::NetworkInterface| Interface {
        name: i.name,
        addresses: i.addr.into_iter().map(address).collect(),
    };
    Some(listed.into_iter().map(interface).collect())
}

// ---------------------------------------------------------------------------------------
// Which addresses are candidates
// ---------------------------------------------------------------------------------------
/// Whether the name of an interface, in lower case, is that of a virtual one.
pub open spec fn is_virtual(name: Seq<char>) -> bool {
    text::occurs(name, "radmin"@) || text::occurs(name, "hamachi"@) || text::occurs(
        name,
        "zerotier"@,
    ) || text::occurs(name, "wintun"@) || text::occurs(name, "tailscale"@) || text::occurs(
        name,
        "wireguard"@,
    ) || text::occurs(name, "openvpn"@) || text::occurs(name, "nordvpn"@) || text::occurs(
        name,
        "surfshark"@,
    ) || text::occurs(name, "vmware"@) || text::occurs(name, "virtualbox"@) || text::occurs(
        name,
        "virtual"@,
    ) || text::occurs(name, "loopback"@) || text::occurs(name, "easytier"@) || text::occurs(
        name,
        "vpn"@,
    ) || text::occurs(name, "tun"@) || text::occurs(name, "tap"@)
}

/// Whether the name of an interface, in lower case, is that of a virtual one, such as a VPN's.
pub fn is_virtual_interface(lower: &str) -> (is: bool)
    ensures
        is == is_virtual(lower@),
{
    text::contains_text(lower, "radmin") || text::contains_text(lower, "hamachi")
        || text::contains_text(lower, "zerotier") || text::contains_text(lower, "wintun")
        || text::contains_text(lower, "tailscale") || text::contains_text(lower, "wireguard")
        || text::contains_text(lower, "openvpn") || text::contains_text(lower, "nordvpn")
        || text::contains_text(lower, "surfshark") || text::contains_text(lower, "vmware")
        || text::contains_text(lower, "virtualbox") || text::contains_text(lower, "virtual")
        || text::contains_text(lower, "loopback") || text::contains_text(lower, "easytier")
        || text::contains_text(lower, "vpn") || text::contains_text(lower, "tun")
        || text::contains_text(lower, "tap")
}

/// An IPv4 address in dotted notation.
pub open spec fn dotted(octets: Seq<u8>) -> Seq<char> {
    text::decimal(octets[0] as nat).push('.') + text::decimal(octets[1] as nat).push('.')
        + text::decimal(octets[2] as nat).push('.') + text::decimal(octets[3] as nat)
}

/// An IPv4 address in dotted notation.
pub fn dotted_text(octets: &[u8; 4]) -> (address: String)
    ensures
        address@ == dotted(octets@),
{
    let mut address = text::decimal_text(octets[0] as u64);
    address.push('.');
    address.append(text::decimal_text(octets[1] as u64).as_str());
    address.push('.');
    address.append(text::decimal_text(octets[2] as u64).as_str());
    address.push('.');
    address.append(text::decimal_text(octets[3] as u64).as_str());
    assert(address@ =~= dotted(octets@));
    address
}

/// The address in dotted notation, where it can be reached from other machines: it is an IPv4
/// address, no loopback address (127.0.0.0/8) and no link-local one (169.254.0.0/16).
pub open spec fn usable_address(address: InterfaceAddress) -> Option<Seq<char>> {
    match address {
        InterfaceAddress::V4(octets) => if octets@[0] == 127 || (octets@[0] == 169 && octets@[1]
            == 254) {
            None
        } else {
            Some(dotted(octets@))
        },
        InterfaceAddress::V6(_) => None,
    }
}

/// The usable ones among the addresses of an interface, each with the interface's name.
pub open spec fn candidates_of(name: Seq<char>, addresses: Seq<InterfaceAddress>) -> Seq<
    (Seq<char>, Seq<char>),
>
    decreases addresses.len(),
{
    if addresses.len() == 0 {
        Seq::empty()
    } else {
        let before = candidates_of(name, addresses.drop_last());
        match usable_address(addresses.last()) {
            Some(address) => before.push((name, address)),
            None => before,
        }
    }
}

/// The usable addresses of the interfaces that are not virtual, each with the name of its
/// interface in lower case.
pub open spec fn all_candidates(interfaces: Seq<InterfaceView>) -> Seq<(Seq<char>, Seq<char>)>
    decreases interfaces.len(),
{
    if interfaces.len() == 0 {
        Seq::empty()
    } else {
        let before = all_candidates(interfaces.drop_last());
        let name = text::lower(interfaces.last().name);
        if is_virtual(name) {
            before
        } else {
            before + candidates_of(name, interfaces.last().addresses)
        }
    }
}

/// The names and addresses of a list of candidates.
pub open spec fn pairs(candidates: Seq<(String, String)>) -> Seq<(Seq<char>, Seq<char>)> {
    candidates.map_values(|c: (String, String)| (c.0@, c.1@))
}

/// The addresses of a list of candidates.
pub open spec fn addresses_of(candidates: Seq<(Seq<char>, Seq<char>)>) -> Seq<Seq<char>> {
    candidates.map_values(|c: (Seq<char>, Seq<char>)| c.1)
}

fn address_text(address: &InterfaceAddress) -> (usable: Option<String>)
    ensures
        text::optional_text(usable) == usable_address(*address),
{
    match address {
        InterfaceAddress::V4(octets) => if octets[0] == 127 || (octets[0] == 169 && octets[1]
            == 254) {
            None
        } else {
            Some(dotted_text(octets))
        },
        InterfaceAddress::V6(_) => None,
    }
}

fn collect_candidates(interfaces: &Vec<Interface>) -> (candidates: Vec<(String, String)>)
    ensures
        pairs(candidates@) == all_candidates(interface_views(interfaces@)),
{
    let ghost views = interface_views(interfaces@);
    let mut candidates: Vec<(String, String)> = Vec::new();
    assert(pairs(candidates@) =~= all_candidates(views.take(0)));
    for i in 0..interfaces.len()
        invariant
            views == interface_views(interfaces@),
            pairs(candidates@) == all_candidates(views.take(i as int)),
    {
        assert(views.take(i + 1).drop_last() =~= views.take(i as int));
        let name = text::lower_text(interfaces[i].name.as_str());
        let addresses = &interfaces[i].addresses;
        if !is_virtual_interface(name.as_str()) {
            let ghost before = pairs(candidates@);
            assert(before + candidates_of(name@, addresses@.take(0)) =~= before);
            for j in 0..addresses.len()
                invariant
                    pairs(candidates@) == before + candidates_of(
                        name@,
                        addresses@.take(j as int),
                    ),
            {
                assert(addresses@.take(j + 1).drop_last() =~= addresses@.take(j as int));
                let ghost so_far = candidates@;
                if let Some(address) = address_text(&addresses[j]) {
                    let ghost added = (name@, address@);
                    candidates.push((name.clone(), address));
                    assert(pairs(candidates@) =~= pairs(so_far).push(added));
                    assert(pairs(candidates@) =~= before + candidates_of(
                        name@,
                        addresses@.take(j + 1),
                    ));
                }
            }
            assert(addresses@.take(addresses@.len() as int) =~= addresses@);
        }
    }
    assert(views.take(views.len() as int) =~= views);
    candidates
}

// ---------------------------------------------------------------------------------------
// The order of the candidates
// ---------------------------------------------------------------------------------------
/// How good the name of an interface is: wired ones first, then wireless ones, then others.
pub open spec fn rank(name: Seq<char>) -> int {
    if text::occurs(name, "ethernet"@) || text::occurs(name, "以太网"@) {
        0
    } else if text::occurs(name, "wlan"@) || text::occurs(name, "wi-fi"@) || text::occurs(
        name,
        "wifi"@,
    ) || text::occurs(name, "无线"@) {
        1
    } else {
        2
    }
}

/// Whether an interface's name comes before another: by rank, then by name.
pub open spec fn comes_before(a: Seq<char>, b: Seq<char>) -> bool {
    rank(a) < rank(b) || (rank(a) == rank(b) && text::precedes(a, b))
}

/// Whether no candidate stands behind one that it comes before.
pub open spec fn ordered(candidates: Seq<(Seq<char>, Seq<char>)>) -> bool {
    forall|i: int, j: int|
        0 <= i < j < candidates.len() ==> !comes_before(
            (#[trigger] candidates[j]).0,
            (#[trigger] candidates[i]).0,
        )
}

/// The candidates with a name, in their order.
pub open spec fn named(candidates: Seq<(Seq<char>, Seq<char>)>, name: Seq<char>) -> Seq<
    (Seq<char>, Seq<char>),
> {
    candidates.filter(|c: (Seq<char>, Seq<char>)| c.0 == name)
}

/// Whether `sorted` holds the candidates in order, those with the same name in the order that
/// they had.
pub open spec fn is_sorting_of(
    sorted: Seq<(Seq<char>, Seq<char>)>,
    candidates: Seq<(Seq<char>, Seq<char>)>,
) -> bool {
    &&& ordered(sorted)
    &&& forall|name: Seq<char>| #[trigger] named(sorted, name) == named(candidates, name)
}

fn rank_of(name: &str) -> (r: u8)
    ensures
        r == rank(name@),
{
    if text::contains_text(name, "ethernet") || text::contains_text(name, "以太网") {
        0
    } else if text::contains_text(name, "wlan") || text::contains_text(name, "wi-fi")
        || text::contains_text(name, "wifi") || text::contains_text(name, "无线") {
        1
    } else {
        2
    }
}

fn name_comes_before(a: &str, b: &str) -> (before: bool)
    ensures
        before == comes_before(a@, b@),
{
    let left: u8 = rank_of(a);
    let right: u8 = rank_of(b);
    left < right || (left == right && text::text_precedes(a, b))
}

/// The order of names is total and transitive.
proof fn order_of_names(a: Seq<char>, b: Seq<char>, c: Seq<char>)
    ensures
        !(comes_before(a, b) && comes_before(b, a)),
        !comes_before(a, b) && !comes_before(b, a) ==> a == b,
        !comes_before(a, a),
        comes_before(a, b) && !comes_before(c, b) ==> comes_before(a, c),
        !comes_before(b, a) && !comes_before(c, b) ==> !comes_before(c, a),
{
    text::precedes_is_total(a, b);
    text::precedes_is_total(b, c);
    text::precedes_is_total(a, a);
    text::precedes_is_total(a, c);
    if text::precedes(a, b) && text::precedes(b, c) {
        text::precedes_is_transitive(a, b, c);
    }
}

/// Putting a candidate behind everything that it does not come before keeps the order, and
/// adds it as the last one of its name.
proof fn insertion_keeps_order(
    sorted: Seq<(Seq<char>, Seq<char>)>,
    at: int,
    added: (Seq<char>, Seq<char>),
)
    requires
        ordered(sorted),
        0 <= at <= sorted.len(),
        at < sorted.len() ==> comes_before(added.0, sorted[at].0),
        at > 0 ==> !comes_before(added.0, sorted[at - 1].0),
    ensures
        ordered(sorted.insert(at, added)),
        forall|name: Seq<char>| #[trigger]
            named(sorted.insert(at, added), name) == (if name == added.0 {
                named(sorted, name).push(added)
            } else {
                named(sorted, name)
            }),
{
    let all = sorted.insert(at, added);
    assert forall|i: int| at <= i < sorted.len() implies comes_before(
        added.0,
        #[trigger] sorted[i].0,
    ) by {
        order_of_names(added.0, sorted[at].0, sorted[i].0);
    }
    assert forall|i: int| 0 <= i < at implies !comes_before(added.0, #[trigger] sorted[i].0) by {
        order_of_names(sorted[i].0, sorted[at - 1].0, added.0);
    }
    assert forall|i: int, j: int| 0 <= i < j < all.len() implies !comes_before(
        (#[trigger] all[j]).0,
        (#[trigger] all[i]).0,
    ) by {
        if i == at {
            order_of_names(added.0, sorted[j - 1].0, added.0);
        } else if j == at {
            assert(all[i] == sorted[i]);
        } else {
            let x = if i < at { i } else { i - 1 };
            let y = if j < at { j } else { j - 1 };
            assert(all[i] == sorted[x] && all[j] == sorted[y]);
        }
    }
    let head = sorted.take(at);
    let tail = sorted.skip(at);
    assert(sorted =~= head + tail);
    assert(all =~= head + seq![added] + tail);
    assert forall|name: Seq<char>| #[trigger] named(all, name) == (if name == added.0 {
        named(sorted, name).push(added)
    } else {
        named(sorted, name)
    }) by {
        let same = |c: (Seq<char>, Seq<char>)| c.0 == name;
        Seq::filter_distributes_over_add(head, tail, same);
        Seq::filter_distributes_over_add(head + seq![added], tail, same);
        Seq::filter_distributes_over_add(head, seq![added], same);
        reveal_with_fuel(Seq::filter, 2);
        assert(seq![added].drop_last() =~= Seq::empty());
        if name == added.0 {
            assert(seq![added].filter(same) =~= seq![added]);
            assert forall|i: int| 0 <= i < tail.len() implies !same(#[trigger] tail[i]) by {
                order_of_names(added.0, sorted[at + i].0, added.0);
            }
            none_named(tail, name);
            assert(named(all, name) =~= named(sorted, name).push(added));
        } else {
            assert(seq![added].filter(same) =~= Seq::empty());
            assert(named(all, name) =~= named(sorted, name));
        }
    }
}

proof fn none_named(candidates: Seq<(Seq<char>, Seq<char>)>, name: Seq<char>)
    requires
        forall|i: int| 0 <= i < candidates.len() ==> (#[trigger] candidates[i]).0 != name,
    ensures
        named(candidates, name) == Seq::<(Seq<char>, Seq<char>)>::empty(),
    decreases candidates.len(),
{
    reveal(Seq::filter);
    if candidates.len() > 0 {
        none_named(candidates.drop_last(), name);
        assert(candidates[candidates.len() - 1].0 != name);
    }
}

/// Orders candidates by the rank of their names, then by their names; those with the same name
/// keep their order.
pub fn sort_candidates(candidates: &mut Vec<(String, String)>)
    ensures
        is_sorting_of(pairs(final(candidates)@), pairs(old(candidates)@)),
{
    let ghost all = pairs(candidates@);
    let mut sorted: Vec<(String, String)> = Vec::new();
    proof {
        reveal(Seq::filter);
        assert(pairs(sorted@) =~= all.take(0));
    }
    for i in 0..candidates.len()
        invariant
            all == pairs(candidates@),
            sorted@.len() == i,
            is_sorting_of(pairs(sorted@), all.take(i as int)),
    {
        let name = candidates[i].0.clone();
        let address = candidates[i].1.clone();
        let ghost before = pairs(sorted@);
        let ghost added = (name@, address@);
        let mut at: usize = sorted.len();
        while at > 0 && name_comes_before(name.as_str(), sorted[at - 1].0.as_str())
            invariant
                at <= sorted@.len(),
                before == pairs(sorted@),
                at < sorted@.len() ==> comes_before(name@, before[at as int].0),
            decreases at,
        {
            at -= 1;
        }
        sorted.insert(at, (name, address));
        proof {
            assert(pairs(sorted@) =~= before.insert(at as int, added));
            insertion_keeps_order(before, at as int, added);
            assert(all.take(i + 1).drop_last() =~= all.take(i as int));
            assert(all.take(i + 1).last() == added);
            assert forall|n: Seq<char>| #[trigger] named(pairs(sorted@), n) == named(
                all.take(i + 1),
                n,
            ) by {
                reveal(Seq::filter);
                assert(named(before, n) == named(all.take(i as int), n));
            }
        }
    }
    assert(all.take(all.len() as int) =~= all);
    *candidates = sorted;
}

/// Whether a list of addresses is that of the usable ones among some interfaces, best first.
pub open spec fn are_candidates_of(
    interfaces: Seq<InterfaceView>,
    addresses: Seq<Seq<char>>,
) -> bool {
    exists|sorted: Seq<(Seq<char>, Seq<char>)>|
        {
            &&& #[trigger] is_sorting_of(sorted, all_candidates(interfaces))
            &&& addresses == addresses_of(sorted)
        }
}

/// The usable addresses of the interfaces that are not virtual, best first.
pub fn candidates_among(interfaces: &Vec<Interface>) -> (addresses: Vec<String>)
    ensures
        are_candidates_of(interface_views(interfaces@), text::texts(addresses@)),
{
    let mut candidates = collect_candidates(interfaces);
    sort_candidates(&mut candidates);
    let mut addresses: Vec<String> = Vec::new();
    for i in 0..candidates.len()
        invariant
            text::texts(addresses@) == addresses_of(pairs(candidates@).take(i as int)),
    {
        let ghost before = addresses@;
        addresses.push(candidates[i].1.clone());
        assert(text::texts(addresses@) =~= text::texts(before).push(candidates@[i as int].1@));
        assert(addresses_of(pairs(candidates@).take(i + 1)) =~= addresses_of(
            pairs(candidates@).take(i as int),
        ).push(candidates@[i as int].1@));
    }
    assert(pairs(candidates@).take(candidates@.len() as int) =~= pairs(candidates@));
    addresses
}

/// What a list of interfaces holds, where the interfaces could be listed.
pub open spec fn listed_views(listed: Option<Vec<Interface>>) -> Option<Seq<InterfaceView>> {
    match listed {
        Some(interfaces) => Some(interface_views(interfaces@)),
        None => None,
    }
}

/// Whether a list of addresses is that of the usable ones among the listed interfaces, best
/// first. Where the interfaces could not be listed, there are none.
pub open spec fn are_candidates(
    listed: Option<Seq<InterfaceView>>,
    addresses: Seq<Seq<char>>,
) -> bool {
    match listed {
        Some(interfaces) => are_candidates_of(interfaces, addresses),
        None => addresses.len() == 0,
    }
}

/// The first of a list of addresses.
pub open spec fn first_address(addresses: Seq<Seq<char>>) -> Option<Seq<char>> {
    if addresses.len() > 0 {
        Some(addresses[0])
    } else {
        None
    }
}

/// The usable addresses of the interfaces that are not virtual, best first: none where the
/// interfaces could not be listed.
pub fn candidates_listed(listed: Option<Vec<Interface>>) -> (addresses: Vec<String>)
    ensures
        are_candidates(listed_views(listed), text::texts(addresses@)),
{
    match listed {
        Some(interfaces) => candidates_among(&interfaces),
        None => {
            let none: Vec<String> = Vec::new();
            assert(text::texts(none@).len() == 0);
            none
        },
    }
}

/// The addresses of this machine that the virtual network can bind to, best first: none where
/// the interfaces could not be listed. Which interfaces the machine has is up to the system.
pub fn physical_ipv4_candidates() -> (addresses: Vec<String>)
    ensures
        exists|listed: Option<Seq<InterfaceView>>| #[trigger]
            are_candidates(listed, text::texts(addresses@)),
{
    candidates_listed(list_interfaces())
}

/// The best of a list of candidates.
pub fn best_candidate(candidates: Vec<String>) -> (best: Option<String>)
    ensures
        text::optional_text(best) == first_address(text::texts(candidates@)),
{
    if candidates.len() > 0 {
        Some(candidates[0].clone())
    } else {
        None
    }
}

/// The address of this machine that the virtual network binds to: the best candidate, and
/// nothing exactly where there is none. Which interfaces the machine has is up to the system.
pub fn resolve_bind_ip() -> (address: Option<String>)
    ensures
        exists|listed: Option<Seq<InterfaceView>>, candidates: Seq<Seq<char>>|
            {
                &&& #[trigger] are_candidates(listed, candidates)
                &&& text::optional_text(address) == first_address(candidates)
            },
{
    let candidates = physical_ipv4_candidates();
    best_candidate(candidates)
}

// ---------------------------------------------------------------------------------------
// Laws
// ---------------------------------------------------------------------------------------
/// Taking the first of the candidates away takes the first with its name away, and no other.
proof fn first_is_first_of_its_name(candidates: Seq<(Seq<char>, Seq<char>)>, name: Seq<char>)
    requires
        candidates.len() > 0,
    ensures
        named(candidates, name) == (if name == candidates[0].0 {
            seq![candidates[0]] + named(candidates.skip(1), name)
        } else {
            named(candidates.skip(1), name)
        }),
{
    let same = |c: (Seq<char>, Seq<char>)| c.0 == name;
    let head = candidates.take(1);
    assert(candidates =~= head + candidates.skip(1));
    Seq::filter_distributes_over_add(head, candidates.skip(1), same);
    reveal_with_fuel(Seq::filter, 2);
    assert(head.drop_last() =~= Seq::empty());
    if same(candidates[0]) {
        assert(head.filter(same) =~= seq![candidates[0]]);
    } else {
        assert(head.filter(same) =~= Seq::empty());
        assert(named(candidates, name) =~= named(candidates.skip(1), name));
    }
}

/// A name of which there are candidates stands among the candidates.
proof fn some_named(candidates: Seq<(Seq<char>, Seq<char>)>, name: Seq<char>) -> (i: int)
    requires
        named(candidates, name).len() > 0,
    ensures
        0 <= i < candidates.len(),
        candidates[i].0 == name,
{
    if forall|j: int| 0 <= j < candidates.len() ==> (#[trigger] candidates[j]).0 != name {
        none_named(candidates, name);
    }
    choose|j: int| 0 <= j < candidates.len() && (#[trigger] candidates[j]).0 == name
}

/// There is one way to sort candidates: which address is the best does not depend on anything
/// else.
pub proof fn sorting_is_unique(
    a: Seq<(Seq<char>, Seq<char>)>,
    b: Seq<(Seq<char>, Seq<char>)>,
    candidates: Seq<(Seq<char>, Seq<char>)>,
)
    requires
        is_sorting_of(a, candidates),
        is_sorting_of(b, candidates),
    ensures
        a == b,
{
    assert forall|name: Seq<char>| #[trigger] named(a, name) == named(b, name) by {
        assert(named(a, name) == named(candidates, name));
        assert(named(b, name) == named(candidates, name));
    }
    same_order(a, b);
}

proof fn same_order(a: Seq<(Seq<char>, Seq<char>)>, b: Seq<(Seq<char>, Seq<char>)>)
    requires
        ordered(a),
        ordered(b),
        forall|name: Seq<char>| #[trigger] named(a, name) == named(b, name),
    ensures
        a == b,
    decreases a.len(),
{
    if a.len() == 0 {
        if b.len() > 0 {
            let name = b[0].0;
            first_is_first_of_its_name(b, name);
            assert(named(a, name) == named(b, name));
            let i = some_named(a, name);
        }
        assert(a =~= b);
    } else {
        let name = a[0].0;
        first_is_first_of_its_name(a, name);
        assert(named(a, name) == named(b, name));
        let i = some_named(b, name);
        let other = b[0].0;
        first_is_first_of_its_name(b, other);
        assert(named(a, other) == named(b, other));
        let j = some_named(a, other);
        order_of_names(name, other, name);
        assert(!comes_before(b[i].0, b[0].0));
        assert(!comes_before(a[j].0, a[0].0));
        assert(name == other);
        assert(named(a, name)[0] == a[0] && named(b, name)[0] == b[0]);
        let x = a.skip(1);
        let y = b.skip(1);
        assert forall|n: Seq<char>| #[trigger] named(x, n) == named(y, n) by {
            first_is_first_of_its_name(a, n);
            first_is_first_of_its_name(b, n);
            assert(named(a, n) == named(b, n));
            if n == name {
                assert(named(x, n) =~= named(a, n).skip(1));
                assert(named(y, n) =~= named(b, n).skip(1));
            }
        }
        assert forall|p: int, q: int| 0 <= p < q < x.len() implies !comes_before(
            (#[trigger] x[q]).0,
            (#[trigger] x[p]).0,
        ) by {
            assert(x[p] == a[p + 1] && x[q] == a[q + 1]);
        }
        assert forall|p: int, q: int| 0 <= p < q < y.len() implies !comes_before(
            (#[trigger] y[q]).0,
            (#[trigger] y[p]).0,
        ) by {
            assert(y[p] == b[p + 1] && y[q] == b[q + 1]);
        }
        same_order(x, y);
        assert(a =~= seq![a[0]] + x);
        assert(b =~= seq![b[0]] + y);
    }
}

/// The words by which the name of a virtual interface is known.
pub open spec fn virtual_words() -> Seq<Seq<char>> {
    seq![
        "radmin"@,
        "hamachi"@,
        "zerotier"@,
        "wintun"@,
        "tailscale"@,
        "wireguard"@,
        "openvpn"@,
        "nordvpn"@,
        "surfshark"@,
        "vmware"@,
        "virtualbox"@,
        "virtual"@,
        "loopback"@,
        "easytier"@,
        "vpn"@,
        "tun"@,
        "tap"@,
    ]
}

/// An interface is virtual exactly where one of the words occurs in its name, wherever.
pub proof fn virtual_names_hold_a_word(name: Seq<char>, before: Seq<char>, i: int, behind: Seq<char>)
    requires
        0 <= i < virtual_words().len(),
    ensures
        is_virtual(before + virtual_words()[i] + behind),
        is_virtual(name) ==> exists|j: int|
            0 <= j < virtual_words().len() && text::occurs(name, #[trigger] virtual_words()[j]),
{
    let word = virtual_words()[i];
    let whole = before + word + behind;
    let at = before.len() as int;
    assert(whole.subrange(at, at + word.len()) =~= word);
    assert(text::stands_at(whole, word, at));
    assert(text::occurs(whole, word));
    let words = virtual_words();
    assert(words[0] == "radmin"@ && words[1] == "hamachi"@ && words[2] == "zerotier"@);
    assert(words[3] == "wintun"@ && words[4] == "tailscale"@ && words[5] == "wireguard"@);
    assert(words[6] == "openvpn"@ && words[7] == "nordvpn"@ && words[8] == "surfshark"@);
    assert(words[9] == "vmware"@ && words[10] == "virtualbox"@ && words[11] == "virtual"@);
    assert(words[12] == "loopback"@ && words[13] == "easytier"@ && words[14] == "vpn"@);
    assert(words[15] == "tun"@ && words[16] == "tap"@);
}

/// An address can be bound to exactly where it is an IPv4 address whose first octet is not 127
/// and whose first two octets are not 169 and 254; it is then written in dotted notation.
pub proof fn usable_addresses_are_reachable(octets: [u8; 4], other: [u8; 16])
    ensures
        octets@[0] == 127 ==> usable_address(InterfaceAddress::V4(octets)) is None,
        octets@[0] == 169 && octets@[1] == 254 ==> usable_address(
            InterfaceAddress::V4(octets),
        ) is None,
        octets@[0] != 127 && (octets@[0] != 169 || octets@[1] != 254) ==> usable_address(
            InterfaceAddress::V4(octets),
        ) == Some(
            text::join(
                seq![
                    text::decimal(octets@[0] as nat),
                    text::decimal(octets@[1] as nat),
                    text::decimal(octets@[2] as nat),
                    text::decimal(octets@[3] as nat),
                ],
                '.',
            ),
        ),
        usable_address(InterfaceAddress::V6(other)) is None,
{
    let parts = seq![
        text::decimal(octets@[0] as nat),
        text::decimal(octets@[1] as nat),
        text::decimal(octets@[2] as nat),
        text::decimal(octets@[3] as nat),
    ];
    let one = parts.take(1);
    let two = parts.take(2);
    let three = parts.take(3);
    assert(parts.drop_last() =~= three);
    assert(three.drop_last() =~= two);
    assert(two.drop_last() =~= one);
    assert(text::join(one, '.') == parts[0]);
    assert(text::join(two, '.') == parts[0].push('.') + parts[1]);
    assert(text::join(three, '.') == (parts[0].push('.') + parts[1]).push('.') + parts[2]);
    assert(text::join(parts, '.') =~= dotted(octets@));
}

/// Of an interface with a name every usable address is a candidate, in the order of its
/// addresses.
proof fn candidates_of_one(name: Seq<char>, addresses: Seq<InterfaceAddress>, address: Seq<char>)
    ensures
        candidates_of(name, addresses).contains((name, address)) <==> exists|k: int|
            0 <= k < addresses.len() && usable_address(#[trigger] addresses[k]) == Some(address),
        forall|i: int|
            0 <= i < candidates_of(name, addresses).len() ==> (#[trigger] candidates_of(
                name,
                addresses,
            )[i]).0 == name,
    decreases addresses.len(),
{
    let all = candidates_of(name, addresses);
    if addresses.len() > 0 {
        let less = addresses.drop_last();
        let last = addresses.len() - 1;
        let before = candidates_of(name, less);
        candidates_of_one(name, less, address);
        if all.contains((name, address)) {
            let i = choose|i: int| 0 <= i < all.len() && all[i] == (name, address);
            if i < before.len() {
                assert(before[i] == all[i]);
                let k = choose|k: int|
                    0 <= k < less.len() && usable_address(#[trigger] less[k]) == Some(address);
                assert(addresses[k] == less[k]);
            } else {
                assert(usable_address(addresses[last]) == Some(address));
            }
        }
        if exists|k: int|
            0 <= k < addresses.len() && usable_address(#[trigger] addresses[k]) == Some(address) {
            let k = choose|k: int|
                0 <= k < addresses.len() && usable_address(#[trigger] addresses[k]) == Some(address);
            if k < last {
                assert(less[k] == addresses[k]);
                let i = choose|i: int| 0 <= i < before.len() && before[i] == (name, address);
                assert(all[i] == (name, address));
            } else {
                assert(all.last() == (name, address));
            }
        }
        assert forall|i: int| 0 <= i < all.len() implies (#[trigger] all[i]).0 == name by {
            if i < before.len() {
                assert(all[i] == before[i]);
            }
        }
    }
}

/// Whether an interface that is not virtual has a usable address.
pub open spec fn offers(interface: InterfaceView, name: Seq<char>, address: Seq<char>) -> bool {
    &&& name == text::lower(interface.name)
    &&& !is_virtual(name)
    &&& exists|k: int|
        0 <= k < interface.addresses.len() && usable_address(#[trigger] interface.addresses[k])
            == Some(address)
}

/// The candidates are the usable addresses of the interfaces that are not virtual, all of them
/// and no others.
pub proof fn candidates_are_what_interfaces_offer(
    interfaces: Seq<InterfaceView>,
    name: Seq<char>,
    address: Seq<char>,
)
    ensures
        all_candidates(interfaces).contains((name, address)) <==> exists|i: int|
            0 <= i < interfaces.len() && offers(#[trigger] interfaces[i], name, address),
    decreases interfaces.len(),
{
    let all = all_candidates(interfaces);
    if interfaces.len() > 0 {
        let less = interfaces.drop_last();
        let last = interfaces.len() - 1;
        let before = all_candidates(less);
        let own = text::lower(interfaces[last].name);
        let added = candidates_of(own, interfaces[last].addresses);
        candidates_are_what_interfaces_offer(less, name, address);
        candidates_of_one(own, interfaces[last].addresses, address);
        if all.contains((name, address)) {
            let i = choose|i: int| 0 <= i < all.len() && all[i] == (name, address);
            if i < before.len() {
                assert(before[i] == all[i]);
                let k = choose|k: int|
                    0 <= k < less.len() && offers(#[trigger] less[k], name, address);
                assert(interfaces[k] == less[k]);
            } else {
                assert(added[i - before.len()] == (name, address));
                assert(added.contains((own, address)));
                assert(offers(interfaces[last], name, address));
            }
        }
        if exists|i: int| 0 <= i < interfaces.len() && offers(#[trigger] interfaces[i], name, address) {
            let i = choose|i: int|
                0 <= i < interfaces.len() && offers(#[trigger] interfaces[i], name, address);
            if i < last {
                assert(less[i] == interfaces[i]);
                let k = choose|k: int| 0 <= k < before.len() && before[k] == (name, address);
                assert(all[k] == (name, address));
            } else {
                let k = choose|k: int| 0 <= k < added.len() && added[k] == (name, address);
                assert(all[before.len() + k] == (name, address));
            }
        }
    }
}

/// Sorting loses no candidate and adds none.
proof fn sorting_keeps_candidates(
    sorted: Seq<(Seq<char>, Seq<char>)>,
    candidates: Seq<(Seq<char>, Seq<char>)>,
    c: (Seq<char>, Seq<char>),
)
    requires
        is_sorting_of(sorted, candidates),
    ensures
        sorted.contains(c) <==> candidates.contains(c),
{
    let same = |x: (Seq<char>, Seq<char>)| x.0 == c.0;
    assert(named(sorted, c.0) == named(candidates, c.0));
    if sorted.contains(c) {
        let i = choose|i: int| 0 <= i < sorted.len() && sorted[i] == c;
        sorted.lemma_filter_contains(same, i);
        candidates.lemma_filter_contains_rev(same, c);
    }
    if candidates.contains(c) {
        let i = choose|i: int| 0 <= i < candidates.len() && candidates[i] == c;
        candidates.lemma_filter_contains(same, i);
        sorted.lemma_filter_contains_rev(same, c);
    }
}

/// An address is listed exactly where an interface that is not virtual has it and it is usable.
/// The first of the list comes from an interface of the best kind that there is: no wireless or
/// other interface stands before a wired one, and no other before a wireless one.
pub proof fn listed_addresses_are_offered(
    interfaces: Seq<InterfaceView>,
    addresses: Seq<Seq<char>>,
    address: Seq<char>,
)
    requires
        are_candidates_of(interfaces, addresses),
    ensures
        addresses.contains(address) <==> exists|name: Seq<char>, i: int|
            0 <= i < interfaces.len() && #[trigger] offers(interfaces[i], name, address),
        addresses.len() > 0 ==> exists|name: Seq<char>, i: int|
            {
                &&& 0 <= i < interfaces.len()
                &&& #[trigger] offers(interfaces[i], name, addresses[0])
                &&& forall|other: Seq<char>, j: int, a: Seq<char>|
                    0 <= j < interfaces.len() && #[trigger] offers(interfaces[j], other, a)
                        ==> rank(name) <= rank(other)
            },
{
    let sorted = choose|sorted: Seq<(Seq<char>, Seq<char>)>|
        {
            &&& #[trigger] is_sorting_of(sorted, all_candidates(interfaces))
            &&& addresses == addresses_of(sorted)
        };
    let all = all_candidates(interfaces);
    if addresses.contains(address) {
        let k = choose|k: int| 0 <= k < addresses.len() && addresses[k] == address;
        let c = sorted[k];
        assert(sorted.contains(c));
        sorting_keeps_candidates(sorted, all, c);
        candidates_are_what_interfaces_offer(interfaces, c.0, address);
        let i = choose|i: int|
            0 <= i < interfaces.len() && offers(#[trigger] interfaces[i], c.0, address);
        assert(offers(interfaces[i], c.0, address));
    }
    if exists|name: Seq<char>, i: int|
        0 <= i < interfaces.len() && #[trigger] offers(interfaces[i], name, address) {
        let (name, i) = choose|name: Seq<char>, i: int|
            0 <= i < interfaces.len() && #[trigger] offers(interfaces[i], name, address);
        assert(offers(interfaces[i], name, address));
        candidates_are_what_interfaces_offer(interfaces, name, address);
        sorting_keeps_candidates(sorted, all, (name, address));
        let k = choose|k: int| 0 <= k < sorted.len() && sorted[k] == (name, address);
        assert(addresses[k] == address);
    }
    if addresses.len() > 0 {
        let best = sorted[0];
        assert(sorted.contains(best));
        sorting_keeps_candidates(sorted, all, best);
        candidates_are_what_interfaces_offer(interfaces, best.0, best.1);
        let i = choose|i: int|
            0 <= i < interfaces.len() && offers(#[trigger] interfaces[i], best.0, best.1);
        assert(offers(interfaces[i], best.0, addresses[0]));
        assert forall|other: Seq<char>, j: int, a: Seq<char>|
            0 <= j < interfaces.len() && #[trigger] offers(interfaces[j], other, a) implies rank(
            best.0,
        ) <= rank(other) by {
            candidates_are_what_interfaces_offer(interfaces, other, a);
            sorting_keeps_candidates(sorted, all, (other, a));
            let k = choose|k: int| 0 <= k < sorted.len() && sorted[k] == (other, a);
            if k > 0 {
                assert(!comes_before(sorted[k].0, sorted[0].0));
            }
        }
    }
}

/// Wired interfaces come before all others, wireless ones before those that are neither; within
/// a kind names come in their order.
pub proof fn wired_comes_first(a: Seq<char>, b: Seq<char>)
    ensures
        ({
            let wired = |n: Seq<char>| text::occurs(n, "ethernet"@) || text::occurs(n, "以太网"@);
            let wireless = |n: Seq<char>|
                text::occurs(n, "wlan"@) || text::occurs(n, "wi-fi"@) || text::occurs(n, "wifi"@)
                    || text::occurs(n, "无线"@);
            &&& wired(a) && !wired(b) ==> comes_before(a, b) && !comes_before(b, a)
            &&& wireless(a) && !wired(b) && !wireless(b) ==> comes_before(a, b) && !comes_before(
                b,
                a,
            )
            &&& wired(a) && wired(b) ==> comes_before(a, b) == text::precedes(a, b)
            &&& !wired(a) && !wired(b) && wireless(a) == wireless(b) ==> comes_before(a, b)
                == text::precedes(a, b)
        }),
{
}

/// The best address is the first of the list, and there is none exactly where the list is empty.
pub proof fn best_address_is_the_first(addresses: Seq<Seq<char>>)
    ensures
        addresses.len() == 0 ==> first_address(addresses) is None,
        addresses.len() > 0 ==> first_address(addresses) == Some(addresses[0]),
{
}

} // verus!

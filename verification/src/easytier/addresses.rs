//! Addresses in the virtual network.
use vstd::prelude::*;

use crate::models::easy_tier_node::{EasyTierNode, NodeView};
use crate::text;
use crate::util;

verus! {

/// An IPv4 address and the length of its network's prefix.
#[derive(Debug, Clone, Copy)]
pub struct Ipv4Net {
    pub octets: [u8; 4],
    pub prefix: u8,
}

/// Whether a text is an IPv4 address in dotted notation, a slash and the length of the prefix.
/// Without the slash and the length, the prefix is the whole address.
pub open spec fn is_ipv4_net(s: Seq<char>, net: Ipv4Net) -> bool {
    ||| s == util::dotted(net.octets@) && net.prefix == 32
    ||| exists|length: Seq<char>|
        {
            &&& s == #[trigger] (util::dotted(net.octets@).push('/') + length)
            &&& !length.contains('/')
            &&& text::u32_value(length) == Some(net.prefix as u32)
            &&& net.prefix <= 32
        }
}

/// `str::parse::<cidr::Ipv4Inet>`: an IPv4 address in dotted notation, alone or with a slash
/// and the length of the prefix, which is at most 32.
#[verifier::external_body]
pub(crate) fn parse_ipv4_net(text: &str) -> (net: Option<Ipv4Net>)
    ensures
        match net {
            Some(n) => is_ipv4_net(text@, n),
            None => forall|n: Ipv4Net| !is_ipv4_net(text@, n),
        },
{
    let net = text.parse::<cidr::Ipv4Inet>().ok()?;
    Some(Ipv4Net { octets: net.address().octets(), prefix: net.network_length() })
}

/// A fixed address with a prefix length: where it has none, that of a network of 256 addresses
/// is put behind it.
pub open spec fn with_prefix(ipv4: Seq<char>) -> Seq<char> {
    if ipv4.contains('/') {
        ipv4
    } else {
        ipv4 + "/24"@
    }
}

/// An address without its prefix length.
pub open spec fn without_prefix(ip: Seq<char>) -> Seq<char> {
    ip.take(text::first_from(ip, '/', 0))
}

/// An address without its prefix length.
pub fn strip_cidr(ip: &str) -> (address: String)
    ensures
        address@ == without_prefix(ip@),
{
    let chars = text::chars_of(ip);
    let slash: usize = text::find_from(&chars, '/', 0);
    let address = text::string_between(&chars, 0, slash);
    assert(address@ =~= ip@.take(slash as int));
    address
}

/// The numbers among some texts, put one behind the other, eight bits each; what does not fit
/// into 32 bits is cut off at the front.
pub open spec fn packed(parts: Seq<Seq<char>>) -> u32
    decreases parts.len(),
{
    if parts.len() == 0 {
        0
    } else {
        let before = packed(parts.drop_last());
        match text::u32_value(parts.last()) {
            Some(octet) => (before << 8u32) | octet,
            None => before,
        }
    }
}

/// An address in dotted notation as a number, first octet first.
pub fn ipv4_to_u32(ip: &str) -> (number: u32)
    ensures
        number == packed(text::split(ip@, '.')),
{
    let parts = text::split_text(ip, '.');
    let ghost all = text::texts(parts@);
    let mut number: u32 = 0;
    for i in 0..parts.len()
        invariant
            all == text::texts(parts@),
            number == packed(all.take(i as int)),
    {
        assert(all.take(i + 1).drop_last() =~= all.take(i as int));
        assert(all.take(i + 1).last() == parts@[i as int]@);
        if let Ok(octet) = text::parse_u32(parts[i].as_str()) {
            number = (number << 8u32) | octet;
        }
    }
    assert(all.take(all.len() as int) =~= all);
    number
}

/// The number of an address, first octet first.
pub open spec fn address_number(octets: Seq<u8>) -> nat {
    (octets[0] as nat) * 0x100_0000 + (octets[1] as nat) * 0x1_0000 + (octets[2] as nat) * 0x100 + (
    octets[3] as nat)
}

/// The octets of an address that is given as a number, first octet first.
pub open spec fn octets_of(number: u32) -> Seq<u8> {
    seq![
        (number / 0x100_0000) as u8,
        (number / 0x1_0000 % 0x100) as u8,
        (number / 0x100 % 0x100) as u8,
        (number % 0x100) as u8,
    ]
}

/// A node of the virtual network, from its address as a number, its host name and its number.
/// A node without an address has an empty one.
pub open spec fn route_node(address: Option<u32>, hostname: Seq<char>, peer_id: u32) -> NodeView {
    NodeView {
        virtual_ip: match address {
            Some(number) => util::dotted(octets_of(number)),
            None => Seq::empty(),
        },
        hostname,
        node_id: text::decimal(peer_id as nat),
    }
}

/// A node of the virtual network, from its address as a number, its host name and its number.
/// A node without an address has an empty one.
pub fn node_from_route(address: Option<u32>, hostname: String, peer_id: u32) -> (node: EasyTierNode)
    ensures
        node@ == route_node(address, hostname@, peer_id),
{
    let virtual_ip = match address {
        Some(number) => {
            let octets: [u8; 4] = [
                (number / 0x100_0000) as u8,
                (number / 0x1_0000 % 0x100) as u8,
                (number / 0x100 % 0x100) as u8,
                (number % 0x100) as u8,
            ];
            assert(octets@ =~= octets_of(number));
            util::dotted_text(&octets)
        },
        None => String::new(),
    };
    EasyTierNode { virtual_ip, hostname, node_id: text::decimal_text(peer_id as u64) }
}

// ---------------------------------------------------------------------------------------
// Laws
// ---------------------------------------------------------------------------------------
/// A number in decimal holds no character that is no digit.
pub proof fn digits_hold_no(c: char, n: nat)
    requires
        !text::is_digit(c),
    ensures
        !text::decimal(n).contains(c),
{
    text::decimal_roundtrip(n);
    assert forall|i: int| 0 <= i < text::decimal(n).len() implies text::decimal(n)[i] != c by {
        assert(text::is_digit(text::decimal(n)[i]));
    }
}

/// An address in dotted notation is read as its number, and the number has the address's
/// octets.
pub proof fn dotted_address_is_packed(octets: Seq<u8>)
    requires
        octets.len() == 4,
    ensures
        packed(text::split(util::dotted(octets), '.')) == address_number(octets),
        octets_of(packed(text::split(util::dotted(octets), '.'))) == octets,
{
    let parts = seq![
        text::decimal(octets[0] as nat),
        text::decimal(octets[1] as nat),
        text::decimal(octets[2] as nat),
        text::decimal(octets[3] as nat),
    ];
    digits_hold_no('.', octets[0] as nat);
    digits_hold_no('.', octets[1] as nat);
    digits_hold_no('.', octets[2] as nat);
    digits_hold_no('.', octets[3] as nat);
    let one = parts.take(1);
    let two = parts.take(2);
    let three = parts.take(3);
    assert(parts.drop_last() =~= three);
    assert(three.drop_last() =~= two);
    assert(two.drop_last() =~= one);
    assert(one.drop_last() =~= Seq::<Seq<char>>::empty());
    assert(text::join(one, '.') == parts[0]);
    assert(text::join(two, '.') == parts[0].push('.') + parts[1]);
    assert(text::join(three, '.') == (parts[0].push('.') + parts[1]).push('.') + parts[2]);
    assert(text::join(parts, '.') =~= util::dotted(octets));
    text::split_undoes_join(parts, '.');
    text::decimal_roundtrip(octets[0] as nat);
    text::decimal_roundtrip(octets[1] as nat);
    text::decimal_roundtrip(octets[2] as nat);
    text::decimal_roundtrip(octets[3] as nat);
    let a = octets[0] as u32;
    let b = octets[1] as u32;
    let c = octets[2] as u32;
    let d = octets[3] as u32;
    assert(packed(Seq::<Seq<char>>::empty()) == 0);
    assert(packed(one) == (0u32 << 8u32) | a);
    assert(packed(two) == (((0u32 << 8u32) | a) << 8u32) | b);
    assert(packed(three) == (((((0u32 << 8u32) | a) << 8u32) | b) << 8u32) | c);
    let number = packed(parts);
    assert(number == (((((((0u32 << 8u32) | a) << 8u32) | b) << 8u32) | c) << 8u32) | d);
    assert(number == a * 0x100_0000 + b * 0x1_0000 + c * 0x100 + d) by (bit_vector)
        requires
            number == (((((((0u32 << 8u32) | a) << 8u32) | b) << 8u32) | c) << 8u32) | d,
            a < 0x100,
            b < 0x100,
            c < 0x100,
            d < 0x100,
    ;
    assert(number / 0x100_0000 == a && number / 0x1_0000 % 0x100 == b && number / 0x100 % 0x100
        == c && number % 0x100 == d) by (bit_vector)
        requires
            number == (((((((0u32 << 8u32) | a) << 8u32) | b) << 8u32) | c) << 8u32) | d,
            a < 0x100,
            b < 0x100,
            c < 0x100,
            d < 0x100,
    ;
    assert(octets_of(number) =~= octets);
}

/// An address in dotted notation holds no slash.
pub proof fn dotted_holds_no_slash(octets: Seq<u8>)
    requires
        octets.len() == 4,
    ensures
        !util::dotted(octets).contains('/'),
{
    digits_hold_no('/', octets[0] as nat);
    digits_hold_no('/', octets[1] as nat);
    digits_hold_no('/', octets[2] as nat);
    digits_hold_no('/', octets[3] as nat);
    let a = text::decimal(octets[0] as nat);
    let b = text::decimal(octets[1] as nat);
    let c = text::decimal(octets[2] as nat);
    let d = text::decimal(octets[3] as nat);
    let s = util::dotted(octets);
    assert forall|i: int| 0 <= i < s.len() implies s[i] != '/' by {
        let p = a.len() as int;
        let q = p + 1 + b.len();
        let r = q + 1 + c.len();
        if i < p {
            assert(a.contains(a[i]));
        } else if p < i < q {
            assert(b.contains(b[i - p - 1]));
        } else if q < i < r {
            assert(c.contains(c[i - q - 1]));
        } else if i > r {
            assert(d.contains(d[i - r - 1]));
        }
    }
}

/// Two addresses in dotted notation are the same exactly where their octets are.
pub proof fn dotted_tells_the_octets(a: Seq<u8>, b: Seq<u8>)
    requires
        a.len() == 4,
        b.len() == 4,
        util::dotted(a) == util::dotted(b),
    ensures
        a == b,
{
    dotted_address_is_packed(a);
    dotted_address_is_packed(b);
}

/// An address with a prefix length is read as its octets and its prefix, and as nothing else.
pub proof fn address_is_read_back(octets: Seq<u8>, prefix: nat, net: Ipv4Net)
    requires
        octets.len() == 4,
        prefix <= 32,
        is_ipv4_net(util::dotted(octets).push('/') + text::decimal(prefix), net),
    ensures
        net.octets@ == octets,
        net.prefix == prefix,
{
    let plain = util::dotted(octets);
    let written = plain.push('/') + text::decimal(prefix);
    let size = plain.len() as int;
    let other = util::dotted(net.octets@);
    dotted_holds_no_slash(octets);
    dotted_holds_no_slash(net.octets@);
    assert(written[size] == '/');
    assert forall|i: int| 0 <= i < size implies written[i] != '/' by {
        assert(plain.contains(plain[i]));
    }
    if written == other && net.prefix == 32 {
        assert(other.contains(other[size]));
    }
    let length = choose|length: Seq<char>|
        {
            &&& written == #[trigger] (other.push('/') + length)
            &&& !length.contains('/')
            &&& text::u32_value(length) == Some(net.prefix as u32)
            &&& net.prefix <= 32
        };
    let place = other.len() as int;
    assert((other.push('/') + length)[place] == '/');
    assert(place >= size);
    if place > size {
        assert((other.push('/') + length)[size] == other[size]);
        assert(other.contains(other[size]));
    }
    assert(written.take(size) =~= plain);
    assert((other.push('/') + length).take(size) =~= other);
    assert(written.skip(size + 1) =~= text::decimal(prefix));
    assert((other.push('/') + length).skip(size + 1) =~= length);
    dotted_tells_the_octets(octets, net.octets@);
    text::decimal_roundtrip(prefix);
}

/// What stands before the first slash of an address is the address; an address without a slash
/// is kept whole.
pub proof fn prefix_is_cut_off(ip: Seq<char>, length: Seq<char>)
    requires
        !ip.contains('/'),
    ensures
        without_prefix(ip.push('/') + length) == ip,
        without_prefix(ip) == ip,
{
    let full = ip.push('/') + length;
    assert forall|i: int| 0 <= i < ip.len() implies ip[i] != '/' by {
        assert(ip.contains(ip[i]));
    }
    assert forall|i: int| 0 <= i < ip.len() implies full[i] != '/' by {
        assert(full[i] == ip[i]);
    }
    text::first_is(full, '/', 0, ip.len() as int);
    text::first_is(ip, '/', 0, ip.len() as int);
    assert(full.take(ip.len() as int) =~= ip);
    assert(ip.take(ip.len() as int) =~= ip);
}

/// A fixed address without a prefix length gets the length 24; one with a length keeps it. The
/// address itself stays as it is.
pub proof fn missing_prefix_is_added(ip: Seq<char>, length: Seq<char>)
    requires
        !ip.contains('/'),
    ensures
        with_prefix(ip) == ip + "/24"@,
        with_prefix(ip.push('/') + length) == ip.push('/') + length,
        without_prefix(with_prefix(ip)) == ip,
{
    let full = ip.push('/') + length;
    assert(full[ip.len() as int] == '/');
    reveal_strlit("/24");
    assert(ip + "/24"@ =~= ip.push('/') + seq!['2', '4']);
    prefix_is_cut_off(ip, seq!['2', '4']);
}

/// A node that is known by its address as a number has the address in dotted notation, which
/// stands for the same number; its own number is written in decimal and reads back.
pub proof fn route_is_told_as_it_is(address: Option<u32>, hostname: Seq<char>, peer_id: u32)
    ensures
        ({
            let node = route_node(address, hostname, peer_id);
            &&& node.hostname == hostname
            &&& text::u32_value(node.node_id) == Some(peer_id)
            &&& address is None ==> node.virtual_ip.len() == 0
            &&& address matches Some(number) ==> {
                &&& packed(text::split(node.virtual_ip, '.')) == number
                &&& exists|octets: Seq<u8>|
                    {
                        &&& octets.len() == 4
                        &&& node.virtual_ip == #[trigger] util::dotted(octets)
                        &&& number == octets[0] * 0x100_0000 + octets[1] * 0x1_0000 + octets[2]
                            * 0x100 + octets[3]
                    }
            }
        }),
{
    text::decimal_roundtrip(peer_id as nat);
    if let Some(number) = address {
        let octets = octets_of(number);
        dotted_address_is_packed(octets);
        assert(number / 0x100_0000 < 0x100);
        let high = number / 0x1_0000;
        let low = number % 0x1_0000;
        assert(number == high * 0x1_0000 + low);
        assert(number / 0x100_0000 == high / 0x100);
        assert(high == high / 0x100 * 0x100 + high % 0x100);
        assert(number / 0x100 == high * 0x100 + low / 0x100);
        assert(number / 0x100 % 0x100 == low / 0x100);
        assert(number % 0x100 == low % 0x100);
        assert(low == low / 0x100 * 0x100 + low % 0x100);
        assert(number == octets[0] * 0x100_0000 + octets[1] * 0x1_0000 + octets[2] * 0x100
            + octets[3]);
    }
}

} // verus!

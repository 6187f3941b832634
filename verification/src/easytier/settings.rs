//! How an instance of the virtual network is set up.
use vstd::prelude::*;

use crate::easytier::addresses;
use crate::easytier::addresses::Ipv4Net;
use crate::easytier::port_forward;
use crate::easytier::port_forward::{ForwardView, PortForward, SocketAddress};
use crate::error;
use crate::error::{ErrorView, ScaffoldingError};
use crate::models::network_config::{ConfigView, NetworkConfig};
use crate::relay::nodes;
use crate::text;
use crate::util;

verus! {

/// How an instance gets its address.
#[derive(Debug, Clone, Copy)]
pub enum AddressSetting {
    /// It has this one.
    Fixed(Ipv4Net),
    /// Whether the network assigns one.
    Dhcp(bool),
}

/// How an instance is set up.
#[derive(Debug)]
pub struct InstanceSettings {
    pub network_name: String,
    pub network_secret: String,
    pub hostname: String,
    pub address: AddressSetting,
    /// The addresses to listen on; the instance's own choice where there are none.
    pub listeners: Option<Vec<String>>,
    pub no_tun: bool,
    pub use_smoltcp: bool,
    pub multi_thread: bool,
    pub latency_first: bool,
    pub enable_kcp_proxy: bool,
    /// Whether data is compressed with zstd.
    pub compress_zstd: bool,
    pub tcp_whitelist: Vec<String>,
    pub udp_whitelist: Vec<String>,
    pub peers: Vec<String>,
    pub port_forwards: Vec<PortForward>,
}

/// What the settings of an instance hold.
#[verifier::ext_equal]
pub struct SettingsView {
    pub network_name: Seq<char>,
    pub network_secret: Seq<char>,
    pub hostname: Seq<char>,
    pub address: AddressSetting,
    pub listeners: Option<Seq<Seq<char>>>,
    pub no_tun: bool,
    pub use_smoltcp: bool,
    pub multi_thread: bool,
    pub latency_first: bool,
    pub enable_kcp_proxy: bool,
    pub compress_zstd: bool,
    pub tcp_whitelist: Seq<Seq<char>>,
    pub udp_whitelist: Seq<Seq<char>>,
    pub peers: Seq<Seq<char>>,
    pub port_forwards: Seq<ForwardView>,
}

impl View for InstanceSettings {
    type V = SettingsView;

    open spec fn view(&self) -> SettingsView {
        SettingsView {
            network_name: self.network_name@,
            network_secret: self.network_secret@,
            hostname: self.hostname@,
            address: self.address,
            listeners: match self.listeners {
                Some(uris) => Some(text::texts(uris@)),
                None => None,
            },
            no_tun: self.no_tun,
            use_smoltcp: self.use_smoltcp,
            multi_thread: self.multi_thread,
            latency_first: self.latency_first,
            enable_kcp_proxy: self.enable_kcp_proxy,
            compress_zstd: self.compress_zstd,
            tcp_whitelist: text::texts(self.tcp_whitelist@),
            udp_whitelist: text::texts(self.udp_whitelist@),
            peers: text::texts(self.peers@),
            port_forwards: self.port_forwards@.map_values(|f: PortForward| f@),
        }
    }
}

/// The addresses that an instance listens on: ports of the system's choice, on the given
/// address or on all of them. None where the instance does not listen on such ports.
pub open spec fn listeners_of(config: ConfigView) -> Seq<Seq<char>> {
    let bind = match config.bind_ip {
        Some(ip) => ip,
        None => "0.0.0.0"@,
    };
    if config.listen_random_ports {
        seq!["tcp://"@ + bind + ":0"@, "udp://"@ + bind + ":0"@]
    } else {
        Seq::empty()
    }
}

/// The nodes that an instance connects to: the given ones, or the built-in ones.
pub open spec fn peers_of(config: ConfigView) -> Seq<Seq<char>> {
    match config.relay_nodes {
        Some(nodes) => nodes,
        None => nodes::default_node_texts(),
    }
}

/// The place of the first `false`, or the length where there is none.
pub open spec fn first_false(verdicts: Seq<bool>) -> int
    decreases verdicts.len(),
{
    if verdicts.len() == 0 {
        0
    } else if !verdicts[0] {
        0
    } else {
        1 + first_false(verdicts.skip(1))
    }
}

/// The port forwards, given what their addresses were read as; the first that is wrong decides.
pub open spec fn parsed_forwards(
    raw: Seq<Seq<char>>,
    addresses: Seq<(Option<SocketAddress>, Option<SocketAddress>)>,
) -> Result<Seq<ForwardView>, ErrorView>
    decreases raw.len(),
{
    if raw.len() == 0 {
        Ok(Seq::empty())
    } else {
        let last = raw.len() - 1;
        match parsed_forwards(raw.drop_last(), addresses) {
            Err(error) => Err(error),
            Ok(before) => match port_forward::parsed_forward(raw[last], addresses[last].0, addresses[last].1) {
                Ok(forward) => Ok(before.push(forward)),
                Err(error) => Err(error),
            },
        }
    }
}

/// Whether settings are those of a configuration whose port forwards were read.
pub open spec fn settings_fit(
    config: ConfigView,
    forwards: Seq<ForwardView>,
    settings: SettingsView,
) -> bool {
    &&& match config.ipv4 {
        Some(ipv4) => settings.address matches AddressSetting::Fixed(net) && addresses::is_ipv4_net(
            addresses::with_prefix(ipv4),
            net,
        ),
        None => settings.address == AddressSetting::Dhcp(config.dhcp),
    }
    &&& settings == (SettingsView {
        network_name: config.network_name,
        network_secret: config.network_secret,
        hostname: config.hostname,
        address: settings.address,
        listeners: if config.listen_random_ports {
            Some(listeners_of(config))
        } else {
            None
        },
        no_tun: config.no_tun,
        use_smoltcp: config.use_smoltcp,
        multi_thread: true,
        latency_first: true,
        enable_kcp_proxy: true,
        compress_zstd: true,
        tcp_whitelist: seq!["0"@] + config.tcp_whitelist,
        udp_whitelist: seq!["0"@],
        peers: peers_of(config),
        port_forwards: forwards,
    })
}

/// Whether `result` is what setting up an instance leads to, given which of the listeners and
/// peers are valid addresses and what the addresses of the port forwards were read as. Of
/// several errors the first counts: the fixed address, the listeners, the peers, the port
/// forwards.
pub open spec fn set_up(
    config: ConfigView,
    listeners_valid: Seq<bool>,
    peers_valid: Seq<bool>,
    addresses: Seq<(Option<SocketAddress>, Option<SocketAddress>)>,
    result: Result<SettingsView, ErrorView>,
) -> bool {
    let listener = first_false(listeners_valid);
    let peer = first_false(peers_valid);
    if config.ipv4 is Some && (forall|n: Ipv4Net| !addresses::is_ipv4_net(addresses::with_prefix(config.ipv4->0), n)) {
        result == Err::<SettingsView, ErrorView>(
            ErrorView::EasyTierStart("无效的 ipv4 地址: "@ + config.ipv4->0),
        )
    } else if listener < listeners_valid.len() {
        result == Err::<SettingsView, ErrorView>(
            ErrorView::EasyTierStart("无效的监听地址: "@ + listeners_of(config)[listener]),
        )
    } else if peer < peers_valid.len() {
        result == Err::<SettingsView, ErrorView>(
            ErrorView::EasyTierStart("无效的中继节点地址: "@ + peers_of(config)[peer]),
        )
    } else {
        match parsed_forwards(config.port_forwards, addresses) {
            Err(error) => result == Err::<SettingsView, ErrorView>(error),
            Ok(forwards) => result matches Ok(settings) && settings_fit(
                config,
                forwards,
                settings,
            ),
        }
    }
}

/// The addresses that an instance listens on; they have to be valid addresses.
pub fn listener_uris(config: &NetworkConfig) -> (uris: Vec<String>)
    ensures
        text::texts(uris@) == listeners_of(config@),
{
    let mut uris: Vec<String> = Vec::new();
    if config.listen_random_ports {
        let bind = match &config.bind_ip {
            Some(ip) => ip.as_str(),
            None => "0.0.0.0",
        };
        let mut tcp = text::concat("tcp://", bind);
        tcp.append(":0");
        let mut udp = text::concat("udp://", bind);
        udp.append(":0");
        uris.push(tcp);
        uris.push(udp);
    }
    assert(text::texts(uris@) =~= listeners_of(config@));
    uris
}

/// The nodes that an instance connects to; they have to be valid addresses.
pub fn peer_uris(config: &NetworkConfig) -> (uris: Vec<String>)
    ensures
        text::texts(uris@) == peers_of(config@),
{
    match &config.relay_nodes {
        Some(nodes) => text::copy_texts(nodes.as_slice()),
        None => {
            let uris = nodes::resolve(None, None);
            assert(text::texts(uris@) =~= nodes::default_node_texts());
            uris
        },
    }
}

fn find_false(verdicts: &Vec<bool>) -> (place: usize)
    ensures
        place == first_false(verdicts@),
        place <= verdicts@.len(),
{
    let mut i: usize = 0;
    assert(verdicts@.skip(0) =~= verdicts@);
    while i < verdicts.len() && verdicts[i]
        invariant
            i <= verdicts@.len(),
            first_false(verdicts@) == i + first_false(verdicts@.skip(i as int)),
        decreases verdicts@.len() - i,
    {
        assert(verdicts@.skip(i as int).skip(1) =~= verdicts@.skip(i + 1));
        i += 1;
    }
    i
}

fn address_setting(config: &NetworkConfig) -> (address: Result<AddressSetting, ScaffoldingError>)
    ensures
        match config@.ipv4 {
            Some(ipv4) => match address {
                Ok(setting) => setting matches AddressSetting::Fixed(net) && addresses::is_ipv4_net(
                    addresses::with_prefix(ipv4),
                    net,
                ),
                Err(error) => (forall|n: Ipv4Net| !addresses::is_ipv4_net(addresses::with_prefix(ipv4), n)) && error@
                    == ErrorView::EasyTierStart("无效的 ipv4 地址: "@ + ipv4),
            },
            None => address matches Ok(setting) && setting == AddressSetting::Dhcp(config@.dhcp),
        },
{
    match &config.ipv4 {
        Some(ipv4) => {
            let chars = text::chars_of(ipv4.as_str());
            let slash: usize = text::find_from(&chars, '/', 0);
            let full = if slash < chars.len() {
                assert(ipv4@[slash as int] == '/');
                ipv4.clone()
            } else {
                text::concat(ipv4.as_str(), "/24")
            };
            assert(full@ == addresses::with_prefix(ipv4@));
            match addresses::parse_ipv4_net(full.as_str()) {
                Some(net) => Ok(AddressSetting::Fixed(net)),
                None => Err(
                    ScaffoldingError::EasyTierStart(
                        text::concat("无效的 ipv4 地址: ", ipv4.as_str()),
                    ),
                ),
            }
        },
        None => Ok(AddressSetting::Dhcp(config.dhcp)),
    }
}

/// Once a port forward is wrong, those behind it do not matter.
proof fn wrong_forward_decides(
    raw: Seq<Seq<char>>,
    addresses: Seq<(Option<SocketAddress>, Option<SocketAddress>)>,
    i: int,
)
    requires
        0 <= i <= raw.len(),
        parsed_forwards(raw.take(i), addresses) is Err,
    ensures
        parsed_forwards(raw, addresses) == parsed_forwards(raw.take(i), addresses),
    decreases raw.len() - i,
{
    if i < raw.len() {
        assert(raw.take(i + 1).drop_last() =~= raw.take(i));
        wrong_forward_decides(raw, addresses, i + 1);
    } else {
        assert(raw.take(i) =~= raw);
    }
}

fn read_forwards(
    raw: &Vec<String>,
    addresses: &Vec<(Option<SocketAddress>, Option<SocketAddress>)>,
) -> (forwards: Result<Vec<PortForward>, ScaffoldingError>)
    requires
        raw@.len() == addresses@.len(),
    ensures
        match forwards {
            Ok(list) => parsed_forwards(text::texts(raw@), addresses@) == Ok::<
                Seq<ForwardView>,
                ErrorView,
            >(list@.map_values(|f: PortForward| f@)),
            Err(error) => parsed_forwards(text::texts(raw@), addresses@) == Err::<
                Seq<ForwardView>,
                ErrorView,
            >(error@),
        },
{
    let ghost all = text::texts(raw@);
    let mut list: Vec<PortForward> = Vec::new();
    assert(list@.map_values(|f: PortForward| f@) =~= Seq::<ForwardView>::empty());
    for i in 0..raw.len()
        invariant
            all == text::texts(raw@),
            raw@.len() == addresses@.len(),
            parsed_forwards(all.take(i as int), addresses@) == Ok::<Seq<ForwardView>, ErrorView>(
                list@.map_values(|f: PortForward| f@),
            ),
    {
        assert(all.take(i + 1).drop_last() =~= all.take(i as int));
        assert(all.take(i + 1)[i as int] == raw@[i as int]@);
        let ghost before = list@.map_values(|f: PortForward| f@);
        match port_forward::parse_port_forward(raw[i].as_str(), addresses[i].0, addresses[i].1) {
            Ok(forward) => {
                let ghost added = forward@;
                list.push(forward);
                assert(list@.map_values(|f: PortForward| f@) =~= before.push(added));
            },
            Err(error) => {
                proof {
                    wrong_forward_decides(all, addresses@, i + 1);
                }
                return Err(error);
            },
        }
    }
    assert(all.take(all.len() as int) =~= all);
    Ok(list)
}

/// Sets an instance up. Which of the listeners and peers are valid addresses, and what the
/// addresses of the port forwards are, is given.
pub fn build_settings(
    config: &NetworkConfig,
    listeners_valid: &Vec<bool>,
    peers_valid: &Vec<bool>,
    addresses: &Vec<(Option<SocketAddress>, Option<SocketAddress>)>,
) -> (settings: Result<InstanceSettings, ScaffoldingError>)
    requires
        listeners_valid@.len() == listeners_of(config@).len(),
        peers_valid@.len() == peers_of(config@).len(),
        addresses@.len() == config@.port_forwards.len(),
    ensures
        set_up(
            config@,
            listeners_valid@,
            peers_valid@,
            addresses@,
            error::outcome(settings),
        ),
{
    let address = match address_setting(config) {
        Ok(address) => address,
        Err(error) => return Err(error),
    };
    let listeners = listener_uris(config);
    let listener: usize = find_false(listeners_valid);
    if listener < listeners_valid.len() {
        assert(text::texts(listeners@)[listener as int] == listeners@[listener as int]@);
        return Err(
            ScaffoldingError::EasyTierStart(
                text::concat("无效的监听地址: ", listeners[listener].as_str()),
            ),
        );
    }
    let peers = peer_uris(config);
    let peer: usize = find_false(peers_valid);
    if peer < peers_valid.len() {
        assert(text::texts(peers@)[peer as int] == peers@[peer as int]@);
        return Err(
            ScaffoldingError::EasyTierStart(
                text::concat("无效的中继节点地址: ", peers[peer].as_str()),
            ),
        );
    }
    let port_forwards = match read_forwards(&config.port_forwards, addresses) {
        Ok(list) => list,
        Err(error) => return Err(error),
    };
    let mut tcp_whitelist: Vec<String> = Vec::new();
    tcp_whitelist.push("0".to_owned());
    let mut allowed = text::copy_texts(config.tcp_whitelist.as_slice());
    tcp_whitelist.append(&mut allowed);
    let mut udp_whitelist: Vec<String> = Vec::new();
    udp_whitelist.push("0".to_owned());
    assert(text::texts(tcp_whitelist@) =~= seq!["0"@] + config@.tcp_whitelist);
    assert(text::texts(udp_whitelist@) =~= seq!["0"@]);
    let settings = InstanceSettings {
        network_name: config.network_name.clone(),
        network_secret: config.network_secret.clone(),
        hostname: config.hostname.clone(),
        address,
        listeners: if config.listen_random_ports {
            Some(listeners)
        } else {
            None
        },
        no_tun: config.no_tun,
        use_smoltcp: config.use_smoltcp,
        multi_thread: true,
        latency_first: true,
        enable_kcp_proxy: true,
        compress_zstd: true,
        tcp_whitelist,
        udp_whitelist,
        peers,
        port_forwards,
    };
    assert(settings_fit(config@, settings@.port_forwards, settings@));
    Ok(settings)
}

// ---------------------------------------------------------------------------------------
// Laws
// ---------------------------------------------------------------------------------------
/// Where a configuration gives relay nodes, the peers of the instance are all of them, as many
/// and in their order, however many there are; where it gives none, they are the two built-in
/// nodes.
pub proof fn instance_connects_to_all_relays(
    config: ConfigView,
    listeners_valid: Seq<bool>,
    peers_valid: Seq<bool>,
    read: Seq<(Option<SocketAddress>, Option<SocketAddress>)>,
    settings: SettingsView,
)
    requires
        set_up(config, listeners_valid, peers_valid, read, Ok(settings)),
    ensures
        config.relay_nodes matches Some(nodes) ==> {
            &&& settings.peers.len() == nodes.len()
            &&& forall|i: int| 0 <= i < nodes.len() ==> settings.peers[i] == #[trigger] nodes[i]
        },
        config.relay_nodes is None ==> settings.peers == nodes::resolved(None, Seq::empty()),
        settings.peers == peers_of(config),
{
    nodes::all_given_nodes_are_used(None, Seq::empty());
    assert(nodes::resolved(None, Seq::empty()) =~= nodes::default_node_texts());
}

/// The peers whose validity is asked for are those of the configuration: all of its relay nodes,
/// as many and in their order, or the two built-in nodes.
pub proof fn all_relays_are_checked(config: ConfigView)
    ensures
        config.relay_nodes matches Some(nodes) ==> {
            &&& peers_of(config).len() == nodes.len()
            &&& forall|i: int| 0 <= i < nodes.len() ==> peers_of(config)[i] == #[trigger] nodes[i]
        },
        config.relay_nodes is None ==> peers_of(config) == nodes::resolved(None, Seq::empty()),
{
    assert(nodes::resolved(None, Seq::empty()) =~= nodes::default_node_texts());
}

/// An instance listens on ports of the system's choice, over TCP and over UDP, on the address
/// that the configuration binds to or on all of them; where the configuration wants no such
/// ports, it listens on none that is named here.
pub proof fn instance_listens_where_it_is_bound(config: ConfigView)
    ensures
        !config.listen_random_ports ==> listeners_of(config).len() == 0,
        config.listen_random_ports ==> {
            let uris = listeners_of(config);
            let ip = match config.bind_ip {
                Some(ip) => ip,
                None => "0.0.0.0"@,
            };
            &&& uris.len() == 2
            &&& uris[0] == "tcp://"@ + ip + ":0"@
            &&& uris[1] == "udp://"@ + ip + ":0"@
        },
{
}

/// The settings carry what the configuration says, nothing of it lost or changed: the network's
/// name and secret, the host name, the devices, the listeners, and every TCP port that other
/// nodes may reach, behind the port 0. No UDP port but 0 may be reached.
pub proof fn settings_follow_the_configuration(
    config: ConfigView,
    listeners_valid: Seq<bool>,
    peers_valid: Seq<bool>,
    read: Seq<(Option<SocketAddress>, Option<SocketAddress>)>,
    settings: SettingsView,
)
    requires
        set_up(config, listeners_valid, peers_valid, read, Ok(settings)),
    ensures
        settings.network_name == config.network_name,
        settings.network_secret == config.network_secret,
        settings.hostname == config.hostname,
        settings.no_tun == config.no_tun,
        settings.use_smoltcp == config.use_smoltcp,
        settings.multi_thread,
        settings.latency_first,
        settings.enable_kcp_proxy,
        settings.compress_zstd,
        settings.listeners is Some <==> config.listen_random_ports,
        settings.listeners matches Some(uris) ==> uris == listeners_of(config),
        settings.tcp_whitelist.len() == config.tcp_whitelist.len() + 1,
        settings.tcp_whitelist[0] == "0"@,
        forall|i: int|
            0 <= i < config.tcp_whitelist.len() ==> settings.tcp_whitelist[i + 1]
                == #[trigger] config.tcp_whitelist[i],
        settings.udp_whitelist.len() == 1,
        settings.udp_whitelist[0] == "0"@,
        config.ipv4 is None ==> settings.address == AddressSetting::Dhcp(config.dhcp),
        config.ipv4 is Some ==> settings.address is Fixed,
{
}

/// Where a host and a guest have the same relay nodes, name and secret in their configurations,
/// their instances have them too: they meet.
pub proof fn same_network_is_joined(
    a: ConfigView,
    b: ConfigView,
    a_valid: (Seq<bool>, Seq<bool>),
    b_valid: (Seq<bool>, Seq<bool>),
    a_read: Seq<(Option<SocketAddress>, Option<SocketAddress>)>,
    b_read: Seq<(Option<SocketAddress>, Option<SocketAddress>)>,
    a_settings: SettingsView,
    b_settings: SettingsView,
)
    requires
        set_up(a, a_valid.0, a_valid.1, a_read, Ok(a_settings)),
        set_up(b, b_valid.0, b_valid.1, b_read, Ok(b_settings)),
        a.network_name == b.network_name,
        a.network_secret == b.network_secret,
        a.relay_nodes == b.relay_nodes,
    ensures
        a_settings.network_name == b_settings.network_name,
        a_settings.network_secret == b_settings.network_secret,
        a_settings.peers == b_settings.peers,
{
}

/// The first `false` is one, and none stands before it.
proof fn first_false_is_first(verdicts: Seq<bool>)
    ensures
        0 <= first_false(verdicts) <= verdicts.len(),
        first_false(verdicts) < verdicts.len() ==> !verdicts[first_false(verdicts)],
        forall|i: int| 0 <= i < first_false(verdicts) ==> #[trigger] verdicts[i],
    decreases verdicts.len(),
{
    if verdicts.len() > 0 && verdicts[0] {
        let rest = verdicts.skip(1);
        first_false_is_first(rest);
        assert forall|i: int| 0 <= i < first_false(verdicts) implies #[trigger] verdicts[i] by {
            if i > 0 {
                assert(rest[i - 1] == verdicts[i]);
            }
        }
    }
}

/// The port forwards are read one by one: they are accepted exactly where each of them is, and
/// then each stands at its place; else the first that is wrong is reported.
pub proof fn forwards_are_read_one_by_one(
    raw: Seq<Seq<char>>,
    read: Seq<(Option<SocketAddress>, Option<SocketAddress>)>,
)
    requires
        raw.len() == read.len(),
    ensures
        match parsed_forwards(raw, read) {
            Ok(forwards) => {
                &&& forwards.len() == raw.len()
                &&& forall|i: int|
                    0 <= i < raw.len() ==> port_forward::parsed_forward(
                        #[trigger] raw[i],
                        read[i].0,
                        read[i].1,
                    ) == Ok::<ForwardView, ErrorView>(forwards[i])
            },
            Err(error) => exists|i: int|
                {
                    &&& 0 <= i < raw.len()
                    &&& port_forward::parsed_forward(#[trigger] raw[i], read[i].0, read[i].1)
                        == Err::<ForwardView, ErrorView>(error)
                    &&& forall|j: int|
                        0 <= j < i ==> port_forward::parsed_forward(
                            #[trigger] raw[j],
                            read[j].0,
                            read[j].1,
                        ) is Ok
                },
        },
{
    forwards_of_a_beginning(raw, read);
}

proof fn forwards_of_a_beginning(
    raw: Seq<Seq<char>>,
    read: Seq<(Option<SocketAddress>, Option<SocketAddress>)>,
)
    requires
        raw.len() <= read.len(),
    ensures
        match parsed_forwards(raw, read) {
            Ok(forwards) => {
                &&& forwards.len() == raw.len()
                &&& forall|i: int|
                    0 <= i < raw.len() ==> port_forward::parsed_forward(
                        #[trigger] raw[i],
                        read[i].0,
                        read[i].1,
                    ) == Ok::<ForwardView, ErrorView>(forwards[i])
            },
            Err(error) => exists|i: int|
                {
                    &&& 0 <= i < raw.len()
                    &&& port_forward::parsed_forward(#[trigger] raw[i], read[i].0, read[i].1)
                        == Err::<ForwardView, ErrorView>(error)
                    &&& forall|j: int|
                        0 <= j < i ==> port_forward::parsed_forward(
                            #[trigger] raw[j],
                            read[j].0,
                            read[j].1,
                        ) is Ok
                },
        },
    decreases raw.len(),
{
    if raw.len() > 0 {
        let less = raw.drop_last();
        let last = raw.len() - 1;
        forwards_of_a_beginning(less, read);
        match parsed_forwards(less, read) {
            Ok(before) => {
                assert forall|j: int| 0 <= j < last implies port_forward::parsed_forward(
                    #[trigger] raw[j],
                    read[j].0,
                    read[j].1,
                ) == Ok::<ForwardView, ErrorView>(before[j]) by {
                    assert(less[j] == raw[j]);
                }
                if let Err(error) = parsed_forwards(raw, read) {
                    assert(port_forward::parsed_forward(raw[last], read[last].0, read[last].1)
                        == Err::<ForwardView, ErrorView>(error));
                }
            },
            Err(error) => {
                let i = choose|i: int|
                    {
                        &&& 0 <= i < less.len()
                        &&& port_forward::parsed_forward(#[trigger] less[i], read[i].0, read[i].1)
                            == Err::<ForwardView, ErrorView>(error)
                        &&& forall|j: int|
                            0 <= j < i ==> port_forward::parsed_forward(
                                #[trigger] less[j],
                                read[j].0,
                                read[j].1,
                            ) is Ok
                    };
                assert(raw[i] == less[i]);
                assert forall|j: int| 0 <= j < i implies port_forward::parsed_forward(
                    #[trigger] raw[j],
                    read[j].0,
                    read[j].1,
                ) is Ok by {
                    assert(less[j] == raw[j]);
                }
            },
        }
    }
}

/// An instance is set up exactly where everything that is given is valid: the fixed address,
/// where there is one, every listener, every peer and every port forward. Then the settings have
/// the port forwards, each at its place.
pub proof fn valid_configurations_are_set_up(
    config: ConfigView,
    listeners_valid: Seq<bool>,
    peers_valid: Seq<bool>,
    read: Seq<(Option<SocketAddress>, Option<SocketAddress>)>,
    result: Result<SettingsView, ErrorView>,
)
    requires
        set_up(config, listeners_valid, peers_valid, read, result),
        read.len() == config.port_forwards.len(),
    ensures
        result is Ok <==> {
            &&& config.ipv4 matches Some(ip) ==> exists|net: Ipv4Net| #[trigger]
                addresses::is_ipv4_net(addresses::with_prefix(ip), net)
            &&& forall|i: int| 0 <= i < listeners_valid.len() ==> #[trigger] listeners_valid[i]
            &&& forall|i: int| 0 <= i < peers_valid.len() ==> #[trigger] peers_valid[i]
            &&& forall|i: int|
                0 <= i < read.len() ==> port_forward::parsed_forward(
                    #[trigger] config.port_forwards[i],
                    read[i].0,
                    read[i].1,
                ) is Ok
        },
        result matches Ok(settings) ==> {
            &&& settings.port_forwards.len() == config.port_forwards.len()
            &&& forall|i: int|
                0 <= i < read.len() ==> port_forward::parsed_forward(
                    #[trigger] config.port_forwards[i],
                    read[i].0,
                    read[i].1,
                ) == Ok::<ForwardView, ErrorView>(settings.port_forwards[i])
        },
{
    first_false_is_first(listeners_valid);
    first_false_is_first(peers_valid);
    forwards_are_read_one_by_one(config.port_forwards, read);
}

/// What is wrong is named: an address that is none, or, where the address is right, the first
/// listener that is not valid, or, where all of them are, the first peer that is not.
pub proof fn what_is_wrong_is_named(
    config: ConfigView,
    listeners_valid: Seq<bool>,
    peers_valid: Seq<bool>,
    read: Seq<(Option<SocketAddress>, Option<SocketAddress>)>,
    error: ErrorView,
    i: int,
)
    requires
        set_up(config, listeners_valid, peers_valid, read, Err(error)),
    ensures
        config.ipv4 matches Some(ip) ==> {
            (forall|net: Ipv4Net| !#[trigger] addresses::is_ipv4_net(addresses::with_prefix(ip), net))
                ==> error == ErrorView::EasyTierStart("无效的 ipv4 地址: "@ + ip)
        },
        config.ipv4 is None && 0 <= i < listeners_valid.len() && !listeners_valid[i] && (forall|
            j: int,
        |
            0 <= j < i ==> #[trigger] listeners_valid[j]) ==> error == ErrorView::EasyTierStart(
            "无效的监听地址: "@ + listeners_of(config)[i],
        ),
        config.ipv4 is None && (forall|j: int|
            0 <= j < listeners_valid.len() ==> #[trigger] listeners_valid[j]) && 0 <= i
            < peers_valid.len() && !peers_valid[i] && (forall|j: int|
            0 <= j < i ==> #[trigger] peers_valid[j]) ==> error == ErrorView::EasyTierStart(
            "无效的中继节点地址: "@ + peers_of(config)[i],
        ),
{
    first_false_is_first(listeners_valid);
    first_false_is_first(peers_valid);
    let l = first_false(listeners_valid);
    let p = first_false(peers_valid);
    if 0 <= i < listeners_valid.len() && l < i {
        assert(!listeners_valid[l]);
    }
    if 0 <= i < peers_valid.len() && p < i {
        assert(!peers_valid[p]);
    }
}

/// A fixed address is the one that the configuration gives, octet by octet; its prefix is the
/// one that is given, and 24 where none is.
pub proof fn fixed_address_is_the_given_one(
    config: ConfigView,
    listeners_valid: Seq<bool>,
    peers_valid: Seq<bool>,
    read: Seq<(Option<SocketAddress>, Option<SocketAddress>)>,
    settings: SettingsView,
    octets: Seq<u8>,
    prefix: nat,
)
    requires
        set_up(config, listeners_valid, peers_valid, read, Ok(settings)),
        octets.len() == 4,
        prefix <= 32,
    ensures
        config.ipv4 == Some(util::dotted(octets)) ==> {
            settings.address matches AddressSetting::Fixed(net) && net.octets@ == octets
                && net.prefix == 24
        },
        config.ipv4 == Some(util::dotted(octets).push('/') + text::decimal(prefix)) ==> {
            settings.address matches AddressSetting::Fixed(net) && net.octets@ == octets
                && net.prefix == prefix
        },
{
    let plain = util::dotted(octets);
    addresses::dotted_holds_no_slash(octets);
    if config.ipv4 == Some(plain) {
        let net = settings.address->Fixed_0;
        reveal_strlit("/24");
        reveal_with_fuel(text::decimal, 3);
        assert(text::decimal(24) =~= seq!['2', '4']);
        assert(plain + "/24"@ =~= plain.push('/') + text::decimal(24));
        addresses::address_is_read_back(octets, 24, net);
    }
    if config.ipv4 == Some(plain.push('/') + text::decimal(prefix)) {
        let net = settings.address->Fixed_0;
        let full = plain.push('/') + text::decimal(prefix);
        assert(full[plain.len() as int] == '/');
        addresses::address_is_read_back(octets, prefix, net);
    }
}

} // verus!

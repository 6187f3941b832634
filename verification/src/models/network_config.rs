//! How a node joins the virtual network.
use vstd::prelude::*;

use crate::text;

verus! {

/// How a node joins the virtual network.
#[derive(Debug, PartialEq, Eq)]
pub struct NetworkConfig {
    /// The network's name.
    pub network_name: String,
    /// The network's secret.
    pub network_secret: String,
    /// The name that the node gives itself.
    pub hostname: String,
    /// Whether the node does without a TUN device.
    pub no_tun: bool,
    /// Whether the node uses a TCP stack in user space.
    pub use_smoltcp: bool,
    /// Whether the node's address is assigned by the network.
    pub dhcp: bool,
    /// The node's fixed address, with or without a prefix length.
    pub ipv4: Option<String>,
    /// Whether the node listens on ports of the system's choice.
    pub listen_random_ports: bool,
    /// The TCP ports that other nodes may reach.
    pub tcp_whitelist: Vec<String>,
    /// Port forwards, each as `protocol://bind-address/target-address`.
    pub port_forwards: Vec<String>,
    /// The relay nodes to connect to.
    pub relay_nodes: Option<Vec<String>>,
    /// The address of the interface to listen on; all of them where there is none.
    pub bind_ip: Option<String>,
}

/// What a configuration holds.
#[verifier::ext_equal]
pub struct ConfigView {
    pub network_name: Seq<char>,
    pub network_secret: Seq<char>,
    pub hostname: Seq<char>,
    pub no_tun: bool,
    pub use_smoltcp: bool,
    pub dhcp: bool,
    pub ipv4: Option<Seq<char>>,
    pub listen_random_ports: bool,
    pub tcp_whitelist: Seq<Seq<char>>,
    pub port_forwards: Seq<Seq<char>>,
    pub relay_nodes: Option<Seq<Seq<char>>>,
    pub bind_ip: Option<Seq<char>>,
}

impl View for NetworkConfig {
    type V = ConfigView;

    open spec fn view(&self) -> ConfigView {
        ConfigView {
            network_name: self.network_name@,
            network_secret: self.network_secret@,
            hostname: self.hostname@,
            no_tun: self.no_tun,
            use_smoltcp: self.use_smoltcp,
            dhcp: self.dhcp,
            ipv4: text::optional_text(self.ipv4),
            listen_random_ports: self.listen_random_ports,
            tcp_whitelist: text::texts(self.tcp_whitelist@),
            port_forwards: text::texts(self.port_forwards@),
            relay_nodes: match self.relay_nodes {
                Some(nodes) => Some(text::texts(nodes@)),
                None => None,
            },
            bind_ip: text::optional_text(self.bind_ip),
        }
    }
}

/// The configuration that applies where nothing else is said.
pub open spec fn default_config() -> ConfigView {
    ConfigView {
        network_name: Seq::empty(),
        network_secret: Seq::empty(),
        hostname: Seq::empty(),
        no_tun: true,
        use_smoltcp: false,
        dhcp: true,
        ipv4: None,
        listen_random_ports: true,
        tcp_whitelist: Seq::empty(),
        port_forwards: Seq::empty(),
        relay_nodes: None,
        bind_ip: None,
    }
}

impl Default for NetworkConfig {
    fn default() -> (config: Self)
        ensures
            config@ == default_config(),
    {
        let config = NetworkConfig {
            network_name: String::new(),
            network_secret: String::new(),
            hostname: String::new(),
            no_tun: true,
            use_smoltcp: false,
            dhcp: true,
            ipv4: None,
            listen_random_ports: true,
            tcp_whitelist: Vec::new(),
            port_forwards: Vec::new(),
            relay_nodes: None,
            bind_ip: None,
        };
        assert(config@ =~= default_config());
        config
    }
}

} // verus!

//! Instances of the virtual network.
use qomicex_connector::easytier::addresses::{ipv4_to_u32, node_from_route, strip_cidr};
use qomicex_connector::easytier::manager::{
    disconnect_failed, forward_failed, peer_to_disconnect, EasyTierManager, ManagerAction,
    ManagerEvent,
};
use qomicex_connector::easytier::port_forward::{
    forward_to, parse_port_forward, port_forward_patch, split_forward, SocketAddress,
};
use qomicex_connector::easytier::settings::{
    build_settings, listener_uris, peer_uris, AddressSetting, InstanceSettings,
};
use qomicex_connector::error::ScaffoldingError;
use qomicex_connector::json::JsonValue;
use qomicex_connector::models::network_config::NetworkConfig;
use qomicex_connector::relay::nodes::DEFAULT_NODES;

fn address(text: &str) -> Option<SocketAddress> {
    match text {
        "1.1.1.1:1" => Some(SocketAddress::V4([1, 1, 1, 1], 1)),
        "2.2.2.2:2" => Some(SocketAddress::V4([2, 2, 2, 2], 2)),
        "127.0.0.1:1" => Some(SocketAddress::V4([127, 0, 0, 1], 1)),
        "127.0.0.1:5000" => Some(SocketAddress::V4([127, 0, 0, 1], 5000)),
        "10.0.0.1:25565" => Some(SocketAddress::V4([10, 0, 0, 1], 25565)),
        "10.144.144.1:25565" => Some(SocketAddress::V4([10, 144, 144, 1], 25565)),
        "[::1]:1" => {
            let mut octets = [0u8; 16];
            octets[15] = 1;
            Some(SocketAddress::V6(octets, 0, 1))
        }
        _ => None,
    }
}

fn addresses(raw: &str) -> (Option<SocketAddress>, Option<SocketAddress>) {
    match split_forward(raw) {
        Some((_, bind, target)) => (address(&bind), address(&target)),
        None => (None, None),
    }
}

fn build(config: &NetworkConfig) -> Result<InstanceSettings, String> {
    let listeners = listener_uris(config).iter().map(|u| !u.contains(' ')).collect();
    let peers = peer_uris(config).iter().map(|u| !u.contains(' ')).collect();
    let forwards = config.port_forwards.iter().map(|f| addresses(f)).collect();
    build_settings(config, &listeners, &peers, &forwards).map_err(|e| match e {
        ScaffoldingError::EasyTierStart(message) => message,
        other => panic!("unexpected: {other:?}"),
    })
}

#[test]
fn a_center_is_set_up_with_its_fixed_address() {
    let config = NetworkConfig {
        network_name: "net".into(),
        network_secret: "secret".into(),
        hostname: "host".into(),
        no_tun: false,
        dhcp: false,
        ipv4: Some("10.144.144.1".into()),
        tcp_whitelist: vec!["1025".into(), "25565".into()],
        port_forwards: vec!["tcp://127.0.0.1:5000/10.0.0.1:25565".into()],
        bind_ip: Some("192.168.1.2".into()),
        ..Default::default()
    };
    let settings = build(&config).expect("settings");
    assert_eq!(settings.network_name, "net");
    assert_eq!(settings.network_secret, "secret");
    assert_eq!(settings.hostname, "host");
    match settings.address {
        AddressSetting::Fixed(net) => assert_eq!((net.octets, net.prefix), ([10, 144, 144, 1], 24)),
        AddressSetting::Dhcp(_) => panic!("not fixed"),
    }
    assert_eq!(settings.listeners.expect("listeners"), ["tcp://192.168.1.2:0", "udp://192.168.1.2:0"]);
    assert!(!settings.no_tun && !settings.use_smoltcp);
    assert!(settings.multi_thread && settings.latency_first);
    assert!(settings.enable_kcp_proxy && settings.compress_zstd);
    assert_eq!(settings.tcp_whitelist, ["0", "1025", "25565"]);
    assert_eq!(settings.udp_whitelist, ["0"]);
    assert_eq!(settings.peers, DEFAULT_NODES);
    assert_eq!(settings.port_forwards.len(), 1);
    assert_eq!(settings.port_forwards[0].proto, "tcp");
    assert!(matches!(settings.port_forwards[0].bind, SocketAddress::V4([127, 0, 0, 1], 5000)));
    assert!(matches!(settings.port_forwards[0].target, SocketAddress::V4([10, 0, 0, 1], 25565)));
}

#[test]
fn a_guest_is_set_up_without_a_fixed_address() {
    let config = NetworkConfig {
        use_smoltcp: true,
        relay_nodes: Some(vec!["tcp://r:1".into()]),
        ..Default::default()
    };
    let settings = build(&config).expect("settings");
    assert!(matches!(settings.address, AddressSetting::Dhcp(true)));
    assert_eq!(settings.listeners.expect("listeners"), ["tcp://0.0.0.0:0", "udp://0.0.0.0:0"]);
    assert_eq!(settings.peers, ["tcp://r:1"]);
    assert!(settings.no_tun && settings.use_smoltcp);

    let config = NetworkConfig { listen_random_ports: false, dhcp: false, ..Default::default() };
    let settings = build(&config).expect("settings");
    assert!(matches!(settings.address, AddressSetting::Dhcp(false)));
    assert!(settings.listeners.is_none());
}

#[test]
fn fixed_addresses_may_have_a_prefix_length() {
    let fixed = |ip: &str| {
        let config = NetworkConfig { ipv4: Some(ip.into()), ..Default::default() };
        build(&config).map(|s| match s.address {
            AddressSetting::Fixed(net) => (net.octets, net.prefix),
            AddressSetting::Dhcp(_) => panic!("not fixed"),
        })
    };
    assert_eq!(fixed("1.2.3.4"), Ok(([1, 2, 3, 4], 24)));
    assert_eq!(fixed("1.2.3.4/16"), Ok(([1, 2, 3, 4], 16)));
    assert_eq!(fixed("1.2.3.4/+08"), Ok(([1, 2, 3, 4], 8)));
    assert_eq!(fixed("1.2.3.4/0"), Ok(([1, 2, 3, 4], 0)));
    for wrong in ["", "1.2.3", "1.2.3.4/33", "1.2.3.4/", "1.2.3.04", "1.2.3.4/24/24", "/24", "256.1.1.1", " 1.2.3.4"] {
        assert_eq!(fixed(wrong), Err(format!("无效的 ipv4 地址: {wrong}")), "{wrong}");
    }
}

#[test]
fn the_first_error_of_a_configuration_is_reported() {
    let mut config = NetworkConfig {
        ipv4: Some("x".into()),
        bind_ip: Some("a b".into()),
        relay_nodes: Some(vec!["tcp://ok:1".into(), "tcp://b d:1".into(), "c d".into()]),
        port_forwards: vec!["tcp://127.0.0.1:1/1.1.1.1:1".into(), "nonsense".into()],
        ..Default::default()
    };
    assert_eq!(build(&config).err().as_deref(), Some("无效的 ipv4 地址: x"));
    config.ipv4 = None;
    assert_eq!(build(&config).err().as_deref(), Some("无效的监听地址: tcp://a b:0"));
    config.bind_ip = None;
    assert_eq!(build(&config).err().as_deref(), Some("无效的中继节点地址: tcp://b d:1"));
    config.relay_nodes = Some(vec![]);
    assert_eq!(build(&config).err().as_deref(), Some("无效的端口转发格式: nonsense"));
    config.port_forwards.pop();
    assert!(build(&config).is_ok());
}

#[test]
fn port_forwards_are_read_in_their_parts() {
    let forward = forward_to(5000, "10.144.144.1", 25565);
    assert_eq!(forward, "tcp://127.0.0.1:5000/10.144.144.1:25565");
    assert_eq!(
        split_forward(&forward),
        Some(("tcp".into(), "127.0.0.1:5000".into(), "10.144.144.1:25565".into()))
    );
    assert_eq!(split_forward("a://b/c/d://e"), Some(("a".into(), "b".into(), "c/d://e".into())));
    assert_eq!(split_forward(":///"), Some(("".into(), "".into(), "".into())));
    assert_eq!(split_forward("://"), None);
    assert_eq!(split_forward("tcp:/a/b"), None);
    let message = |raw: &str| {
        let (bind, target) = addresses(raw);
        match parse_port_forward(raw, bind, target) {
            Err(error) => error.message().to_string(),
            Ok(_) => panic!("accepted"),
        }
    };
    assert_eq!(message("tcp"), "无效的端口转发格式: tcp");
    assert_eq!(message("tcp://a"), "无效的端口转发格式: tcp://a");
    assert_eq!(message("tcp://a/b"), "无效的端口转发绑定地址: a");
    assert_eq!(message("tcp://1.1.1.1:1/b"), "无效的端口转发目标地址: b");
}

fn patch(raw: &str) -> Result<JsonValue, String> {
    let (bind, target) = addresses(raw);
    port_forward_patch(raw, bind, target).map_err(|e| e.message().to_string())
}

fn shown(value: &JsonValue) -> String {
    match value {
        JsonValue::Null => "null".into(),
        JsonValue::Bool(b) => b.to_string(),
        JsonValue::Signed(n) => n.to_string(),
        JsonValue::Unsigned(n) => n.to_string(),
        JsonValue::Real(s) => s.clone(),
        JsonValue::Text(s) => format!("{s:?}"),
        JsonValue::Array(items) => {
            format!("[{}]", items.iter().map(shown).collect::<Vec<_>>().join(","))
        }
        JsonValue::Object(members) => {
            let shown_members: Vec<String> =
                members.iter().map(|(k, v)| format!("{k:?}:{}", shown(v))).collect();
            format!("{{{}}}", shown_members.join(","))
        }
    }
}

#[test]
fn a_port_forward_is_added_by_a_patch() {
    let value = patch("udp://127.0.0.1:5000/10.144.144.1:25565").expect("patch");
    assert_eq!(
        shown(&value),
        r#"{"patch":{"port_forwards":[{"action":"ADD","cfg":{"bind_addr":{"ipv4":{"addr":2130706433},"port":5000},"dst_addr":{"ipv4":{"addr":177246209},"port":25565},"socket_type":"UDP"}}]}}"#
    );
    assert!(shown(&patch("tcp://1.1.1.1:1/2.2.2.2:2").expect("patch")).contains("\"TCP\""));
    assert!(shown(&patch("x://1.1.1.1:1/2.2.2.2:2").expect("patch")).contains("\"TCP\""));
    let raw = "tcp://[::1]:1/2.2.2.2:2";
    assert_eq!(patch(raw).err(), Some(format!("端口转发仅支持 IPv4 地址: {raw}")));
    assert_eq!(patch("tcp://x/2.2.2.2:2").err().as_deref(), Some("无效的端口转发绑定地址: x"));
}

#[test]
fn addresses_are_packed_first_octet_first() {
    assert_eq!(ipv4_to_u32("127.0.0.1"), 0x7F00_0001);
    assert_eq!(ipv4_to_u32("255.255.255.255"), u32::MAX);
    assert_eq!(ipv4_to_u32("1.x.2"), 0x0102);
    assert_eq!(ipv4_to_u32("1.2.3.4.5"), 0x0203_0405);
    assert_eq!(ipv4_to_u32("+1.4294967295"), u32::MAX);
    assert_eq!(ipv4_to_u32("4294967296"), 0);
    assert_eq!(ipv4_to_u32(""), 0);
    for (number, text) in [
        (0u32, "0.0.0.0"),
        (1, "0.0.0.1"),
        (0x0A90_9001, "10.144.144.1"),
        (0xFFFE_FDFC, "255.254.253.252"),
    ] {
        let node = node_from_route(Some(number), "h".into(), 9);
        assert_eq!(ipv4_to_u32(&node.virtual_ip), number);
        assert_eq!(node.virtual_ip, text);
    }
}

#[test]
fn nodes_are_made_from_routes() {
    let node = node_from_route(Some(0x0A90_9001), "host".into(), 4294967295);
    assert_eq!(
        (node.virtual_ip.as_str(), node.hostname.as_str(), node.node_id.as_str()),
        ("10.144.144.1", "host", "4294967295")
    );
    assert_eq!(node_from_route(None, "host".into(), 0).virtual_ip, "");
    assert_eq!(strip_cidr("10.0.0.1/24"), "10.0.0.1");
    assert_eq!(strip_cidr("10.0.0.1"), "10.0.0.1");
    assert_eq!(strip_cidr("a/b/c"), "a");
}

fn failed(action: ManagerAction) -> String {
    match action {
        ManagerAction::Fail(error) => error.message().to_string(),
        _ => panic!("not failed"),
    }
}

#[test]
fn an_instance_is_polled_until_it_comes_up() {
    let mut manager = EasyTierManager::new();
    assert_eq!(failed(manager.step(ManagerEvent::Start(true, None))), "EasyTier 已在运行中");
    assert!(matches!(manager.step(ManagerEvent::Start(false, None)), ManagerAction::Launch));
    assert!(matches!(manager.step(ManagerEvent::Running(7, 1_000)), ManagerAction::Poll));
    assert_eq!(manager.instance_id(), Some(7));
    assert!(matches!(manager.step(ManagerEvent::Polled(false, 30_999)), ManagerAction::Wait));
    assert!(matches!(manager.step(ManagerEvent::Polled(true, 31_000)), ManagerAction::Settle));
    let settled = ManagerEvent::Settled(Some((42, Some("10.1.1.1".into()))));
    assert!(matches!(manager.step(settled), ManagerAction::Started));
    assert_eq!(manager.node_id().as_deref(), Some("42"));
    assert_eq!(manager.virtual_ip().as_deref(), Some("10.1.1.1"));
    assert_eq!(manager.stop(), Some(7));
    assert_eq!((manager.stop(), manager.node_id(), manager.virtual_ip()), (None, None, None));
}

#[test]
fn the_fixed_address_of_an_instance_is_its_address() {
    let mut manager = EasyTierManager::new();
    manager.step(ManagerEvent::Start(false, Some("10.144.144.1/16".into())));
    manager.step(ManagerEvent::Running(1, 0));
    manager.step(ManagerEvent::Polled(true, 0));
    manager.step(ManagerEvent::Settled(Some((1, Some("10.9.9.9".into())))));
    assert_eq!(manager.virtual_ip().as_deref(), Some("10.144.144.1"));
    // Starting again forgets what was known.
    manager.step(ManagerEvent::Start(false, None));
    assert_eq!((manager.virtual_ip(), manager.node_id()), (None, None));
    assert_eq!(manager.instance_id(), Some(1));
    manager.step(ManagerEvent::Running(2, 0));
    manager.step(ManagerEvent::Polled(true, 0));
    assert!(matches!(manager.step(ManagerEvent::Settled(None)), ManagerAction::Started));
    assert_eq!((manager.virtual_ip(), manager.node_id()), (None, None));
}

#[test]
fn an_instance_that_does_not_start_is_reported() {
    let mut manager = EasyTierManager::new();
    manager.step(ManagerEvent::Start(false, None));
    let error = ScaffoldingError::EasyTierStart("config".into());
    assert_eq!(failed(manager.step(ManagerEvent::SetUpFailed(error))), "config");
    manager.step(ManagerEvent::Start(false, None));
    assert_eq!(failed(manager.step(ManagerEvent::RunFailed("x".into()))), "启动 EasyTier 实例失败: x");
    assert_eq!(manager.instance_id(), None);
    manager.step(ManagerEvent::Start(false, None));
    manager.step(ManagerEvent::Running(7, 0));
    match manager.step(ManagerEvent::Polled(false, 30_000)) {
        ManagerAction::Fail(ScaffoldingError::EasyTierTimeout(message)) => {
            assert_eq!(message, "EasyTier 启动超时 (30s)");
        }
        _ => panic!("not timed out"),
    }
    // The instance keeps running.
    assert_eq!(manager.instance_id(), Some(7));
    assert!(matches!(manager.step(ManagerEvent::Polled(true, 0)), ManagerAction::Ignore));
}

#[test]
fn peers_are_disconnected_by_their_number() {
    assert!(matches!(peer_to_disconnect(false, "x"), Ok(None)));
    assert!(matches!(peer_to_disconnect(true, "123"), Ok(Some(123))));
    let reason = "x1".parse::<u32>().unwrap_err().to_string();
    match peer_to_disconnect(true, "x1") {
        Err(error) => assert_eq!(error.message(), format!("无效的 peer id: x1: {reason}")),
        Ok(_) => panic!("accepted"),
    }
    assert_eq!(disconnect_failed("y").message(), "断开 peer 失败: y");
    assert_eq!(forward_failed("f", "y").message(), "动态添加端口转发失败: f: y");
}

//! The guest's side of a room.
use qomicex_connector::error::ScaffoldingError;
use qomicex_connector::guest::requests::{
    center_keys, custom_answer, custom_request, ping_request, player_list_request, players_from,
    server_port_from, server_port_request,
};
use qomicex_connector::guest::scaffolding_guest::{
    AttemptAction, AttemptEvent, HeartbeatStep, JoinAction, JoinEvent, MapAction, MapEvent,
    ScaffoldingGuest,
};
use qomicex_connector::guest::tcp_client::{Exchange, TcpClient};
use qomicex_connector::models::network_config::NetworkConfig;
use qomicex_connector::models::player::{PlayerInfo, PlayerKind};
use qomicex_connector::models::protocol::{ProtocolRequest, ProtocolResponse};
use qomicex_connector::models::room_code::RoomCode;
use qomicex_connector::protocols::parse_player_info;
use qomicex_connector::session::center_discovery::CenterDiscoveryResult;
use qomicex_connector::session::protocol_serializer::{parse_request, serialize_request};

fn guest(machine_id: &str) -> ScaffoldingGuest {
    ScaffoldingGuest::new(
        "Alex".into(),
        machine_id.into(),
        "qml".into(),
        vec!["qml:info".into()],
        Some(vec!["tcp://r:1".into()]),
    )
}

fn code() -> RoomCode {
    RoomCode::parse("U/G4J1-JZUE-TVUE-XBUB").expect("code")
}

fn center() -> CenterDiscoveryResult {
    CenterDiscoveryResult { virtual_ip: "10.144.144.1".into(), port: 1025 }
}

fn answer(status: u8, body: &[u8]) -> ProtocolResponse {
    ProtocolResponse { status, body: body.to_vec() }
}

fn start(guest: &mut ScaffoldingGuest) -> NetworkConfig {
    match guest.step_join(JoinEvent::Begin(code(), false, Some("192.168.1.2".into()))) {
        JoinAction::StartNetwork(config) => config,
        _ => panic!("not starting"),
    }
}

fn failure(action: JoinAction) -> String {
    match action {
        JoinAction::Fail(error) => error.message().to_string(),
        _ => panic!("not failed"),
    }
}

fn found(guest: &mut ScaffoldingGuest) {
    start(guest);
    assert!(matches!(guest.step_join(JoinEvent::NetworkUp), JoinAction::Discover));
    match guest.step_join(JoinEvent::CenterFound(center())) {
        JoinAction::Try(host, port) => assert_eq!((host.as_str(), port), ("10.144.144.1", 1025)),
        _ => panic!("not tried"),
    }
}

fn forwarded(guest: &mut ScaffoldingGuest) -> JoinAction {
    found(guest);
    assert!(matches!(guest.step_join(JoinEvent::Tried(false)), JoinAction::FindPort));
    match guest.step_join(JoinEvent::LocalPort(5000)) {
        JoinAction::AddForward(forward) => {
            assert_eq!(forward, "tcp://127.0.0.1:5000/10.144.144.1:1025");
        }
        _ => panic!("not forwarded"),
    }
    guest.step_join(JoinEvent::ForwardAdded(false))
}

#[test]
fn a_guest_joins_the_network_of_the_room() {
    let mut guest = guest("machine-0123");
    assert_eq!(
        start(&mut guest),
        NetworkConfig {
            network_name: "scaffolding-mc-G4J1-JZUE".into(),
            network_secret: "TVUE-XBUB".into(),
            hostname: "scaffolding-mc-guest-machine-".into(),
            no_tun: true,
            use_smoltcp: true,
            dhcp: true,
            ipv4: None,
            listen_random_ports: true,
            tcp_whitelist: vec![],
            port_forwards: vec![],
            relay_nodes: Some(vec!["tcp://r:1".into()]),
            bind_ip: Some("192.168.1.2".into()),
        }
    );
    let mut short = self::guest("机器");
    assert_eq!(start(&mut short).hostname, "scaffolding-mc-guest-机器");
    let action = short.step_join(JoinEvent::Begin(code(), true, None));
    match action {
        JoinAction::StartNetwork(config) => {
            assert!(!config.no_tun && !config.use_smoltcp && config.bind_ip.is_none());
        }
        _ => panic!("not starting"),
    }
}

#[test]
fn a_center_that_is_reached_directly_needs_no_forward() {
    let mut guest = guest("m");
    found(&mut guest);
    assert!(matches!(guest.step_join(JoinEvent::Tried(true)), JoinAction::Joined));
    assert!(matches!(guest.step_join(JoinEvent::Tried(true)), JoinAction::Ignore));
}

#[test]
fn a_center_behind_a_forward_is_tried_ten_times() {
    let mut guest = guest("m");
    let mut action = forwarded(&mut guest);
    let mut tries = 0;
    loop {
        action = match action {
            JoinAction::Try(host, port) => {
                assert_eq!((host.as_str(), port), ("127.0.0.1", 5000));
                tries += 1;
                guest.step_join(JoinEvent::Tried(false))
            }
            JoinAction::Pause => guest.step_join(JoinEvent::Paused(false)),
            other => {
                assert_eq!(failure(other), "无法连接到联机中心（端口转发建立失败）");
                break;
            }
        };
    }
    assert_eq!(tries, 10);
}

#[test]
fn a_later_attempt_may_succeed_or_be_cancelled() {
    let mut guest = guest("m");
    assert!(matches!(forwarded(&mut guest), JoinAction::Try(_, 5000)));
    assert!(matches!(guest.step_join(JoinEvent::Tried(false)), JoinAction::Pause));
    assert!(matches!(guest.step_join(JoinEvent::Paused(false)), JoinAction::Try(_, 5000)));
    assert!(matches!(guest.step_join(JoinEvent::Tried(true)), JoinAction::Joined));

    let mut guest = self::guest("m");
    forwarded(&mut guest);
    guest.step_join(JoinEvent::Tried(false));
    let message = failure(guest.step_join(JoinEvent::Paused(true)));
    assert_eq!(message, "无法连接到联机中心（端口转发建立失败）");

    let mut guest = self::guest("m");
    found(&mut guest);
    guest.step_join(JoinEvent::Tried(false));
    guest.step_join(JoinEvent::LocalPort(1));
    let message = failure(guest.step_join(JoinEvent::ForwardAdded(true)));
    assert_eq!(message, "无法连接到联机中心（端口转发建立失败）");
}

#[test]
fn what_goes_wrong_while_joining_is_reported_as_it_is() {
    let error = || ScaffoldingError::CenterNotFound("x".into());
    let mut guest = guest("m");
    start(&mut guest);
    assert_eq!(failure(guest.step_join(JoinEvent::Failed(error()))), "x");
    start(&mut guest);
    guest.step_join(JoinEvent::NetworkUp);
    assert_eq!(failure(guest.step_join(JoinEvent::Failed(error()))), "x");
    found(&mut guest);
    assert!(matches!(guest.step_join(JoinEvent::Failed(error())), JoinAction::Ignore));
    guest.step_join(JoinEvent::Tried(false));
    guest.step_join(JoinEvent::LocalPort(1));
    assert_eq!(failure(guest.step_join(JoinEvent::Failed(error()))), "x");
}

fn introduction(action: AttemptAction) -> ProtocolRequest {
    match action {
        AttemptAction::Introduce(request) => request,
        _ => panic!("not introduced"),
    }
}

#[test]
fn an_attempt_introduces_the_guest_and_negotiates() {
    let mut guest = guest("m1");
    let action = guest.step_attempt(AttemptEvent::Connected(true), Some("77".into()));
    let request = introduction(action);
    assert_eq!((request.namespace.as_str(), request.request_type.as_str()), ("c", "player_ping"));
    // Nothing is negotiated yet: the node is not told.
    assert_eq!(
        String::from_utf8(request.body.clone()).expect("text"),
        r#"{"name":"Alex","machine_id":"m1","easytier_id":null,"vendor":"qml","kind":null}"#
    );
    let info = parse_player_info(&request.body).expect("json");
    assert_eq!((info.name.as_str(), info.machine_id.as_str(), info.vendor.as_str()), ("Alex", "m1", "qml"));
    assert_eq!(info.easytier_id, None);

    let request = match guest.step_attempt(AttemptEvent::Introduced(Some(answer(255, b""))), None) {
        AttemptAction::Negotiate(request) => request,
        _ => panic!("not negotiated"),
    };
    assert_eq!(request.request_type, "protocols");
    assert_eq!(
        String::from_utf8(request.body).expect("text"),
        "c:ping\0c:protocols\0c:server_port\0c:player_ping\0c:player_profiles_list\0c:player_easytier_id\0qml:info"
    );
    let keys = b"qml:info\0c:player_easytier_id\0other:x";
    let action = guest.step_attempt(AttemptEvent::Negotiated(Some(answer(0, keys))), None);
    assert!(matches!(action, AttemptAction::Succeed));
    assert_eq!(guest.negotiated_protocols(), ["c:player_easytier_id", "qml:info"]);

    // An answer without success changes nothing.
    let action = guest.step_attempt(AttemptEvent::Negotiated(Some(answer(255, b"x"))), None);
    assert!(matches!(action, AttemptAction::Succeed));
    assert_eq!(guest.negotiated_protocols(), ["c:player_easytier_id", "qml:info"]);

    let request = introduction(guest.step_attempt(AttemptEvent::Connected(true), Some("77".into())));
    assert_eq!(parse_player_info(&request.body).expect("json").easytier_id.as_deref(), Some("77"));
    let request = introduction(guest.step_attempt(AttemptEvent::Connected(true), None));
    assert_eq!(parse_player_info(&request.body).expect("json").easytier_id.as_deref(), Some(""));
}

#[test]
fn an_attempt_is_given_up_without_an_answer() {
    let mut guest = guest("m1");
    for event in [
        AttemptEvent::Connected(false),
        AttemptEvent::Introduced(None),
        AttemptEvent::Negotiated(None),
    ] {
        assert!(matches!(guest.step_attempt(event, None), AttemptAction::GiveUp));
    }
}

#[test]
fn heartbeats_tell_the_same_as_the_introduction() {
    let guest = guest("m1");
    assert!(matches!(guest.heartbeat(false, None), HeartbeatStep::ReportLost));
    match guest.heartbeat(true, Some("77".into())) {
        HeartbeatStep::Send(request) => {
            assert_eq!(request.request_type, "player_ping");
            assert_eq!(
                String::from_utf8(request.body.clone()).expect("text"),
                r#"{"easytier_id":null,"kind":null,"machine_id":"m1","name":"Alex","vendor":"qml"}"#
            );
            assert_eq!(parse_player_info(&request.body).expect("json").machine_id, "m1");
        }
        HeartbeatStep::ReportLost => panic!("not sent"),
    }
}

#[test]
fn the_node_is_told_where_the_center_knows_what_to_do_with_it() {
    let told = |keys: &[u8]| {
        let mut guest = guest("m1");
        guest.step_attempt(AttemptEvent::Negotiated(Some(answer(0, keys))), None);
        match guest.heartbeat(true, Some("77".into())) {
            HeartbeatStep::Send(request) => parse_player_info(&request.body).expect("json").easytier_id,
            HeartbeatStep::ReportLost => panic!("not sent"),
        }
    };
    assert_eq!(told(b"c:ping\0c:player_easytier_id").as_deref(), Some("77"));
    assert_eq!(told(b"c:ping\0c:player_ping"), None);
}

fn mapped(action: MapAction) -> (String, u16) {
    match action {
        MapAction::Mapped(host, port) => (host, port),
        _ => panic!("not mapped"),
    }
}

fn map_failure(action: MapAction) -> String {
    match action {
        MapAction::Fail(error) => error.message().to_string(),
        _ => panic!("not failed"),
    }
}

#[test]
fn the_game_server_is_reached_like_the_center() {
    let mut guest = guest("m");
    assert_eq!(map_failure(guest.step_map(MapEvent::Begin)), "尚未加入房间");
    found(&mut guest);
    guest.step_join(JoinEvent::Tried(true));
    assert_eq!((guest.minecraft_host(), guest.minecraft_port()), (None, None));
    match guest.step_map(MapEvent::Begin) {
        MapAction::Ask(request) => {
            assert_eq!((request.request_type.as_str(), request.body.len()), ("server_port", 0));
        }
        _ => panic!("not asked"),
    }
    let first = mapped(guest.step_map(MapEvent::Answered(Ok(answer(0, &[0x63, 0xDD])))));
    assert_eq!(first, ("10.144.144.1".to_string(), 25565));
    assert_eq!(mapped(guest.step_map(MapEvent::Begin)), first);
    assert_eq!(guest.minecraft_host().as_deref(), Some("10.144.144.1"));
    assert_eq!(guest.minecraft_port(), Some(25565));
}

#[test]
fn the_game_server_behind_a_forward_is_forwarded_too() {
    let mut guest = guest("m");
    forwarded(&mut guest);
    guest.step_join(JoinEvent::Tried(true));
    guest.step_map(MapEvent::Begin);
    let action = guest.step_map(MapEvent::Answered(Ok(answer(0, &[0x63, 0xDD]))));
    assert!(matches!(action, MapAction::FindPort));
    match guest.step_map(MapEvent::LocalPort(6000)) {
        MapAction::AddForward(forward) => {
            assert_eq!(forward, "tcp://127.0.0.1:6000/10.144.144.1:25565");
        }
        _ => panic!("not forwarded"),
    }
    let error = ScaffoldingError::EasyTierStart("no".into());
    assert_eq!(map_failure(guest.step_map(MapEvent::ForwardFailed(error))), "no");
    assert!(matches!(guest.step_map(MapEvent::ForwardAdded), MapAction::Ignore));
    guest.step_map(MapEvent::Begin);
    guest.step_map(MapEvent::Answered(Ok(answer(0, &[0x63, 0xDD]))));
    guest.step_map(MapEvent::LocalPort(6001));
    let first = mapped(guest.step_map(MapEvent::ForwardAdded));
    assert_eq!(first, ("127.0.0.1".to_string(), 6001));
    assert_eq!(mapped(guest.step_map(MapEvent::Begin)), first);
}

#[test]
fn a_game_server_that_does_not_run_is_reported() {
    let port = |status: u8, body: &[u8]| {
        server_port_from(&answer(status, body)).map_err(|e| e.message().to_string())
    };
    assert_eq!(port(0, &[0x63, 0xDD]), Ok(25565));
    assert_eq!(port(0, &[0, 0]), Ok(0));
    assert_eq!(port(0, &[255, 255]), Ok(65535));
    assert_eq!(port(32, &[0, 1]), Err("MC 服务器未启动 (状态码: 32)".into()));
    assert_eq!(port(63, &[]), Err("MC 服务器未启动 (状态码: 63)".into()));
    assert_eq!(port(31, &[0, 1]), Err("获取服务器端口失败 (状态码: 31)".into()));
    assert_eq!(port(64, &[0, 1]), Err("获取服务器端口失败 (状态码: 64)".into()));
    assert_eq!(port(255, &[]), Err("获取服务器端口失败 (状态码: 255)".into()));
    assert_eq!(port(0, &[1]), Err("服务器端口响应长度非法: 1 字节".into()));
    assert_eq!(port(0, &[1, 2, 3]), Err("服务器端口响应长度非法: 3 字节".into()));

    let mut guest = guest("m");
    found(&mut guest);
    guest.step_join(JoinEvent::Tried(true));
    guest.step_map(MapEvent::Begin);
    let message = map_failure(guest.step_map(MapEvent::Answered(Ok(answer(32, &[])))));
    assert_eq!(message, "MC 服务器未启动 (状态码: 32)");
    guest.step_map(MapEvent::Begin);
    let error = ScaffoldingError::CenterConnection("gone".into());
    assert_eq!(map_failure(guest.step_map(MapEvent::Answered(Err(error)))), "gone");
}

#[test]
fn players_are_read_from_the_list() {
    let body = r#"[
        {"name":"A","machine_id":"a","easytier_id":"1","vendor":"v","kind":"HOST"},
        {"name":"B","machine_id":"b","easytier_id":null,"vendor":"w","kind":"GUEST"},
        7,
        {"name":5,"machine_id":"c","kind":"host"},
        []
    ]"#;
    let players = players_from(&answer(3, body.as_bytes())).expect("list");
    let player = |name: &str, machine: &str, id: Option<&str>, vendor: &str, kind: PlayerKind| PlayerInfo {
        name: name.into(),
        machine_id: machine.into(),
        easytier_id: id.map(String::from),
        vendor: vendor.into(),
        kind,
    };
    assert_eq!(
        players,
        vec![
            player("A", "a", Some("1"), "v", PlayerKind::Host),
            player("B", "b", None, "w", PlayerKind::Guest),
            player("", "c", None, "", PlayerKind::Guest),
        ]
    );
    assert!(players_from(&answer(0, b"{}")).expect("list").is_empty());
    let reason = serde_json::from_slice::<serde_json::Value>(b"x").unwrap_err().to_string();
    match players_from(&answer(0, b"x")) {
        Err(ScaffoldingError::Protocol(message)) => assert_eq!(message, reason),
        other => panic!("unexpected: {other:?}"),
    }
}

#[test]
fn requests_are_those_of_the_protocols() {
    let ping = ping_request();
    assert_eq!((ping.request_type.as_str(), ping.body), ("ping", vec![0x42]));
    assert_eq!(server_port_request().request_type, "server_port");
    assert_eq!(player_list_request().request_type, "player_profiles_list");
    assert_eq!(center_keys(b"a:b\0\xFF\0"), ["a:b", "\u{FFFD}", ""]);
    assert_eq!(center_keys(b""), [""]);
    assert_eq!(center_keys(b"\xE4\xBD\0\xFF\xC3\0x").len(), 3);
}

#[test]
fn custom_protocols_are_named_by_their_key() {
    let request = custom_request("qml:game:x", vec![1]).expect("request");
    assert_eq!((request.namespace.as_str(), request.request_type.as_str()), ("qml", "game:x"));
    assert_eq!(request.body, vec![1]);
    assert_eq!(parse_request(&serialize_request(&request)).expect("frame"), request);
    match custom_request("qml", vec![]) {
        Err(error) => assert_eq!(error.message(), "无效的协议键格式: qml"),
        Ok(_) => panic!("accepted"),
    }
    assert_eq!(custom_answer("a:b", answer(0, b"x")).expect("body"), b"x");
    match custom_answer("a:b", answer(7, b"x")) {
        Err(error) => assert_eq!(error.message(), "协议 a:b 返回错误状态: 7"),
        Ok(_) => panic!("accepted"),
    }
}

#[test]
fn requests_are_sent_over_a_connection_only() {
    let mut client = TcpClient::new();
    let request = ping_request();
    match client.frame(&request) {
        Err(error) => assert_eq!(error.message(), "未连接到联机中心"),
        Ok(_) => panic!("sent"),
    }
    match client.send(&request, Exchange::Read(Ok(answer(0, b"z")))) {
        Err(error) => assert_eq!(error.message(), "未连接到联机中心"),
        Ok(_) => panic!("answered"),
    }
    match client.connect("10.0.0.1", 1025, Err("refused".into())) {
        Err(error) => assert_eq!(error.message(), "无法连接到联机中心 10.0.0.1:1025: refused"),
        Ok(()) => panic!("connected"),
    }
    assert!(!client.is_connected());
    client.connect("10.0.0.1", 1025, Ok(())).expect("connected");
    assert!(client.is_connected());
    assert_eq!(client.frame(&request).expect("frame"), serialize_request(&request));

    let failed = |exchange: Exchange| match client.send(&request, exchange) {
        Err(error) => error.message().to_string(),
        Ok(_) => panic!("answered"),
    };
    assert_eq!(failed(Exchange::WriteFailed("pipe".into())), "TCP 发送失败: c:ping: pipe");
    assert_eq!(failed(Exchange::FlushFailed("pipe".into())), "TCP 发送失败: c:ping: pipe");
    assert_eq!(failed(Exchange::TimedOut), "读取响应超时: c:ping");
    let broken = ScaffoldingError::Protocol("cut".into());
    assert_eq!(failed(Exchange::Read(Err(broken))), "cut");
    let response = client.send(&request, Exchange::Read(Ok(answer(9, b"z")))).expect("response");
    assert_eq!((response.status, response.body), (9, b"z".to_vec()));
    client.disconnect();
    assert!(!client.is_connected());
    let message = client.send(&request, Exchange::TimedOut).unwrap_err().message().to_string();
    assert_eq!(message, "未连接到联机中心");
}

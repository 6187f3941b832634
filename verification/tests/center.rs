//! The host's side of a room.
use qomicex_connector::center::client_conn::{
    unknown_response, ClientAction, ClientEvent, ClientRegistry, ClientSession,
};
use qomicex_connector::center::scaffolding_center::{
    advertised_keys, served_handlers, standard_key_list, ScaffoldingCenter, StandardHandlers,
    StartAction, StartEvent, NODE_ID_KEY,
};
use qomicex_connector::center::table::Table;
use qomicex_connector::center::tcp_server::{ServerAction, ServerEvent, TcpServer};
use qomicex_connector::error::ScaffoldingError;
use qomicex_connector::json::JsonValue;
use qomicex_connector::models::network_config::NetworkConfig;
use qomicex_connector::models::player::{PlayerInfo, PlayerKind};
use qomicex_connector::models::protocol::{ProtocolRequest, ProtocolResponse};
use qomicex_connector::models::room_code::RoomCode;
use qomicex_connector::protocols::parse_player_info;
use qomicex_connector::session::protocol_serializer::{parse_response, serialize_response};

const SECOND: u64 = 1_000_000_000;

fn guest_info(machine_id: &str) -> PlayerInfo {
    PlayerInfo {
        name: "Guest".into(),
        machine_id: machine_id.into(),
        vendor: "third-party".into(),
        easytier_id: None,
        kind: PlayerKind::Guest,
    }
}

fn center_with(keys: &[&str]) -> ScaffoldingCenter {
    ScaffoldingCenter::new(
        RoomCode::parse("U/G4J1-JZUE-TVUE-XBUB").expect("code"),
        "Host".into(),
        "h1".into(),
        "qml".into(),
        25565,
        None,
        keys.iter().map(|k| k.to_string()).collect(),
    )
}

fn new_center() -> ScaffoldingCenter {
    ScaffoldingCenter::new(
        RoomCode::generate(),
        "Host".into(),
        "h1".into(),
        "qml".into(),
        25565,
        None,
        vec![],
    )
}

fn request(request_type: &str, body: &str) -> ProtocolRequest {
    ProtocolRequest {
        namespace: "c".into(),
        request_type: request_type.into(),
        body: body.as_bytes().to_vec(),
    }
}

fn answer(status: u8) -> ProtocolResponse {
    ProtocolResponse { status, body: vec![] }
}

#[test]
fn handle_player_ping_adds_guest_and_updates() {
    let mut center = new_center();
    center.handle_player_ping(guest_info("g1"));
    let players = center.get_players();
    assert_eq!(players.len(), 1);
    assert_eq!(players[0].machine_id, "g1");
    assert_eq!(players[0].kind, PlayerKind::Guest);

    center.handle_player_ping(PlayerInfo {
        name: "Renamed".into(),
        machine_id: "g1".into(),
        vendor: "qml".into(),
        easytier_id: Some("peer-1".into()),
        kind: PlayerKind::Guest,
    });
    let players = center.get_players();
    assert_eq!(players.len(), 1);
    assert_eq!(players[0].name, "Renamed");
    assert_eq!(players[0].easytier_id.as_deref(), Some("peer-1"));

    center.handle_player_ping(PlayerInfo {
        name: "Renamed".into(),
        machine_id: "g1".into(),
        vendor: "qml".into(),
        easytier_id: None,
        kind: PlayerKind::Guest,
    });
    let players = center.get_players();
    assert_eq!(players[0].easytier_id.as_deref(), Some("peer-1"), "null ping 不应清掉已有 id");
}

#[test]
fn machine_source_ip_resolves_from_registry() {
    let mut registry: ClientRegistry<u32> = ClientRegistry::new();
    registry.register("10.144.144.5:54321", 1, "10.144.144.5");
    let heartbeat = Ok(JsonValue::Object(vec![(
        "machine_id".into(),
        JsonValue::Text("g1".into()),
    )]));
    registry.note_heartbeat("10.144.144.5:54321", 0, &heartbeat);

    assert_eq!(registry.machine_source_ip("g1").as_deref(), Some("10.144.144.5"));
    assert_eq!(registry.machine_source_ip("unknown"), None);
}

#[test]
fn the_verdict_of_the_application_decides_on_players() {
    let mut center = new_center();
    assert!(!center.welcome(guest_info("k1"), Some(false)));
    assert!(center.welcome(guest_info("k2"), Some(true)));
    assert!(center.get_players().is_empty());
    assert!(center.welcome(guest_info("k3"), None));
    assert_eq!(center.get_players().len(), 1);
}

fn run_start(center: &mut ScaffoldingCenter, taken: u16) -> (u32, StartAction) {
    let mut action = center.step(StartEvent::Begin);
    let mut tried = 0;
    while let StartAction::TryPort(port) = action {
        tried += 1;
        assert_eq!(port as u32, 1024 + tried);
        action = center.step(StartEvent::PortTried(port > taken));
    }
    (tried, action)
}

fn join_config(center: &mut ScaffoldingCenter, elevated: bool, bind: Option<&str>) -> NetworkConfig {
    match center.step(StartEvent::Served(elevated, bind.map(String::from))) {
        StartAction::Join(config) => config,
        _ => panic!("not joining"),
    }
}

#[test]
fn a_center_starts_on_the_first_free_port() {
    let mut center = center_with(&["qml:info"]);
    assert_eq!(center.tcp_port(), 0);
    let (tried, action) = run_start(&mut center, 1030);
    assert_eq!(tried, 7);
    match action {
        StartAction::Serve(port, keys) => {
            assert_eq!(port, 1031);
            assert_eq!(
                keys,
                [
                    "c:ping", "c:protocols", "c:server_port", "c:player_ping",
                    "c:player_profiles_list", "c:player_easytier_id", "qml:info",
                ]
            );
        }
        _ => panic!("not serving"),
    }
    assert_eq!(center.tcp_port(), 1031);
    let config = join_config(&mut center, false, Some("192.168.1.2"));
    assert_eq!(
        config,
        NetworkConfig {
            network_name: "scaffolding-mc-G4J1-JZUE".into(),
            network_secret: "TVUE-XBUB".into(),
            hostname: "scaffolding-mc-server-1031".into(),
            no_tun: true,
            use_smoltcp: false,
            dhcp: false,
            ipv4: Some("10.144.144.1".into()),
            listen_random_ports: true,
            tcp_whitelist: vec!["1031".into(), "25565".into()],
            port_forwards: vec![],
            relay_nodes: None,
            bind_ip: Some("192.168.1.2".into()),
        }
    );
    assert!(matches!(center.step(StartEvent::Joined(Some("77".into()))), StartAction::Started));
    let players = center.get_players();
    assert_eq!(
        players,
        vec![PlayerInfo {
            name: "Host".into(),
            machine_id: "h1".into(),
            easytier_id: Some("77".into()),
            vendor: "qml".into(),
            kind: PlayerKind::Host,
        }]
    );
    assert_eq!(center.room_code().raw(), "U/G4J1-JZUE-TVUE-XBUB");
    assert_eq!(
        (center.player_name(), center.machine_id(), center.vendor(), center.minecraft_port()),
        ("Host", "h1", "qml", 25565)
    );
}

#[test]
fn a_center_without_a_free_port_uses_the_fallback() {
    let mut center = new_center();
    let (tried, action) = run_start(&mut center, u16::MAX);
    assert_eq!(tried, 64510);
    assert!(matches!(action, StartAction::Serve(25000, _)));
    assert!(!join_config(&mut center, true, None).no_tun);
    let failure = ScaffoldingError::EasyTierTimeout("late".into());
    match center.step(StartEvent::JoinFailed(failure)) {
        StartAction::Fail(error) => assert_eq!(error.message(), "late"),
        _ => panic!("not failed"),
    }
    assert!(center.get_players().is_empty());
    assert!(matches!(center.step(StartEvent::Joined(None)), StartAction::Ignore));
}

#[test]
fn keys_that_are_there_already_keep_a_center_from_starting() {
    let list = |keys: &[&str]| {
        advertised_keys(&keys.iter().map(|k| k.to_string()).collect()).map_err(|e| e.message().to_string())
    };
    assert_eq!(list(&[]).expect("keys"), standard_key_list());
    assert_eq!(list(&["a:b", "c:ping"]), Err("自定义协议键冲突: c:ping".into()));
    assert_eq!(list(&["a:b", "x:y", "a:b", "c:ping"]), Err("自定义协议键冲突: a:b".into()));
    assert_eq!(list(&["c:player_easytier_id"]), Err("自定义协议键冲突: c:player_easytier_id".into()));

    let mut center = center_with(&["c:ping"]);
    let (_, action) = run_start(&mut center, 0);
    match action {
        StartAction::Fail(error) => assert_eq!(error.message(), "自定义协议键冲突: c:ping"),
        _ => panic!("started"),
    }
    assert_eq!(center.tcp_port(), 1025);
}

#[test]
fn guests_leave_and_the_host_stays() {
    let mut center = new_center();
    run_start(&mut center, 0);
    join_config(&mut center, false, None);
    center.step(StartEvent::Joined(None));
    center.handle_player_ping(guest_info("g1"));
    center.handle_player_ping(guest_info("g2"));
    center.handle_player_ping(guest_info("g1"));
    let machines = |c: &ScaffoldingCenter| {
        c.get_players().into_iter().map(|p| p.machine_id).collect::<Vec<_>>()
    };
    assert_eq!(machines(&center), ["h1", "g1", "g2"]);
    center.client_disconnected("");
    assert_eq!(machines(&center), ["h1", "g1", "g2"]);
    center.remove_player("h1");
    center.client_disconnected("nobody");
    assert_eq!(machines(&center), ["h1", "g1", "g2"]);
    center.client_disconnected("g1");
    assert_eq!(machines(&center), ["h1", "g2"]);
    center.remove_player("g2");
    assert_eq!(machines(&center), ["h1"]);
    // A heartbeat of the host's machine updates the host and leaves its role.
    center.handle_player_ping(guest_info("h1"));
    assert_eq!(center.get_players()[0].kind, PlayerKind::Host);
    assert_eq!(center.get_players()[0].name, "Guest");
}

#[test]
fn tables_hold_one_value_for_each_text() {
    let mut table: Table<u32> = Table::new();
    assert_eq!(table.get("a"), None);
    table.insert("a", 1);
    table.insert("b", 2);
    table.insert("a", 3);
    assert_eq!(table.get("a"), Some(&3));
    assert!(table.contains("b"));
    let mut keys = table.keys();
    keys.sort();
    assert_eq!(keys, ["a", "b"]);
    assert_eq!(table.remove("a"), Some(3));
    assert_eq!(table.remove("a"), None);
    assert_eq!(table.keys(), ["b"]);
    let mut names: Table<String> = Table::new();
    names.insert("k", "v".into());
    assert_eq!(names.key_of("v").as_deref(), Some("k"));
    assert_eq!(names.key_of("w"), None);
}

#[test]
fn silent_guests_are_taken_out_after_fifteen_seconds() {
    let mut registry: ClientRegistry<&str> = ClientRegistry::new();
    let ping = request("player_ping", r#"{"machine_id":"g1"}"#);
    registry.register("c1", "end 1", "1.1.1.1");
    registry.register("c2", "end 2", "2.2.2.2");
    registry.register("c3", "end 3", "3.3.3.3");
    registry.note_answer("c1", &ping, &answer(0), 10 * SECOND);
    registry.note_answer("c2", &ping, &answer(0), 11 * SECOND);
    assert!(registry.expire(25 * SECOND).is_empty());
    assert_eq!(registry.expire(25 * SECOND + 1), vec!["end 1"]);
    assert!(registry.expire(25 * SECOND + 1).is_empty());
    assert_eq!(registry.expire(26 * SECOND + 1), vec!["end 2"]);
    // A guest that never sent a heartbeat is not timed out.
    assert!(registry.expire(u64::MAX).is_empty());
    assert_eq!(registry.unregister("c1"), "g1");
    assert_eq!(registry.unregister("c3"), "");
}

#[test]
fn refused_heartbeats_do_not_keep_a_guest() {
    let mut registry: ClientRegistry<u32> = ClientRegistry::new();
    let ping = request("player_ping", r#"{"machine_id":"g1"}"#);
    registry.register("c1", 1, "1.1.1.1");
    registry.note_answer("c1", &ping, &answer(255), 0);
    registry.note_answer("c1", &request("ping", r#"{"machine_id":"g1"}"#), &answer(0), 0);
    assert_eq!(registry.machine_source_ip("g1"), None);
    registry.note_answer("c1", &ping, &answer(0), 0);
    registry.note_answer("c1", &ping, &answer(255), 14 * SECOND);
    assert_eq!(registry.expire(16 * SECOND), vec![1]);
}

#[test]
fn a_guest_that_is_refused_from_the_start_is_disconnected() {
    let mut registry: ClientRegistry<u32> = ClientRegistry::new();
    let ping = request("player_ping", r#"{"machine_id":"g1"}"#);
    registry.register("c1", 1, "1.1.1.1");
    registry.register("c2", 2, "2.2.2.2");
    // Requests that are no heartbeats do not count.
    registry.note_answer("c1", &request("protocols", ""), &answer(0), SECOND);
    registry.note_answer("c2", &request("nope", ""), &answer(255), SECOND);
    for time in [2, 7, 12, 17] {
        registry.note_answer("c1", &ping, &answer(255), time * SECOND);
    }
    assert_eq!(registry.machine_source_ip("g1"), None);
    assert!(registry.expire(17 * SECOND).is_empty());
    assert_eq!(registry.expire(17 * SECOND + 1), vec![1]);
    assert!(registry.expire(u64::MAX).is_empty());
    assert_eq!(registry.unregister("c1"), "");
}

#[test]
fn an_accepted_heartbeat_ends_the_silence_of_a_refused_guest() {
    let mut registry: ClientRegistry<u32> = ClientRegistry::new();
    let ping = request("player_ping", r#"{"machine_id":"g1"}"#);
    registry.register("c1", 1, "1.1.1.1");
    registry.note_answer("c1", &ping, &answer(255), 0);
    registry.note_answer("c1", &ping, &answer(0), 10 * SECOND);
    assert!(registry.expire(25 * SECOND).is_empty());
    assert_eq!(registry.expire(25 * SECOND + 1), vec![1]);
}

#[test]
fn machines_are_disconnected_by_their_identifier() {
    let mut registry: ClientRegistry<u32> = ClientRegistry::new();
    registry.register("c1", 1, "1.1.1.1");
    registry.register("c2", 2, "2.2.2.2");
    registry.note_answer("c1", &request("player_ping", r#"{"machine_id":"g1"}"#), &answer(0), 0);
    registry.note_answer("c2", &request("player_ping", r#"{"machine_id":7}"#), &answer(0), 0);
    assert_eq!(registry.disconnect_machine("g1"), Some(1));
    assert_eq!(registry.disconnect_machine("g1"), None);
    assert_eq!(registry.disconnect_machine("7"), None);
    // An identifier that is no text counts as empty.
    assert_eq!(registry.machine_source_ip("").as_deref(), Some("2.2.2.2"));
    assert_eq!(registry.machine_source_ip("g1").as_deref(), Some("1.1.1.1"));
    // A later heartbeat without an identifier keeps the one that is known.
    registry.note_answer("c1", &request("player_ping", "{}"), &answer(0), 0);
    registry.note_answer("c1", &request("player_ping", "no json"), &answer(0), 0);
    assert_eq!(registry.unregister("c1"), "g1");
    assert_eq!(registry.machine_source_ip("g1"), None);
}

#[test]
fn a_guest_leaves_the_list_with_its_connection() {
    let mut center = new_center();
    let mut registry: ClientRegistry<u32> = ClientRegistry::new();
    let mut leave_with = |body: &str| {
        let ping = request("player_ping", body);
        registry.register("c1", 1, "1.1.1.1");
        center.handle_player_ping(parse_player_info(&ping.body).expect("heartbeat"));
        registry.note_answer("c1", &ping, &answer(0), 0);
        center.client_disconnected(&registry.unregister("c1"));
        center.get_players().len()
    };
    assert_eq!(leave_with(r#"{"name":"A","machine_id":"g1"}"#), 0);
    // The registry notes identifiers that are texts only.
    assert_eq!(leave_with(r#"{"name":"B","machine_id":7}"#), 1);
}

fn sent(action: ClientAction) -> Vec<u8> {
    match action {
        ClientAction::Send(bytes) => bytes,
        _ => panic!("nothing sent"),
    }
}

#[test]
fn a_connection_answers_one_request_after_the_other() {
    let mut handlers: Table<()> = Table::new();
    handlers.insert("c:player_ping", ());
    let mut registry: ClientRegistry<u32> = ClientRegistry::new();
    registry.register("c1", 1, "1.1.1.1");
    let mut session = ClientSession::new("c1");
    let ping = request("player_ping", r#"{"machine_id":"g1"}"#);

    assert!(session.request().is_none());
    let action = session.step(ClientEvent::Received(ping), &handlers, &mut registry);
    assert!(matches!(action, ClientAction::Handle));
    assert_eq!(session.request().expect("request").request_type, "player_ping");
    let action = session.step(ClientEvent::Received(request("ping", "")), &handlers, &mut registry);
    assert!(matches!(action, ClientAction::Ignore));
    let bytes = sent(session.step(ClientEvent::Answered(answer(0)), &handlers, &mut registry));
    assert_eq!(bytes, serialize_response(&answer(0)));
    // Not written yet: the guest was not heard of.
    assert_eq!(registry.machine_source_ip("g1"), None);
    let action = session.step(ClientEvent::Written(5), &handlers, &mut registry);
    assert!(matches!(action, ClientAction::Receive));
    assert_eq!(registry.machine_source_ip("g1").as_deref(), Some("1.1.1.1"));

    let bytes = sent(session.step(ClientEvent::Received(request("nope", "")), &handlers, &mut registry));
    let response = parse_response(&bytes).expect("frame");
    assert_eq!(response.status, 255);
    assert_eq!(String::from_utf8(response.body).expect("text"), "未知协议: c:nope");
    assert_eq!(unknown_response("c:nope").status, 255);

    match session.step(ClientEvent::WriteFailed, &handlers, &mut registry) {
        ClientAction::Close(machine) => assert_eq!(machine, "g1"),
        _ => panic!("not closed"),
    }
    assert_eq!(registry.machine_source_ip("g1"), None);
    let action = session.step(ClientEvent::Stopped, &handlers, &mut registry);
    assert!(matches!(action, ClientAction::Ignore));
}

#[test]
fn a_connection_that_never_introduced_itself_closes_without_a_machine() {
    let handlers: Table<()> = Table::new();
    for event in [ClientEvent::Stopped, ClientEvent::ReadFailed] {
        let mut registry: ClientRegistry<u32> = ClientRegistry::new();
        registry.register("c1", 1, "1.1.1.1");
        let mut session = ClientSession::new("c1");
        match session.step(event, &handlers, &mut registry) {
            ClientAction::Close(machine) => assert_eq!(machine, ""),
            _ => panic!("not closed"),
        }
    }
}

fn server() -> TcpServer<u32, u32> {
    TcpServer::new(1025, vec![("a:a".into(), 1), ("b:b".into(), 2), ("a:a".into(), 3)])
}

#[test]
fn of_two_handlers_with_a_key_the_later_one_counts() {
    let server = server();
    assert_eq!(server.handler("a:a"), Some(&3));
    assert_eq!(server.handler("b:b"), Some(&2));
    assert_eq!(server.handler("c:c"), None);
}

#[test]
fn a_center_serves_the_keys_that_it_tells() {
    let standard = StandardHandlers {
        ping: 1,
        protocols: 2,
        server_port: 3,
        player_ping: 4,
        player_profiles_list: 5,
    };
    let handlers = served_handlers(standard, vec![("qml:info".into(), 6)]);
    let server: TcpServer<u32, u32> = TcpServer::new(1025, handlers);
    for key in advertised_keys(&vec!["qml:info".into()]).expect("keys") {
        assert_eq!(server.handler(&key).is_some(), key != NODE_ID_KEY, "{key}");
    }
    assert_eq!(server.handler("c:ping"), Some(&1));
    assert_eq!(server.handler("c:protocols"), Some(&2));
    assert_eq!(server.handler("c:server_port"), Some(&3));
    assert_eq!(server.handler("c:player_ping"), Some(&4));
    assert_eq!(server.handler("c:player_profiles_list"), Some(&5));
    assert_eq!(server.handler("qml:info"), Some(&6));
}

#[test]
fn a_server_binds_listens_and_serves() {
    let mut server = server();
    assert!(!server.is_running());
    assert!(matches!(server.step(ServerEvent::Start), ServerAction::Bind(1025)));
    match server.step(ServerEvent::BindFailed("in use".into())) {
        ServerAction::Fail(error) => assert_eq!(error.message(), "TCP 端口 1025 绑定失败: in use"),
        _ => panic!("not failed"),
    }
    assert!(!server.is_running());
    assert!(matches!(server.step(ServerEvent::Bound(Some(4000))), ServerAction::Listen));
    assert_eq!((server.is_running(), server.port()), (true, 4000));
    match server.step(ServerEvent::Start) {
        ServerAction::Fail(error) => assert_eq!(error.message(), "TCP 服务已启动"),
        _ => panic!("started twice"),
    }
    let mut session = match server.step(ServerEvent::Accepted("c1".into(), "9.9.9.9".into(), 5)) {
        ServerAction::Serve(session) => session,
        _ => panic!("not served"),
    };
    assert!(matches!(server.step(ServerEvent::AcceptFailed), ServerAction::Accept));
    let ping = request("player_ping", r#"{"machine_id":"g1"}"#);
    let bytes = sent(server.step_session(&mut session, ClientEvent::Received(ping)));
    assert_eq!(parse_response(&bytes).expect("frame").status, 255);
    server.step_session(&mut session, ClientEvent::Written(0));
    assert_eq!(server.machine_source_ip("g1"), None);
    assert_eq!(server.disconnect_machine("g1"), None);
    // The refused heartbeat came at 0.
    assert!(server.expire(15 * SECOND).is_empty());
    assert_eq!(server.expire(15 * SECOND + 1), vec![5]);
    // A cancelled server keeps its listener, and cannot be started again until it is stopped.
    assert!(matches!(server.step(ServerEvent::Cancelled), ServerAction::Return));
    assert!(server.is_running());
    match server.step(ServerEvent::Start) {
        ServerAction::Fail(error) => assert_eq!(error.message(), "TCP 服务已启动"),
        _ => panic!("started twice"),
    }
    server.stop();
    assert!(!server.is_running());
    assert!(matches!(server.step(ServerEvent::Start), ServerAction::Bind(4000)));
    assert!(matches!(server.step(ServerEvent::Bound(None)), ServerAction::Listen));
    assert_eq!(server.port(), 4000);
}

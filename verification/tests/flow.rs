//! A center and a guest, from the first frame to the last, without a network between them.
use qomicex_connector::center::client_conn::{ClientAction, ClientEvent, ClientSession};
use qomicex_connector::center::scaffolding_center::{standard_key_list, ScaffoldingCenter};
use qomicex_connector::center::tcp_server::{ServerAction, ServerEvent, TcpServer};
use qomicex_connector::guest::requests::{
    ping_request, player_list_request, players_from, server_port_from, server_port_request,
};
use qomicex_connector::guest::scaffolding_guest::{
    AttemptAction, AttemptEvent, HeartbeatStep, ScaffoldingGuest,
};
use qomicex_connector::models::player::PlayerKind;
use qomicex_connector::models::protocol::{ProtocolRequest, ProtocolResponse};
use qomicex_connector::models::room_code::RoomCode;
use qomicex_connector::protocols::{
    error_response, parse_player_info, ping_response, profiles_response, PingProtocol,
    ProtocolHandler, ProtocolsProtocol, ServerPortProtocol,
};
use qomicex_connector::session::protocol_serializer::{
    parse_request, parse_response, serialize_request,
};

struct Room {
    center: ScaffoldingCenter,
    server: TcpServer<(), &'static str>,
    session: ClientSession,
    now: u64,
}

fn answer(center: &mut ScaffoldingCenter, request: &ProtocolRequest) -> ProtocolResponse {
    match request.request_type.as_str() {
        "ping" => PingProtocol.handle(request),
        "protocols" => ProtocolsProtocol::new(standard_key_list()).handle(request),
        "server_port" => ServerPortProtocol::new(center.minecraft_port()).handle(request),
        "player_ping" => match parse_player_info(&request.body) {
            Ok(info) => ping_response(center.welcome(info, None)),
            Err(reason) => error_response(&reason),
        },
        "player_profiles_list" => profiles_response(&center.get_players()),
        other => panic!("unexpected request: {other}"),
    }
}

impl Room {
    fn new() -> Room {
        let keys = standard_key_list();
        let mut server = TcpServer::new(1025, keys.into_iter().map(|k| (k, ())).collect());
        server.step(ServerEvent::Start);
        server.step(ServerEvent::Bound(Some(1025)));
        let accepted = ServerEvent::Accepted("10.0.0.2:5".into(), "10.0.0.2".into(), "end");
        let session = match server.step(accepted) {
            ServerAction::Serve(session) => session,
            _ => panic!("not served"),
        };
        let center = ScaffoldingCenter::new(
            RoomCode::generate(),
            "Steve".into(),
            "host-machine".into(),
            "qml".into(),
            25565,
            None,
            vec![],
        );
        Room { center, server, session, now: 0 }
    }

    fn send(&mut self, request: &ProtocolRequest) -> ProtocolResponse {
        let received = parse_request(&serialize_request(request)).expect("request");
        let action = self.server.step_session(&mut self.session, ClientEvent::Received(received));
        let bytes = match action {
            ClientAction::Send(bytes) => bytes,
            ClientAction::Handle => {
                let response = answer(&mut self.center, self.session.request().expect("request"));
                let action =
                    self.server.step_session(&mut self.session, ClientEvent::Answered(response));
                match action {
                    ClientAction::Send(bytes) => bytes,
                    _ => panic!("not answered"),
                }
            }
            _ => panic!("not handled"),
        };
        let written = ClientEvent::Written(self.now);
        let action = self.server.step_session(&mut self.session, written);
        assert!(matches!(action, ClientAction::Receive));
        parse_response(&bytes).expect("response")
    }
}

#[test]
fn a_guest_joins_stays_and_leaves() {
    let mut room = Room::new();
    let mut guest = ScaffoldingGuest::new(
        "Alex \"名\"".into(),
        "guest-machine".into(),
        "qml".into(),
        vec!["qml:x".into()],
        None,
    );

    let request = match guest.step_attempt(AttemptEvent::Connected(true), Some("7".into())) {
        AttemptAction::Introduce(request) => request,
        _ => panic!("not introduced"),
    };
    let response = room.send(&request);
    assert!(response.is_success());
    let request = match guest.step_attempt(AttemptEvent::Introduced(Some(response)), None) {
        AttemptAction::Negotiate(request) => request,
        _ => panic!("not negotiated"),
    };
    let response = room.send(&request);
    let action = guest.step_attempt(AttemptEvent::Negotiated(Some(response)), None);
    assert!(matches!(action, AttemptAction::Succeed));
    assert_eq!(guest.negotiated_protocols(), standard_key_list());

    let players = players_from(&room.send(&player_list_request())).expect("players");
    assert_eq!(players.len(), 1);
    assert_eq!(players[0].name, "Alex \"名\"");
    assert_eq!(players[0].easytier_id, None);

    // Now that the key is negotiated, the heartbeat tells the guest's node.
    room.now = 10_000_000_000;
    let request = match guest.heartbeat(true, Some("7".into())) {
        HeartbeatStep::Send(request) => request,
        HeartbeatStep::ReportLost => panic!("lost"),
    };
    assert!(room.send(&request).is_success());
    let players = players_from(&room.send(&player_list_request())).expect("players");
    assert_eq!(players, room.center.get_players());
    assert_eq!(players[0].easytier_id.as_deref(), Some("7"));
    assert_eq!(players[0].kind, PlayerKind::Guest);

    let response = room.send(&ping_request());
    assert_eq!(response.body, vec![0x42]);
    assert_eq!(server_port_from(&room.send(&server_port_request())).expect("port"), 25565);
    assert_eq!(room.server.machine_source_ip("guest-machine").as_deref(), Some("10.0.0.2"));

    assert!(room.server.expire(25_000_000_000).is_empty());
    assert_eq!(room.server.expire(25_000_000_001), vec!["end"]);
    match room.server.step_session(&mut room.session, ClientEvent::Stopped) {
        ClientAction::Close(machine) => room.center.client_disconnected(&machine),
        _ => panic!("not closed"),
    }
    assert!(room.center.get_players().is_empty());
}

#[test]
fn a_key_without_a_handler_is_unknown() {
    let mut room = Room::new();
    let request = ProtocolRequest {
        namespace: "qml".into(),
        request_type: "x".into(),
        body: vec![],
    };
    let response = room.send(&request);
    assert_eq!(response.status, 255);
    assert_eq!(String::from_utf8(response.body).expect("text"), "未知协议: qml:x");
}

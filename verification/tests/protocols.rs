//! The protocols that a center answers.
use std::sync::{Arc, Mutex};

use qomicex_connector::json::JsonValue;
use qomicex_connector::models::player::{PlayerInfo, PlayerKind};
use qomicex_connector::models::protocol::{ProtocolRequest, ProtocolResponse};
use qomicex_connector::protocols::{
    error_response, json_argument, json_response, parse_player_info, value_to_string,
    DelegateProtocol, FullDelegate, PingProtocol, PlayerPingProtocol,
    PlayerProfilesListProtocol, ProtocolHandler, ProtocolsProtocol, RawDelegate,
    ServerPortProtocol,
};

fn request(request_type: &str, body: Vec<u8>) -> ProtocolRequest {
    ProtocolRequest {
        namespace: "c".into(),
        request_type: request_type.into(),
        body,
    }
}

fn body_text(response: &ProtocolResponse) -> String {
    String::from_utf8(response.body.clone()).expect("text")
}

#[test]
fn ping_protocol_echoes_body() {
    let handler = PingProtocol;
    let body = vec![0x01, 0x02, 0x03];
    let response = handler.handle(&request("ping", body.clone()));

    assert_eq!(response.status, 0);
    assert_eq!(response.body, body);
    assert_eq!(handler.key(), "c:ping");
}

#[test]
fn protocols_protocol_returns_supported_protocols() {
    let handler = ProtocolsProtocol::new(vec![
        "c:ping".into(),
        "c:protocols".into(),
        "c:server_port".into(),
    ]);
    let response = handler.handle(&request("protocols", Vec::new()));

    assert_eq!(response.status, 0);
    let text = String::from_utf8(response.body).expect("响应体应为 UTF8");
    let protocols: Vec<&str> = text.split('\0').collect();
    assert!(protocols.contains(&"c:ping"));
    assert!(protocols.contains(&"c:protocols"));
    assert!(protocols.contains(&"c:server_port"));
    assert_eq!(text, "c:ping\0c:protocols\0c:server_port");
    assert_eq!(handler.key(), "c:protocols");
}

#[test]
fn server_port_protocol_returns_port() {
    let handler = ServerPortProtocol::new(25565);
    let response = handler.handle(&request("server_port", Vec::new()));

    assert_eq!(response.status, 0);
    assert_eq!(response.body.len(), 2);
    let port = u16::from_be_bytes([response.body[0], response.body[1]]);
    assert_eq!(port, 25565);
    assert_eq!(handler.key(), "c:server_port");
}

#[test]
fn player_ping_protocol_parses_json_and_invokes_callback() {
    let captured = Arc::new(Mutex::new(None));
    let captured_clone = captured.clone();
    let handler = PlayerPingProtocol::new(move |info| {
        *captured_clone.lock().unwrap() = Some(info);
        true
    });

    let json = r#"{"name":"TestPlayer","machine_id":"m123","vendor":"TestVendor"}"#;
    let response = handler.handle(&request("player_ping", json.as_bytes().to_vec()));

    assert_eq!(response.status, 0);
    let info: PlayerInfo = captured.lock().unwrap().clone().expect("回调未触发");
    assert_eq!(info.name, "TestPlayer");
    assert_eq!(info.machine_id, "m123");
    assert_eq!(info.vendor, "TestVendor");
    assert_eq!(info.easytier_id, None);
    assert!(response.body.is_empty());
    assert_eq!(handler.key(), "c:player_ping");
}

#[test]
fn player_ping_parses_numeric_easytier_id_and_machine_id() {
    let captured = Arc::new(Mutex::new(None));
    let captured_clone = captured.clone();
    let handler = PlayerPingProtocol::new(move |info| {
        *captured_clone.lock().unwrap() = Some(info);
        true
    });

    let json = r#"{"name":"NumericThirdParty","machine_id":9527,"vendor":"third-party","easytier_id":123456}"#;
    let response = handler.handle(&request("player_ping", json.as_bytes().to_vec()));

    assert_eq!(response.status, 0);
    let info: PlayerInfo = captured.lock().unwrap().clone().expect("回调未触发");
    assert_eq!(info.machine_id, "9527");
    assert_eq!(info.easytier_id.as_deref(), Some("123456"));
}

#[test]
fn player_ping_protocol_rejected_callback_returns_error_status() {
    let handler = PlayerPingProtocol::new(|_: PlayerInfo| false);
    let json = r#"{"name":"KickedPlayer","machine_id":"k1","vendor":"TestVendor"}"#;
    let response = handler.handle(&request("player_ping", json.as_bytes().to_vec()));

    assert_eq!(response.status, 255);
    assert_eq!(body_text(&response), "玩家已被房主踢出");
}

#[test]
fn player_profiles_list_protocol_returns_player_list() {
    let players = vec![
        PlayerInfo {
            name: "Host".into(),
            machine_id: "h1".into(),
            vendor: "V".into(),
            easytier_id: None,
            kind: PlayerKind::Host,
        },
        PlayerInfo {
            name: "Guest1".into(),
            machine_id: "g1".into(),
            vendor: "V".into(),
            easytier_id: None,
            kind: PlayerKind::Guest,
        },
    ];
    let handler = PlayerProfilesListProtocol::new(move || players.clone());
    let response = handler.handle(&request("player_profiles_list", Vec::new()));

    assert_eq!(response.status, 0);
    let entries: Vec<serde_json::Map<String, serde_json::Value>> =
        serde_json::from_slice(&response.body).expect("响应体应为 JSON 数组");
    assert_eq!(entries.len(), 2);
    assert_eq!(entries[0]["name"].as_str(), Some("Host"));
    assert_eq!(entries[0]["kind"].as_str(), Some("HOST"));
    assert_eq!(entries[1]["name"].as_str(), Some("Guest1"));
    assert_eq!(entries[1]["kind"].as_str(), Some("GUEST"));
    assert_eq!(
        body_text(&response),
        concat_rows(&[
            r#"{"name":"Host","machine_id":"h1","easytier_id":null,"vendor":"V","kind":"HOST"}"#,
            r#"{"name":"Guest1","machine_id":"g1","easytier_id":null,"vendor":"V","kind":"GUEST"}"#,
        ])
    );
    assert_eq!(handler.key(), "c:player_profiles_list");
}

fn concat_rows(rows: &[&str]) -> String {
    format!("[{}]", rows.join(","))
}

#[test]
fn names_with_special_characters_are_escaped() {
    let handler = PlayerProfilesListProtocol::new(|| {
        vec![PlayerInfo {
            name: "a\"b\\c\n名".into(),
            machine_id: "m".into(),
            vendor: "".into(),
            easytier_id: Some("9".into()),
            kind: PlayerKind::Guest,
        }]
    });
    let response = handler.handle(&request("player_profiles_list", Vec::new()));
    assert_eq!(
        body_text(&response),
        r#"[{"name":"a\"b\\c\n名","machine_id":"m","easytier_id":"9","vendor":"","kind":"GUEST"}]"#
    );
}

#[test]
fn a_heartbeat_that_is_no_json_is_refused_with_the_reason() {
    let handler = PlayerPingProtocol::new(|_: PlayerInfo| panic!("must not be asked"));
    let response = handler.handle(&request("player_ping", b"not json".to_vec()));
    assert_eq!(response.status, 255);
    let reason = serde_json::from_slice::<serde_json::Value>(b"not json")
        .unwrap_err()
        .to_string();
    assert_eq!(body_text(&response), format!("玩家心跳解析失败: {reason}"));
}

#[test]
fn what_a_heartbeat_does_not_say_is_empty() {
    let info = parse_player_info(b"[1,2]").expect("json");
    assert_eq!(info, PlayerInfo::default());
    let info = parse_player_info(br#"{"name":null,"machine_id":[1],"vendor":true,"easytier_id":{}}"#)
        .expect("json");
    assert_eq!(info, PlayerInfo::default());
    let info = parse_player_info(br#"{"name":"a","name":"b","easytier_id":""}"#).expect("json");
    assert_eq!(info.name, "b");
    assert_eq!(info.easytier_id.as_deref(), Some(""));
    assert_eq!(info.kind, PlayerKind::Host);
}

#[test]
fn numbers_are_read_in_their_notation() {
    let read = |text: &str| {
        parse_player_info(format!("{{\"machine_id\":{text}}}").as_bytes())
            .expect("json")
            .machine_id
    };
    assert_eq!(read("0"), "0");
    assert_eq!(read("-42"), "-42");
    assert_eq!(read("-9223372036854775808"), "-9223372036854775808");
    assert_eq!(read("9223372036854775807"), "9223372036854775807");
    assert_eq!(read("18446744073709551615"), "18446744073709551615");
    assert_eq!(read("1.5"), "1.5");
    assert_eq!(read("1.0"), "1");
    assert_eq!(read("1e21"), 1e21f64.to_string());
    assert_eq!(read("18446744073709551616"), 18446744073709551616f64.to_string());
}

#[test]
fn values_become_text_by_their_kind() {
    assert_eq!(value_to_string(&JsonValue::Text("x".into())).as_deref(), Some("x"));
    assert_eq!(value_to_string(&JsonValue::Signed(-7)).as_deref(), Some("-7"));
    assert_eq!(value_to_string(&JsonValue::Unsigned(7)).as_deref(), Some("7"));
    assert_eq!(value_to_string(&JsonValue::Real("0.5".into())).as_deref(), Some("0.5"));
    assert_eq!(value_to_string(&JsonValue::Null), None);
    assert_eq!(value_to_string(&JsonValue::Bool(true)), None);
    assert_eq!(value_to_string(&JsonValue::Array(vec![])), None);
    assert_eq!(value_to_string(&JsonValue::Object(vec![])), None);
}

#[test]
fn protocols_of_the_application_answer_by_their_function() {
    let raw = DelegateProtocol::new_raw("qml:reverse", |body: &[u8]| {
        body.iter().rev().copied().collect::<Vec<u8>>()
    });
    assert_eq!(raw.key(), "qml:reverse");
    let response = raw.handle(&request("reverse", vec![1, 2, 3]));
    assert_eq!((response.status, response.body), (0, vec![3, 2, 1]));

    let full = DelegateProtocol::new("qml:full", |request: &ProtocolRequest| ProtocolResponse {
        status: request.body.len() as u8,
        body: request.request_type.clone().into_bytes(),
    });
    assert_eq!(full.key(), "qml:full");
    let response = full.handle(&request("abc", vec![1, 2]));
    assert_eq!((response.status, response.body), (2, b"abc".to_vec()));
}

#[test]
fn protocols_of_the_application_may_speak_json() {
    let response = json_response(Ok(b"\"1.20.1\"".to_vec()));
    assert_eq!((response.status, response.body), (0, b"\"1.20.1\"".to_vec()));
    let response = json_response(Err("broken".into()));
    assert_eq!(response.status, 255);
    assert_eq!(body_text(&response), "响应序列化失败: broken");

    let empty = request("x", vec![]);
    let full = request("x", vec![1]);
    assert!(matches!(json_argument(&empty, 5, Err("eof".into())), Ok(5)));
    assert!(matches!(json_argument(&full, 5, Ok(6)), Ok(6)));
    match json_argument(&full, 5, Err("bad".into())) {
        Err(response) => {
            assert_eq!(response.status, 255);
            assert_eq!(body_text(&response), "请求反序列化失败: bad");
        }
        Ok(_) => panic!("accepted"),
    }
}

#[test]
fn handlers_answer_without_their_key_too() {
    let turned_away = PlayerPingProtocol::new(|info: PlayerInfo| info.machine_id == "m1");
    assert_eq!(turned_away.answer(&request("player_ping", br#"{"machine_id":"m1"}"#.to_vec())).status, 0);
    assert_eq!(turned_away.answer(&request("player_ping", b"{}".to_vec())).status, 255);
    let nobody = PlayerProfilesListProtocol::new(|| Vec::new());
    assert_eq!(nobody.answer().body, b"[]");
    let raw = RawDelegate { function: |body: &[u8]| body.iter().rev().cloned().collect::<Vec<u8>>() };
    assert_eq!(raw.answer(&request("x", vec![1, 2])).body, vec![2, 1]);
    let full = FullDelegate { function: |r: &ProtocolRequest| error_response(&r.request_type) };
    assert_eq!(body_text(&full.answer(&request("x", vec![]))), "x");
}

#[test]
fn failures_carry_their_message() {
    let response = error_response("出错");
    assert_eq!(response.status, 255);
    assert_eq!(body_text(&response), "出错");
}

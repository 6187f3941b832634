//! Finding the center, and negotiating with it.
use qomicex_connector::error::ScaffoldingError;
use qomicex_connector::models::easy_tier_node::EasyTierNode;
use qomicex_connector::session::center_discovery::{
    center_hostname_text, try_parse_center, Discovery, DiscoveryAction, DiscoveryEvent,
};
use qomicex_connector::session::heartbeat::{HeartbeatAction, HeartbeatEvent, HeartbeatService};
use qomicex_connector::session::protocol_negotiator::negotiate;

fn node(virtual_ip: &str, hostname: &str, node_id: &str) -> EasyTierNode {
    EasyTierNode {
        virtual_ip: virtual_ip.to_string(),
        hostname: hostname.to_string(),
        node_id: node_id.to_string(),
    }
}

fn texts(items: &[&str]) -> Vec<String> {
    items.iter().map(|s| s.to_string()).collect()
}

#[test]
fn try_parse_center_valid_extracts_ip_and_port() {
    let nodes = vec![
        node("10.126.126.1", "scaffolding-mc-server-25565", "123"),
        node("10.126.126.2", "scaffolding-mc-guest-p1", "456"),
    ];

    let result = try_parse_center(&nodes).expect("应解析出联机中心");

    assert_eq!(result.virtual_ip, "10.126.126.1");
    assert_eq!(result.port, 25565);
}

#[test]
fn try_parse_center_invalid_port_returns_none() {
    let nodes = vec![node("10.126.126.1", "scaffolding-mc-server-99999", "123")];

    assert!(try_parse_center(&nodes).is_none());
}

#[test]
fn try_parse_center_port_too_low_returns_none() {
    let nodes = vec![node("10.126.126.1", "scaffolding-mc-server-80", "123")];

    assert!(try_parse_center(&nodes).is_none());
}

#[test]
fn host_names_are_read_as_by_the_pattern() {
    let pattern = regex::Regex::new(r"^scaffolding-mc-server-(\d+)$").expect("pattern");
    let tails = [
        "", "1", "1024", "1025", "65535", "65536", "4294967295", "4294967296",
        "99999999999999999999", "00025565", "+25565", "-25565", " 25565", "25565 ", "25565\n",
        "25565x", "x25565", "２５５６５", "٢٥٥٦٥", "2५", "0",
    ];
    let heads = ["scaffolding-mc-server-", "Scaffolding-mc-server-", "scaffolding-mc-server", "x"];
    for head in heads {
        for tail in tails {
            let hostname = format!("{head}{tail}");
            let expected = pattern
                .captures(&hostname)
                .and_then(|groups| groups[1].parse::<u32>().ok())
                .filter(|port| *port > 1024 && *port <= 65535);
            let found = try_parse_center(&[node("10.0.0.1", &hostname, "1")]);
            assert_eq!(found.map(|c| c.port as u32), expected, "{hostname:?}");
        }
    }
}

#[test]
fn the_first_center_counts() {
    let nodes = vec![
        node("10.0.0.1", "scaffolding-mc-server-99999", "1"),
        node("10.0.0.2", "scaffolding-mc-guest-x", "2"),
        node("10.0.0.3", "scaffolding-mc-server-1025", "3"),
        node("10.0.0.4", "scaffolding-mc-server-2000", "4"),
    ];
    let center = try_parse_center(&nodes).expect("center");
    assert_eq!((center.virtual_ip.as_str(), center.port), ("10.0.0.3", 1025));
    assert!(try_parse_center(&nodes[..2]).is_none());
}

#[test]
fn the_host_name_of_a_center_is_found_again() {
    for port in [1025u16, 25565, 65535] {
        let hostname = center_hostname_text(port);
        assert_eq!(hostname, format!("scaffolding-mc-server-{port}"));
        let center = try_parse_center(&[node("10.0.0.9", &hostname, "1")]).expect("center");
        assert_eq!(center.port, port);
    }
}

#[test]
fn the_search_gives_up_after_sixty_scans() {
    let mut search = Discovery::new();
    let mut scans = 0;
    let mut action = search.begin(false);
    loop {
        action = match action {
            DiscoveryAction::Scan => {
                scans += 1;
                search.step(DiscoveryEvent::Scanned(vec![node("10.0.0.1", "other", "1")]))
            }
            DiscoveryAction::Wait => search.step(DiscoveryEvent::Waited),
            DiscoveryAction::Found(_) => panic!("nothing to find"),
            DiscoveryAction::Fail(error) => {
                match error {
                    ScaffoldingError::CenterNotFound(message) => {
                        assert_eq!(message, "未在 EasyTier 网络中发现联机中心（超时 30s）");
                    }
                    other => panic!("unexpected: {other:?}"),
                }
                break;
            }
        };
    }
    assert_eq!(scans, 60);
}

#[test]
fn a_search_that_is_cancelled_already_does_not_scan() {
    match Discovery::new().begin(true) {
        DiscoveryAction::Fail(error) => {
            assert_eq!(error, ScaffoldingError::CenterNotFound("中心发现已取消".into()));
        }
        _ => panic!("not cancelled"),
    }
    assert!(matches!(Discovery::new().begin(false), DiscoveryAction::Scan));
}

#[test]
fn the_search_ends_with_the_center_or_a_cancellation() {
    let mut search = Discovery::new();
    let nodes = vec![node("10.0.0.5", "scaffolding-mc-server-4000", "1")];
    match search.step(DiscoveryEvent::Scanned(nodes)) {
        DiscoveryAction::Found(center) => {
            assert_eq!((center.virtual_ip.as_str(), center.port), ("10.0.0.5", 4000));
        }
        _ => panic!("not found"),
    }

    let mut search = Discovery::new();
    assert!(matches!(search.step(DiscoveryEvent::Scanned(vec![])), DiscoveryAction::Wait));
    match search.step(DiscoveryEvent::Cancelled) {
        DiscoveryAction::Fail(error) => assert_eq!(error.message(), "中心发现已取消"),
        _ => panic!("not cancelled"),
    }
}

#[test]
fn negotiation_keeps_what_both_sides_know() {
    let mine = texts(&["c:ping", "a:x", "c:protocols", "a:x", "b:y"]);
    let theirs = texts(&["b:y", "c:ping", "z:z", "a:x"]);
    assert_eq!(negotiate(&mine, &theirs), ["c:ping", "a:x", "a:x", "b:y"]);
    assert!(negotiate(&mine, &[]).is_empty());
    assert!(negotiate(&[], &theirs).is_empty());
    let common = negotiate(&mine, &theirs);
    assert_eq!(negotiate(&common, &theirs), common);
}

#[test]
fn heartbeats_stop_after_a_failure() {
    let mut service = HeartbeatService::new(true);
    assert_eq!(service.step(HeartbeatEvent::Waited), HeartbeatAction::Send);
    assert_eq!(service.step(HeartbeatEvent::Sent), HeartbeatAction::Wait);
    assert_eq!(service.step(HeartbeatEvent::Waited), HeartbeatAction::Send);
    assert_eq!(service.step(HeartbeatEvent::Failed), HeartbeatAction::ReportAndStop);
    assert_eq!(service.step(HeartbeatEvent::Waited), HeartbeatAction::Stop);
    assert_eq!(service.step(HeartbeatEvent::Failed), HeartbeatAction::Stop);

    let mut quiet = HeartbeatService::new(false);
    assert_eq!(quiet.step(HeartbeatEvent::Failed), HeartbeatAction::Stop);

    let mut cancelled = HeartbeatService::new(true);
    assert_eq!(cancelled.step(HeartbeatEvent::Cancelled), HeartbeatAction::Stop);
    assert_eq!(cancelled.step(HeartbeatEvent::Waited), HeartbeatAction::Stop);
}

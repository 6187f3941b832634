//! Relay nodes.
use qomicex_connector::client::{RelayAction, ScaffoldingClient};
use qomicex_connector::error::ScaffoldingError;
use qomicex_connector::relay::nodes::{default_nodes, resolve, DEFAULT_NODES};
use qomicex_connector::relay::provider::{
    addresses_to_ask, detect_system_region, is_http_url, node_from_answer, nodes_or_default,
    parse_nodes, region_of_locale, resolve_lookups, RelayNodeProvider, DEFAULT_USER_AGENT,
    ENDPOINT,
};

fn texts(items: &[&str]) -> Vec<String> {
    items.iter().map(|s| s.to_string()).collect()
}

#[test]
fn parse_nodes_valid_object_array_returns_urls() {
    let json = r#"[{"url":"tcp://a.example.com:11010","name":"hk"},{"url":"udp://b.example.com:11010","region":"jp"}]"#;
    let nodes = parse_nodes(json, None);
    assert_eq!(
        nodes,
        ["tcp://a.example.com:11010", "udp://b.example.com:11010"]
    );
}

#[test]
fn parse_nodes_missing_or_empty_url_skipped() {
    let json = r#"[{"name":"no-url"},{"url":""},{"url":"tcp://ok.example.com:11010"}]"#;
    let nodes = parse_nodes(json, None);
    assert_eq!(nodes, ["tcp://ok.example.com:11010"]);
}

#[test]
fn parse_nodes_invalid_json_returns_empty() {
    assert!(parse_nodes("not json", None).is_empty());
}

#[test]
fn parse_nodes_not_array_returns_empty() {
    assert!(parse_nodes(r#"{"url":"tcp://a:11010"}"#, None).is_empty());
}

#[test]
fn parse_nodes_preferred_region_matching_nodes_first() {
    let json = r#"[
      {"url":"https://node-jp.example.com","region":"JP"},
      {"url":"https://node-cn1.example.com","region":"CN"},
      {"url":"https://node-none.example.com"},
      {"url":"https://node-cn2.example.com","region":"CN"}
    ]"#;
    let nodes = parse_nodes(json, Some("CN"));
    assert_eq!(
        nodes,
        [
            "https://node-cn1.example.com",
            "https://node-cn2.example.com",
            "https://node-jp.example.com",
            "https://node-none.example.com"
        ]
    );
}

#[test]
fn parse_nodes_preferred_region_case_insensitive() {
    let json = r#"[{"url":"https://a.example.com","region":"JP"},{"url":"https://b.example.com","region":"cn"}]"#;
    let nodes = parse_nodes(json, Some("CN"));
    assert_eq!(nodes, ["https://b.example.com", "https://a.example.com"]);
}

#[test]
fn parse_nodes_no_preferred_region_keeps_api_order() {
    let json = r#"[{"url":"https://a.example.com","region":"JP"},{"url":"https://b.example.com","region":"CN"}]"#;
    let nodes = parse_nodes(json, None);
    assert_eq!(nodes, ["https://a.example.com", "https://b.example.com"]);
}

#[test]
fn parse_nodes_no_matching_region_keeps_api_order() {
    let json = r#"[{"url":"https://a.example.com","region":"JP"},{"url":"https://b.example.com","region":"US"}]"#;
    let nodes = parse_nodes(json, Some("CN"));
    assert_eq!(nodes, ["https://a.example.com", "https://b.example.com"]);
}

#[test]
fn blank_urls_are_skipped_and_others_kept_as_they_are() {
    let json = "[{\"url\":\" \\t\\n\\u3000\"},{\"url\":\" tcp://a:1 \"},{\"url\":7},3,[],{\"url\":\"\\u00e9\",\"region\":5}]";
    assert_eq!(parse_nodes(json, Some("x")), [" tcp://a:1 ", "é"]);
}

#[test]
fn nodes_are_the_given_or_the_built_in_ones_and_the_additional_ones() {
    assert_eq!(default_nodes(), DEFAULT_NODES);
    assert_eq!(resolve(None, None), DEFAULT_NODES);
    let given = texts(&["tcp://a:1", "tcp://b:2"]);
    let more = texts(&["tcp://c:3"]);
    assert_eq!(resolve(Some(&given), None), ["tcp://a:1", "tcp://b:2"]);
    assert_eq!(resolve(Some(&given), Some(&more)), ["tcp://a:1", "tcp://b:2", "tcp://c:3"]);
    assert_eq!(resolve(Some(&[]), Some(&more)), ["tcp://c:3"]);
    assert_eq!(
        resolve(None, Some(&more)),
        [DEFAULT_NODES[0], DEFAULT_NODES[1], "tcp://c:3"]
    );
}

#[test]
fn http_addresses_are_recognised_in_any_case() {
    for node in ["http://a", "https://a", "HTTP://A", "HttpS://x", "http://"] {
        assert!(is_http_url(node), "{node}");
    }
    for node in ["", "http:/", "http:/a", "tcp://a", "xhttp://a", "https:", "ｈttp://a", "http：//a"] {
        assert!(!is_http_url(node), "{node}");
    }
}

#[test]
fn answers_replace_the_addresses_that_were_asked() {
    let nodes = texts(&["https://one", "tcp://a:1", "http://two", "https://three", "http://four"]);
    assert_eq!(
        addresses_to_ask(&nodes),
        ["https://one", "http://two", "https://three", "http://four"]
    );
    let answers = vec![
        Some("  tcp://one:1\n".to_string()),
        None,
        Some(" \n ".to_string()),
        Some("udp://four:4".to_string()),
    ];
    assert_eq!(
        resolve_lookups(&nodes, &answers),
        ["tcp://one:1", "tcp://a:1", "udp://four:4"]
    );
    assert_eq!(node_from_answer(&None), None);
    assert_eq!(node_from_answer(&Some("\u{3000}x y\u{a0}".into())).as_deref(), Some("x y"));
}

#[test]
fn the_built_in_nodes_stand_in_for_missing_ones() {
    assert_eq!(nodes_or_default(None), DEFAULT_NODES);
    assert_eq!(nodes_or_default(Some(vec![])), DEFAULT_NODES);
    assert_eq!(nodes_or_default(Some(texts(&["tcp://a:1"]))), ["tcp://a:1"]);
    // They are used as they are.
    assert!(addresses_to_ask(&nodes_or_default(None)).is_empty());
}

#[test]
fn regions_come_from_the_second_part_of_a_locale() {
    let region = |locale: Option<&str>| region_of_locale(locale.map(String::from));
    assert_eq!(region(Some("zh-CN")), "CN");
    assert_eq!(region(Some("en-us")), "US");
    assert_eq!(region(Some("zh-Hans-CN")), "HANS");
    assert_eq!(region(Some("en")), "CN");
    assert_eq!(region(Some("en-")), "");
    assert_eq!(region(Some("")), "CN");
    assert_eq!(region(None), "CN");
}

#[test]
fn the_region_of_the_system_is_in_capitals() {
    let expected = match sys_locale::get_locale() {
        Some(locale) => match locale.split('-').nth(1) {
            Some(part) => part.to_ascii_uppercase(),
            None => "CN".to_string(),
        },
        None => "CN".to_string(),
    };
    assert_eq!(detect_system_region(), expected);
}

#[test]
fn providers_have_a_name_a_place_and_a_region() {
    let provider = RelayNodeProvider::new(None, Some("jp".into()));
    assert_eq!(provider.user_agent(), DEFAULT_USER_AGENT);
    assert_eq!(provider.user_agent(), "Qomicex.Connector/1.0");
    assert_eq!(provider.endpoint(), ENDPOINT);
    assert_eq!(ENDPOINT, "https://nodes.qomicex.top/api/nodes");
    let json = r#"[{"url":"a","region":"US"},{"url":"b","region":"JP"}]"#;
    assert_eq!(provider.nodes_in(json), ["b", "a"]);

    let provider = RelayNodeProvider::new(Some("MyLauncher/2.3".into()), None);
    assert_eq!(provider.user_agent(), "MyLauncher/2.3");
    let provider = RelayNodeProvider::new(Some(" \t ".into()), None).with_endpoint("http://x/");
    assert_eq!(provider.user_agent(), DEFAULT_USER_AGENT);
    assert_eq!(provider.endpoint(), "http://x/");
}

fn client(
    given: Option<Vec<String>>,
    additional: Option<Vec<String>>,
) -> ScaffoldingClient<u32, u32> {
    ScaffoldingClient::new(given, additional, Some("agent".into()), Some("US".into()))
}

#[test]
fn given_nodes_are_used_without_asking() {
    let mut client = client(Some(texts(&["tcp://a:1"])), Some(texts(&["tcp://b:2"])));
    for _ in 0..2 {
        match client.resolve_relay_nodes() {
            RelayAction::Use(nodes) => assert_eq!(nodes, ["tcp://a:1", "tcp://b:2"]),
            RelayAction::Fetch(_) => panic!("asked"),
        }
    }
}

#[test]
fn the_node_service_is_asked_once() {
    let mut client = client(None, Some(texts(&["tcp://b:2"]))).with_relay_endpoint("http://e/");
    match client.resolve_relay_nodes() {
        RelayAction::Fetch(provider) => {
            assert_eq!(provider.endpoint(), "http://e/");
            assert_eq!(provider.user_agent(), "agent");
        }
        RelayAction::Use(_) => panic!("not asked"),
    }
    assert_eq!(client.fetched(&texts(&["tcp://f:1"])), ["tcp://f:1", "tcp://b:2"]);
    match client.resolve_relay_nodes() {
        RelayAction::Use(nodes) => assert_eq!(nodes, ["tcp://f:1", "tcp://b:2"]),
        RelayAction::Fetch(_) => panic!("asked again"),
    }
}

#[test]
fn rooms_are_handed_out_once() {
    let mut client = client(None, None);
    client.opened(1, Ok(())).expect("opened");
    client.opened(2, Ok(())).expect("opened");
    client.joined(3, Ok(())).expect("joined");
    let refused = || Err(ScaffoldingError::Protocol("no".into()));
    assert_eq!(client.opened(4, refused()).unwrap_err().message(), "no");
    let (guest, error) = client.joined(5, refused()).unwrap_err();
    assert_eq!((guest, error.message()), (5, "no"));
    assert_eq!(client.close_all(), (vec![1, 2], vec![3]));
    assert_eq!(client.close_all(), (vec![], vec![]));
}

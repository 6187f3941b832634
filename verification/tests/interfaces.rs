//! The network interfaces of this machine.
use qomicex_connector::util::{
    best_candidate, candidates_among, candidates_listed, dotted_text, is_virtual_interface,
    physical_ipv4_candidates, resolve_bind_ip, sort_candidates, Interface, InterfaceAddress,
};

#[test]
fn virtual_interface_detection() {
    assert!(is_virtual_interface("radmin vpn"));
    assert!(is_virtual_interface("wintun"));
    assert!(is_virtual_interface("hamachi"));
    assert!(is_virtual_interface("zerotier one"));
    assert!(is_virtual_interface("openvpn tap"));
    assert!(!is_virtual_interface("ethernet"));
    assert!(!is_virtual_interface("wlan"));
    assert!(!is_virtual_interface("以太网"));
    assert!(!is_virtual_interface("wi-fi"));
}

#[test]
fn bind_ip_candidates_prefer_wired() {
    let mut cands = vec![
        ("wlan".to_string(), "192.168.1.5".to_string()),
        ("ethernet".to_string(), "192.168.1.2".to_string()),
        ("radmin vpn".to_string(), "10.0.0.7".to_string()),
    ];
    sort_candidates(&mut cands);
    assert_eq!(cands[0].0, "ethernet");
    assert_eq!(cands[1].0, "wlan");
    assert_eq!(cands[2].0, "radmin vpn");
}

#[test]
fn every_keyword_marks_a_virtual_interface() {
    for keyword in [
        "radmin", "hamachi", "zerotier", "wintun", "tailscale", "wireguard", "openvpn", "nordvpn",
        "surfshark", "vmware", "virtualbox", "virtual", "loopback", "easytier", "vpn", "tun", "tap",
    ] {
        assert!(is_virtual_interface(keyword), "{keyword}");
        assert!(is_virtual_interface(&format!("x {keyword}0")), "{keyword}");
    }
    assert!(!is_virtual_interface(""));
    assert!(!is_virtual_interface("t"));
    assert!(!is_virtual_interface("eth0"));
}

fn pairs(items: &[(&str, &str)]) -> Vec<(String, String)> {
    items.iter().map(|(a, b)| (a.to_string(), b.to_string())).collect()
}

#[test]
fn candidates_are_ordered_by_rank_then_name_and_keep_their_order() {
    let mut cands = pairs(&[
        ("zz", "1"),
        ("无线 2", "2"),
        ("eth0", "3"),
        ("ethernet 2", "4"),
        ("eth0", "5"),
        ("wifi", "6"),
        ("以太网", "7"),
        ("ethernet", "8"),
        ("eth0", "9"),
        ("wi-fi", "a"),
        ("", "b"),
    ]);
    let mut expected = cands.clone();
    let rank = |n: &str| {
        if n.contains("ethernet") || n.contains("以太网") {
            0
        } else if n.contains("wlan") || n.contains("wi-fi") || n.contains("wifi") || n.contains("无线") {
            1
        } else {
            2
        }
    };
    expected.sort_by_key(|(n, _)| (rank(n), n.clone()));
    sort_candidates(&mut cands);
    assert_eq!(cands, expected);
    let addresses: String = cands.iter().map(|c| c.1.as_str()).collect();
    assert_eq!(addresses, "847a62b3591");
}

#[test]
fn names_are_ordered_like_strings() {
    let names = ["", "a", "aa", "ab", "b", "ａ", "é", "z", "\u{10000}", "\u{ffff}", "a\0"];
    let mut cands: Vec<(String, String)> = names.iter().map(|n| (n.to_string(), String::new())).collect();
    let mut expected: Vec<String> = names.iter().map(|n| n.to_string()).collect();
    expected.sort();
    sort_candidates(&mut cands);
    assert_eq!(cands.into_iter().map(|c| c.0).collect::<Vec<_>>(), expected);
}

fn interface(name: &str, addresses: Vec<InterfaceAddress>) -> Interface {
    Interface { name: name.to_string(), addresses }
}

#[test]
fn only_reachable_addresses_of_physical_interfaces_are_candidates() {
    let interfaces = vec![
        interface("WLAN", vec![InterfaceAddress::V4([192, 168, 1, 5])]),
        interface("Radmin VPN", vec![InterfaceAddress::V4([26, 1, 2, 3])]),
        interface("lo", vec![InterfaceAddress::V4([127, 0, 0, 1]), InterfaceAddress::V4([127, 9, 9, 9])]),
        interface(
            "Ethernet",
            vec![
                InterfaceAddress::V6([0; 16]),
                InterfaceAddress::V4([169, 254, 7, 7]),
                InterfaceAddress::V4([10, 0, 0, 2]),
                InterfaceAddress::V4([169, 253, 0, 1]),
            ],
        ),
    ];
    assert_eq!(candidates_among(&interfaces), ["10.0.0.2", "169.253.0.1", "192.168.1.5"]);
    assert!(candidates_among(&vec![]).is_empty());
    assert!(candidates_listed(None).is_empty());
    assert_eq!(candidates_listed(Some(interfaces)), ["10.0.0.2", "169.253.0.1", "192.168.1.5"]);
}

#[test]
fn addresses_are_written_in_dotted_notation() {
    assert_eq!(dotted_text(&[0, 0, 0, 0]), "0.0.0.0");
    assert_eq!(dotted_text(&[10, 144, 144, 1]), "10.144.144.1");
    assert_eq!(dotted_text(&[255, 255, 255, 255]), "255.255.255.255");
}

#[test]
fn the_best_candidate_of_this_machine_is_the_first() {
    assert_eq!(best_candidate(vec![]), None);
    assert_eq!(best_candidate(vec!["a".into(), "b".into()]).as_deref(), Some("a"));
    let mut expected: Vec<(String, String)> = Vec::new();
    let listed = <network_interface::NetworkInterface as network_interface::NetworkInterfaceConfig>::show();
    for interface in listed.unwrap_or_default() {
        let lower = interface.name.to_ascii_lowercase();
        if is_virtual_interface(&lower) {
            continue;
        }
        for address in &interface.addr {
            if let network_interface::Addr::V4(v4) = address {
                if !v4.ip.is_loopback() && !v4.ip.is_link_local() {
                    expected.push((lower.clone(), v4.ip.to_string()));
                }
            }
        }
    }
    sort_candidates(&mut expected);
    let addresses: Vec<String> = expected.into_iter().map(|c| c.1).collect();
    assert_eq!(physical_ipv4_candidates(), addresses);
    assert_eq!(resolve_bind_ip(), addresses.first().cloned());
}

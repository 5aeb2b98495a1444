use security_center::models::consolidated_port::merge_port;
use security_center::models::{ConsolidatedPort, Interface, Port, Service, Zone};

#[test]
fn test_consolidate_same_port_multiple_zones() {
    let ports = vec![
        Port::with_zone(80, "tcp", "public"),
        Port::with_zone(80, "tcp", "home"),
        Port::with_zone(80, "tcp", "work"),
    ];

    let consolidated = ConsolidatedPort::consolidate(&ports);
    assert_eq!(consolidated.len(), 1);
    assert_eq!(consolidated[0].number, 80);
    assert_eq!(consolidated[0].zones.len(), 3);
    assert_eq!(consolidated[0].protocols, vec!["tcp"]);
}

#[test]
fn test_consolidate_tcp_and_udp() {
    let ports = vec![
        Port::with_zone(53, "tcp", "public"),
        Port::with_zone(53, "udp", "public"),
    ];

    let consolidated = ConsolidatedPort::consolidate(&ports);
    assert_eq!(consolidated.len(), 1);
    assert_eq!(consolidated[0].protocols.len(), 2);
    assert_eq!(consolidated[0].protocol_display(), "TCP/UDP");
}

#[test]
fn test_separate_allowed_and_blocked() {
    let mut allow_port = Port::with_zone(80, "tcp", "public");
    allow_port.action = "accept".to_string();

    let mut deny_port = Port::with_zone(80, "tcp", "dmz");
    deny_port.action = "deny".to_string();

    let ports = vec![allow_port, deny_port];
    let consolidated = ConsolidatedPort::consolidate(&ports);

    // Should create 2 separate entries (one allowed, one denied)
    assert_eq!(consolidated.len(), 2);
}

fn rule(number: u16, protocol: &str, zone: Option<&str>, action: &str, name: Option<&str>) -> Port {
    let mut p = Port::new(number, protocol);
    p.zone = zone.map(|z| z.to_string());
    p.action = action.to_string();
    p.name = name.map(|n| n.to_string());
    p
}

#[test]
fn union_is_sorted_and_complete() {
    let ports = vec![
        Port::with_zone(53, "udp", "work"),
        Port::with_zone(53, "tcp", "public"),
        Port::with_zone(53, "udp", "home"),
        Port::with_zone(53, "tcp", "work"),
    ];
    let consolidated = ConsolidatedPort::consolidate(&ports);
    assert_eq!(consolidated.len(), 1);
    assert_eq!(consolidated[0].protocols, vec!["tcp", "udp"]);
    assert_eq!(consolidated[0].zones, vec!["home", "public", "work"]);
    assert_eq!(consolidated[0].action, "accept");
    assert_eq!(consolidated[0].protocol_display(), "TCP/UDP");
}

#[test]
fn union_ignores_case_and_keeps_the_first_spelling() {
    let ports = vec![
        Port::with_zone(53, "TCP", "Public"),
        Port::with_zone(53, "tcp", "public"),
        Port::with_zone(53, "Udp", "PUBLIC"),
    ];
    let consolidated = ConsolidatedPort::consolidate(&ports);
    assert_eq!(consolidated.len(), 1);
    assert_eq!(consolidated[0].protocols, vec!["TCP", "Udp"]);
    assert_eq!(consolidated[0].zones, vec!["Public"]);
}

#[test]
fn actions_are_folded_and_groups_kept_apart() {
    let ports = vec![
        rule(443, "tcp", Some("public"), "reject", None),
        rule(80, "tcp", Some("dmz"), "drop", Some("web block")),
        rule(80, "tcp", Some("public"), "accept", None),
        rule(80, "udp", Some("home"), "deny", Some("other")),
        rule(80, "tcp", None, "allow", Some("web")),
        rule(22, "tcp", Some("public"), "", None),
        rule(80, "tcp", Some("work"), "reject", None),
    ];
    let consolidated = ConsolidatedPort::consolidate(&ports);
    assert_eq!(consolidated.len(), 4);
    let shape: Vec<(u16, &str)> = consolidated.iter().map(|c| (c.number, c.action.as_str())).collect();
    // ascending by number; of one number, the group that was opened first comes first
    assert_eq!(shape, vec![(22, "accept"), (80, "deny"), (80, "accept"), (443, "deny")]);
    let denied = &consolidated[1];
    assert_eq!(denied.protocols, vec!["tcp", "udp"]);
    assert_eq!(denied.zones, vec!["dmz", "home", "work"]);
    assert_eq!(denied.name.as_deref(), Some("web block"));
    assert!(denied.is_blocked());
    let accepted = &consolidated[2];
    assert_eq!(accepted.protocols, vec!["tcp"]);
    assert_eq!(accepted.zones, vec!["public"]);
    assert_eq!(accepted.name.as_deref(), Some("web"));
    assert!(!accepted.is_blocked());
    assert!(ConsolidatedPort::consolidate(&[]).is_empty());
}

#[test]
fn merging_goes_rule_by_rule() {
    let mut groups: Vec<ConsolidatedPort> = Vec::new();
    merge_port(&mut groups, &Port::with_zone(443, "tcp", "public"));
    merge_port(&mut groups, &Port::with_zone(22, "tcp", "public"));
    merge_port(&mut groups, &Port::with_zone(443, "tcp", "home"));
    assert_eq!(groups.len(), 2);
    assert_eq!(groups[0].number, 22);
    assert_eq!(groups[1].number, 443);
    assert_eq!(groups[1].zones, vec!["home", "public"]);
    let joined = groups[0].absorb(&Port::with_zone(22, "udp", "work"));
    assert_eq!(joined.protocols, vec!["tcp", "udp"]);
    assert_eq!(joined.zones, vec!["public", "work"]);
}

#[test]
fn consolidated_port_from_a_single_rule() {
    let mut p = Port::with_zone(8080, "tcp", "public");
    p.name = Some("proxy".to_string());
    p.is_permanent = true;
    p.action = "reject".to_string();
    let c = ConsolidatedPort::from_port(&p);
    assert_eq!(c.number, 8080);
    assert_eq!(c.name.as_deref(), Some("proxy"));
    assert_eq!(c.protocols, vec!["tcp"]);
    assert_eq!(c.zones, vec!["public"]);
    assert_eq!(c.action, "reject");
    assert!(c.is_permanent);
    assert!(c.is_blocked());
    let plain = ConsolidatedPort::from_port(&Port::new(1, "udp"));
    assert!(plain.zones.is_empty());
    assert!(!plain.is_blocked());
}

#[test]
fn consolidated_port_display() {
    let mut c = ConsolidatedPort::from_port(&Port::new(22, "tcp"));
    assert_eq!(c.protocol_display(), "TCP");
    assert_eq!(c.well_known_service(), Some("SSH"));
    assert_eq!(c.display_title(), "SSH (22)");
    c.name = Some("shell".to_string());
    assert_eq!(c.display_title(), "shell (22)");
    let udp = ConsolidatedPort::from_port(&Port::new(22, "udp"));
    assert_eq!(udp.protocol_display(), "UDP");
    assert_eq!(udp.well_known_service(), None);
    assert_eq!(udp.display_title(), "Port 22");
    let dns = ConsolidatedPort::from_port(&Port::new(53, "udp"));
    assert_eq!(dns.well_known_service(), Some("DNS"));
    let mut three = ConsolidatedPort::default();
    assert_eq!(three.protocol_display(), "?");
    three.protocols = vec!["sctp".to_string(), "tcp".to_string(), "udp".to_string()];
    assert_eq!(three.protocol_display(), "SCTP");
    let odd = ConsolidatedPort::from_port(&Port::new(1, "stra\u{df}e"));
    assert_eq!(odd.protocol_display(), "STRASSE");
    assert_eq!(ConsolidatedPort::from_port(&Port::new(8080, "tcp")).well_known_service(), Some("HTTP Alt"));
    assert_eq!(ConsolidatedPort::from_port(&Port::new(0, "tcp")).display_title(), "Port 0");
    assert_eq!(ConsolidatedPort::from_port(&Port::new(65535, "tcp")).display_title(), "Port 65535");
}

#[test]
fn port_constructors_and_display() {
    let p = Port::new(8080, "tcp");
    assert_eq!(p.number, 8080);
    assert_eq!(p.protocol, "tcp");
    assert_eq!(p.zone, None);
    assert_eq!(p.name, None);
    assert_eq!(p.description, None);
    assert_eq!(p.direction, "in");
    assert_eq!(p.action, "accept");
    assert!(!p.is_permanent);
    assert_eq!(p.display_string(), "8080/tcp");
    let mut z = Port::with_zone(53, "udp", "home");
    assert_eq!(z.zone.as_deref(), Some("home"));
    assert_eq!(z.direction, "in");
    assert_eq!(z.action, "accept");
    z.name = Some("dns".to_string());
    assert_eq!(z.display_string(), "dns (53/udp)");
    let d = Port::default();
    assert_eq!(d.number, 0);
    assert_eq!(d.protocol, "");
    assert_eq!(d.direction, "");
    let c = z.clone();
    assert_eq!(c.display_string(), "dns (53/udp)");
}

#[test]
fn port_well_known_services() {
    assert_eq!(Port::new(22, "tcp").well_known_service(), Some("SSH"));
    assert_eq!(Port::new(22, "udp").well_known_service(), None);
    assert_eq!(Port::new(53, "tcp").well_known_service(), Some("DNS"));
    assert_eq!(Port::new(53, "udp").well_known_service(), Some("DNS"));
    assert_eq!(Port::new(67, "udp").well_known_service(), Some("DHCP"));
    assert_eq!(Port::new(68, "udp").well_known_service(), Some("DHCP"));
    assert_eq!(Port::new(67, "tcp").well_known_service(), None);
    assert_eq!(Port::new(445, "tcp").well_known_service(), Some("SMB"));
    assert_eq!(Port::new(8080, "tcp").well_known_service(), Some("HTTP Alt"));
    assert_eq!(Port::new(22, "TCP").well_known_service(), None);
    assert_eq!(Port::new(1, "tcp").well_known_service(), None);
}

#[test]
fn port_parse() {
    let p = Port::parse("8080/tcp").expect("a port");
    assert_eq!(p.number, 8080);
    assert_eq!(p.protocol, "tcp");
    assert_eq!(p.zone, None);
    assert_eq!(p.action, "accept");
    assert_eq!(Port::parse("+80/TCP").map(|p| (p.number, p.protocol)), Some((80, "TCP".to_string())));
    assert!(Port::parse("8080").is_none());
    assert!(Port::parse("8080/tcp/udp").is_none());
    assert!(Port::parse("http/tcp").is_none());
    assert!(Port::parse("65536/tcp").is_none());
    assert!(Port::parse("-1/tcp").is_none());
    assert!(Port::parse("/tcp").is_none());
    assert!(Port::parse("").is_none());
}

#[test]
fn port_parse_with_zone() {
    let p = Port::parse_with_zone("8080/tcp", "public").expect("a port");
    assert_eq!(p.number, 8080);
    assert_eq!(p.protocol, "tcp");
    assert_eq!(p.zone.as_deref(), Some("public"));
    let small = Port::parse_with_zone("5000-5100/udp", "home").expect("a small range");
    assert_eq!(small.number, 5000);
    assert_eq!(small.protocol, "udp");
    assert_eq!(small.zone.as_deref(), Some("home"));
    assert!(Port::parse_with_zone("5000-5101/udp", "home").is_none());
    assert!(Port::parse_with_zone("1025-65535/tcp", "home").is_none());
    assert!(Port::parse_with_zone("5100-5000/udp", "home").is_none());
    assert!(Port::parse_with_zone("1-2-3/udp", "home").is_none());
    assert!(Port::parse_with_zone("a-5/udp", "home").is_none());
    assert!(Port::parse_with_zone("5-/udp", "home").is_none());
    assert!(Port::parse_with_zone("80", "home").is_none());
    assert_eq!(Port::parse_with_zone("7-7/tcp", "x").map(|p| p.number), Some(7));
}

#[test]
fn port_parse_from_rich_rule() {
    let p = Port::parse_from_rich_rule(
        "rule family=\"ipv4\" port port=\"80\" protocol=\"tcp\" reject",
        "public",
    )
    .expect("a blocking rule");
    assert_eq!(p.number, 80);
    assert_eq!(p.protocol, "tcp");
    assert_eq!(p.zone.as_deref(), Some("public"));
    assert_eq!(p.name, None);
    assert_eq!(p.description.as_deref(), Some("Blocked via rich rule (reject)"));
    assert_eq!(p.direction, "in");
    assert_eq!(p.action, "reject");
    assert!(p.is_permanent);
    let d = Port::parse_from_rich_rule("rule port port=\"53\" protocol=\"UDP\" drop", "dmz")
        .expect("a blocking rule");
    assert_eq!(d.protocol, "UDP");
    assert_eq!(d.action, "drop");
    assert_eq!(d.description.as_deref(), Some("Blocked via rich rule (drop)"));
    assert!(Port::parse_from_rich_rule("rule port port=\"80\" protocol=\"tcp\" accept", "x").is_none());
    assert!(Port::parse_from_rich_rule("rule protocol=\"tcp\" reject", "x").is_none());
    assert!(Port::parse_from_rich_rule("rule port port=\"80\" reject", "x").is_none());
    assert!(Port::parse_from_rich_rule("rule port port=\"x\" protocol=\"tcp\" reject", "x").is_none());
}

#[test]
fn zone_model() {
    let z = Zone::new("public");
    assert_eq!(z.name, "public");
    assert_eq!(z.description, "");
    assert!(!z.is_active);
    assert!(z.ports.is_empty());
    assert!(z.rich_rules.is_empty());
    assert_eq!(z.trust_level(), 2);
    assert_eq!(z.purpose(), "For use in public areas, only selected services allowed");
    let levels: Vec<i32> = ["drop", "block", "public", "external", "dmz", "work", "home", "internal", "trusted", "mine"]
        .iter()
        .map(|n| Zone::new(n).trust_level())
        .collect();
    assert_eq!(levels, vec![0, 1, 2, 3, 4, 5, 6, 7, 8, 5]);
    assert_eq!(Zone::new("trusted").purpose(), "All connections are accepted");
    assert_eq!(Zone::new("mine").purpose(), "Custom zone");
    assert_eq!(Zone::default().name, "");
    let mut full = Zone::new("home");
    full.ports = vec!["80/tcp".to_string()];
    assert_eq!(full.clone().ports, vec!["80/tcp"]);
}

#[test]
fn interface_model() {
    let i = Interface::new("eth0");
    assert_eq!(i.name, "eth0");
    assert_eq!(i.zone, "");
    assert!(!i.is_active);
    let kinds: Vec<&str> = ["eth0", "enp3s0", "wlan0", "wlp2s0", "br0", "veth12", "docker0", "virbr0", "tun0", "tap1", "lo", "lo0", "ppp0", ""]
        .iter()
        .map(|n| Interface::new(n).interface_type())
        .collect();
    assert_eq!(
        kinds,
        vec![
            "Ethernet",
            "Ethernet",
            "Wireless",
            "Wireless",
            "Bridge",
            "Virtual (Container)",
            "Virtual (Container)",
            "Virtual (Libvirt)",
            "Tunnel",
            "Tunnel",
            "Loopback",
            "Unknown",
            "Unknown",
            "Unknown",
        ]
    );
}

#[test]
fn service_model() {
    let mut s = Service::new("ssh");
    assert_eq!(s.name, "ssh");
    assert!(!s.is_enabled);
    assert_eq!(s.risk_level(), "medium");
    assert_eq!(s.human_description(), "Secure Shell remote access");
    assert_eq!(s.ports_summary(), "");
    s.description = "my shell".to_string();
    assert_eq!(s.human_description(), "my shell");
    s.ports = vec![("22".to_string(), "tcp".to_string())];
    assert_eq!(s.ports_summary(), "22/tcp");
    s.ports.push(("2222".to_string(), "tcp".to_string()));
    s.ports.push(("53".to_string(), "udp".to_string()));
    assert_eq!(s.ports_summary(), "22/tcp, 2222/tcp, 53/udp");
    s.ports.push(("80".to_string(), "tcp".to_string()));
    assert_eq!(s.ports_summary(), "22/tcp, 2222/tcp, 53/udp +1");
    for n in 0..10 {
        s.ports.push((n.to_string(), "tcp".to_string()));
    }
    assert_eq!(s.ports_summary(), "22/tcp, 2222/tcp, 53/udp +11");
    assert_eq!(s.clone().ports.len(), 14);
    assert_eq!(Service::new("telnet").risk_level(), "high");
    assert_eq!(Service::new("rlogin").risk_level(), "high");
    assert_eq!(Service::new("vnc-server").risk_level(), "medium");
    assert_eq!(Service::new("http").risk_level(), "low");
    assert_eq!(Service::new("other").risk_level(), "low");
    assert_eq!(Service::new("imaps").human_description(), "Email retrieval");
    assert_eq!(Service::new("cockpit").human_description(), "Web-based server management");
    assert_eq!(Service::new("other").human_description(), "Network service");
    assert_eq!(Service::default().name, "");
}

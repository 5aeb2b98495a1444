use security_center::models::{ConsolidatedPort, Port};
use security_center::port_edit::{
    drop_rule, plan_add, plan_delete, plan_edit, rule_metadata, zone_protocol_pairs, FirewallOp,
};
use security_center::summary::{accent_color, disk_percent, memory_percent};

fn strings(items: &[&str]) -> Vec<String> {
    items.iter().map(|s| s.to_string()).collect()
}

fn remove_port(zone: &str, port: &str, protocol: &str, permanent: bool) -> FirewallOp {
    FirewallOp::RemovePort {
        zone: zone.to_string(),
        port: port.to_string(),
        protocol: protocol.to_string(),
        permanent,
    }
}

fn remove_rule(zone: &str, rule: &str, permanent: bool) -> FirewallOp {
    FirewallOp::RemoveRichRule { zone: zone.to_string(), rule: rule.to_string(), permanent }
}

const REJECT_80_TCP: &str = "rule family=\"ipv4\" port port=\"80\" protocol=\"tcp\" reject";
const DROP_80_TCP: &str = "rule family=\"ipv4\" port port=\"80\" protocol=\"tcp\" drop";
const REJECT_80_UDP: &str = "rule family=\"ipv4\" port port=\"80\" protocol=\"udp\" reject";

#[test]
fn pairs_go_zone_by_zone() {
    let pairs = zone_protocol_pairs(&strings(&["home", "work"]), &strings(&["tcp", "udp"]));
    let expected: Vec<(String, String)> = [("home", "tcp"), ("home", "udp"), ("work", "tcp"), ("work", "udp")]
        .iter()
        .map(|(z, p)| (z.to_string(), p.to_string()))
        .collect();
    assert_eq!(pairs, expected);
    assert!(zone_protocol_pairs(&strings(&[]), &strings(&["tcp"])).is_empty());
    assert!(zone_protocol_pairs(&strings(&["home"]), &strings(&[])).is_empty());
}

#[test]
fn adding_opens_or_rejects() {
    assert_eq!(
        plan_add("public", "80", "tcp", false, true),
        FirewallOp::AddPort {
            zone: "public".to_string(),
            port: "80".to_string(),
            protocol: "tcp".to_string(),
            permanent: true,
        }
    );
    assert_eq!(
        plan_add("public", "80", "tcp", true, false),
        FirewallOp::AddRichRule {
            zone: "public".to_string(),
            rule: REJECT_80_TCP.to_string(),
            permanent: false,
        }
    );
    assert!(plan_add("public", "80", "tcp", true, false).must_succeed());
    assert!(plan_add("public", "80", "tcp", false, false).must_succeed());
    assert!(!remove_port("public", "80", "tcp", true).must_succeed());
    assert!(!remove_rule("public", REJECT_80_TCP, true).must_succeed());
    assert_eq!(drop_rule("80", "tcp"), DROP_80_TCP);
}

#[test]
fn deleting_removes_entry_and_rule_everywhere() {
    let ports = vec![Port::with_zone(80, "tcp", "public"), Port::with_zone(80, "udp", "public")];
    let group = ConsolidatedPort::consolidate(&ports).remove(0);
    assert_eq!(
        plan_delete(&group),
        vec![
            remove_port("public", "80", "tcp", false),
            remove_port("public", "80", "tcp", true),
            remove_rule("public", REJECT_80_TCP, false),
            remove_rule("public", REJECT_80_TCP, true),
            remove_port("public", "80", "udp", false),
            remove_port("public", "80", "udp", true),
            remove_rule("public", REJECT_80_UDP, false),
            remove_rule("public", REJECT_80_UDP, true),
        ]
    );
    assert!(plan_delete(&ConsolidatedPort::default()).is_empty());
}

#[test]
fn editing_removes_the_old_and_adds_the_new() {
    let open = ConsolidatedPort::from_port(&Port::with_zone(80, "tcp", "public"));
    assert_eq!(
        plan_edit(&open, &strings(&["home", "work"]), &strings(&["tcp"]), true, true),
        vec![
            remove_port("public", "80", "tcp", false),
            remove_port("public", "80", "tcp", true),
            FirewallOp::AddRichRule {
                zone: "home".to_string(),
                rule: REJECT_80_TCP.to_string(),
                permanent: true,
            },
            FirewallOp::AddRichRule {
                zone: "work".to_string(),
                rule: REJECT_80_TCP.to_string(),
                permanent: true,
            },
        ]
    );
    let mut blocked = ConsolidatedPort::from_port(&Port::with_zone(80, "tcp", "public"));
    blocked.action = "deny".to_string();
    assert_eq!(
        plan_edit(&blocked, &strings(&["public"]), &strings(&["udp"]), false, false),
        vec![
            remove_rule("public", REJECT_80_TCP, false),
            remove_rule("public", REJECT_80_TCP, true),
            remove_rule("public", DROP_80_TCP, false),
            remove_rule("public", DROP_80_TCP, true),
            FirewallOp::AddPort {
                zone: "public".to_string(),
                port: "80".to_string(),
                protocol: "udp".to_string(),
                permanent: false,
            },
        ]
    );
    assert!(plan_edit(&ConsolidatedPort::default(), &strings(&[]), &strings(&[]), false, false).is_empty());
}

#[test]
fn kept_metadata_say_what_was_done() {
    let allowed = rule_metadata(8080, "tcp", "public", "proxy", false);
    assert_eq!(allowed.name, "proxy");
    assert_eq!(allowed.port, 8080);
    assert_eq!(allowed.protocol, "tcp");
    assert_eq!(allowed.zone, "public");
    assert_eq!(allowed.incoming_action, "allow");
    assert_eq!(allowed.outgoing_action, "");
    assert_eq!(allowed.description, "Incoming: Allowed");
    assert_eq!(allowed.created_at.len(), 19);
    let blocked = rule_metadata(23, "tcp", "home", "", true);
    assert_eq!(blocked.name, "");
    assert_eq!(blocked.incoming_action, "block");
    assert_eq!(blocked.description, "Incoming: Blocked");
}

#[test]
fn memory_in_use_is_read_from_meminfo() {
    let text = "MemTotal:       16000000 kB\nMemFree:         1000000 kB\nMemAvailable:    4000000 kB\nBuffers:          100 kB\n";
    assert_eq!(memory_percent(text), Some(75));
    assert_eq!(memory_percent("MemTotal: 3 kB\nMemAvailable: 1 kB\n"), Some(66));
    assert_eq!(memory_percent("MemTotal: 100 kB\n"), Some(100));
    assert_eq!(memory_percent("MemAvailable: 100 kB\n"), Some(0));
    assert_eq!(memory_percent(""), Some(0));
    assert_eq!(memory_percent("MemTotal: x kB\nMemAvailable: 1 kB\n"), Some(0));
    assert_eq!(memory_percent("MemTotal:\nMemAvailable: 1 kB\n"), Some(0));
    assert_eq!(memory_percent("MemTotal: 10 kB\nMemAvailable: 20 kB\n"), None);
    // the last line of a kind counts
    assert_eq!(memory_percent("MemTotal: 10\nMemAvailable: 5\nMemTotal: 100\nMemAvailable: 1\n"), Some(99));
    assert_eq!(
        memory_percent(&format!("MemTotal: {}\nMemAvailable: 0\n", u64::MAX)),
        Some(100)
    );
}

#[test]
fn disk_in_use_is_read_from_df() {
    assert_eq!(disk_percent("Use%\n 42%\n"), 42);
    assert_eq!(disk_percent("Use%\n100%\n"), 100);
    assert_eq!(disk_percent("Use%\n 7\n"), 7);
    assert_eq!(disk_percent("Use%\n 7%%\n"), 7);
    assert_eq!(disk_percent("Use%\n -\n"), 0);
    assert_eq!(disk_percent("Use%\n"), 0);
    assert_eq!(disk_percent(""), 0);
    assert_eq!(disk_percent("Use%\n 4294967296%\n"), 0);
}

#[test]
fn accents_have_colours() {
    assert_eq!(accent_color("blue", true), "#3584e4");
    assert_eq!(accent_color("teal", false), "#2190a4");
    assert_eq!(accent_color("green", false), "#3a944a");
    assert_eq!(accent_color("yellow", false), "#c88800");
    assert_eq!(accent_color("orange", false), "#ed5b00");
    assert_eq!(accent_color("red", false), "#e62d42");
    assert_eq!(accent_color("pink", false), "#d56199");
    assert_eq!(accent_color("purple", false), "#9141ac");
    assert_eq!(accent_color("slate", true), "#6f8396");
    assert_eq!(accent_color("", true), "#62a0ea");
    assert_eq!(accent_color("mauve", false), "#3584e4");
}

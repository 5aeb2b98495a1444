use security_center::admin::decode::IpAddress;
use security_center::admin::network::{FirewallStatus, ListeningEndpoint, Protocol};
use security_center::models::{ConsolidatedPort, Port, Zone};
use security_center::rich_rule::parse_rich_rule_port;
use security_center::storage::PortMetadata;
use security_center::summary::{
    add_stored_rules, blocked_port_labels, blocked_ports_of_zones, count_endpoints, count_rules,
    count_states, count_zones, filter_services, get_service_icon, ports_of_zones,
    read_network_totals, reject_rule, rule_of_metadata, service_matches, EndpointCounts, RuleCounts,
    StateCounts, ZoneCounts,
};
use security_center::systemd::{
    is_listed_before, security_service_names, sort_services, ServiceInfo, ServiceState,
};

fn zone(name: &str, active: bool, services: &[&str], ports: &[&str], rules: &[&str]) -> Zone {
    let mut z = Zone::new(name);
    z.is_active = active;
    z.services = services.iter().map(|s| s.to_string()).collect();
    z.ports = ports.iter().map(|s| s.to_string()).collect();
    z.rich_rules = rules.iter().map(|s| s.to_string()).collect();
    z
}

fn service(name: &str, state: ServiceState, description: &str) -> ServiceInfo {
    let mut s = ServiceInfo::new(name);
    s.state = state;
    s.description = description.to_string();
    s
}

#[test]
fn zones_give_their_ports() {
    let zones = vec![
        zone("public", true, &[], &["80/tcp", "bad", "5000-5010/udp", "1025-65535/tcp"], &[
            "rule family=\"ipv4\" port port=\"22\" protocol=\"tcp\" reject",
            "rule service name=\"ssh\" accept",
        ]),
        zone("home", false, &[], &["53/udp"], &["rule port port=\"23\" protocol=\"tcp\" drop"]),
    ];
    let open = ports_of_zones(&zones);
    let shape: Vec<(u16, &str, Option<&str>)> =
        open.iter().map(|p| (p.number, p.protocol.as_str(), p.zone.as_deref())).collect();
    assert_eq!(
        shape,
        vec![(80, "tcp", Some("public")), (5000, "udp", Some("public")), (53, "udp", Some("home"))]
    );
    let blocked = blocked_ports_of_zones(&zones);
    let shape: Vec<(u16, &str, Option<&str>, &str)> = blocked
        .iter()
        .map(|p| (p.number, p.protocol.as_str(), p.zone.as_deref(), p.action.as_str()))
        .collect();
    assert_eq!(
        shape,
        vec![(22, "tcp", Some("public"), "reject"), (23, "tcp", Some("home"), "drop")]
    );
    assert!(ports_of_zones(&Vec::new()).is_empty());
    assert!(blocked_ports_of_zones(&Vec::new()).is_empty());
    // both lists together feed the consolidation
    let mut all = open;
    all.extend(blocked);
    let groups = ConsolidatedPort::consolidate(&all);
    let keys: Vec<(u16, &str)> = groups.iter().map(|g| (g.number, g.action.as_str())).collect();
    assert_eq!(keys, vec![(22, "deny"), (23, "deny"), (53, "accept"), (80, "accept"), (5000, "accept")]);
}

#[test]
fn stored_rules_join_the_list_once() {
    let stamp = || "2024-01-02 03:04:05".to_string();
    let stored = vec![
        PortMetadata::deny_rule_created(8080, "tcp", "public", "deny", "", "proxy", stamp()),
        PortMetadata::deny_rule_created(0, "tcp", "public", "deny", "", "nothing", stamp()),
        PortMetadata::deny_rule_created(80, "tcp", "public", "deny", "", "web", stamp()),
        PortMetadata::deny_rule_created(9000, "udp", "", "", "deny", "", stamp()),
        PortMetadata::deny_rule_created(8080, "tcp", "public", "", "deny", "again", stamp()),
        PortMetadata::deny_rule_created(8080, "tcp", "home", "deny", "", "elsewhere", stamp()),
    ];
    let first = rule_of_metadata(&stored[0]).expect("a rule");
    assert_eq!(first.number, 8080);
    assert_eq!(first.protocol, "tcp");
    assert_eq!(first.zone.as_deref(), Some("public"));
    assert_eq!(first.name.as_deref(), Some("proxy"));
    assert_eq!(first.description.as_deref(), Some(""));
    assert_eq!(first.direction, "in");
    assert_eq!(first.action, "deny");
    assert!(!first.is_permanent);
    assert!(rule_of_metadata(&stored[1]).is_none());
    let outgoing = rule_of_metadata(&stored[3]).expect("a rule");
    assert_eq!(outgoing.zone, None);
    assert_eq!(outgoing.name, None);
    assert_eq!(outgoing.action, "accept");
    let mut ports = vec![Port::with_zone(80, "tcp", "public"), Port::with_zone(22, "tcp", "public")];
    add_stored_rules(&mut ports, &stored);
    let shape: Vec<(u16, Option<&str>, &str)> =
        ports.iter().map(|p| (p.number, p.zone.as_deref(), p.action.as_str())).collect();
    assert_eq!(
        shape,
        vec![
            (80, Some("public"), "accept"),
            (22, Some("public"), "accept"),
            (8080, Some("public"), "deny"),
            (9000, None, "accept"),
            (8080, Some("home"), "deny"),
        ]
    );
    assert_eq!(
        count_rules(&ports),
        RuleCounts { tcp_allowed: 2, tcp_denied: 2, udp_allowed: 1, udp_denied: 0 }
    );
    let mut odd = Port::new(1, "sctp");
    odd.action = "drop".to_string();
    assert_eq!(
        count_rules(&vec![odd]),
        RuleCounts { tcp_allowed: 0, tcp_denied: 0, udp_allowed: 0, udp_denied: 1 }
    );
    assert_eq!(
        count_rules(&Vec::new()),
        RuleCounts { tcp_allowed: 0, tcp_denied: 0, udp_allowed: 0, udp_denied: 0 }
    );
}

#[test]
fn reject_rules_are_read_back() {
    let rule = reject_rule("443", "tcp");
    assert_eq!(rule, "rule family=\"ipv4\" port port=\"443\" protocol=\"tcp\" reject");
    assert_eq!(parse_rich_rule_port(&rule), Some((443, "tcp".to_string())));
    let blocked = Port::parse_from_rich_rule(&rule, "public").expect("a blocking rule");
    assert_eq!(blocked.number, 443);
    assert_eq!(blocked.action, "reject");
    assert_eq!(reject_rule("", ""), "rule family=\"ipv4\" port port=\"\" protocol=\"\" reject");
}

fn endpoint(addr: IpAddress, port: u16, status: FirewallStatus) -> ListeningEndpoint {
    ListeningEndpoint {
        local_addr: addr,
        port,
        protocol: Protocol::Tcp,
        inode: 1,
        pid: None,
        process_name: None,
        cmdline: None,
        firewall_status: status,
    }
}

#[test]
fn endpoints_are_summed_up() {
    let list = vec![
        endpoint(IpAddress::V4([0, 0, 0, 0]), 22, FirewallStatus::Blocked),
        endpoint(IpAddress::V4([127, 0, 0, 1]), 631, FirewallStatus::Unknown),
        endpoint(IpAddress::V6([0; 16]), 80, FirewallStatus::Allowed { zone: "public".to_string() }),
        endpoint(IpAddress::V4([10, 0, 0, 1]), 443, FirewallStatus::Blocked),
    ];
    let counts = count_endpoints(&list);
    assert_eq!(counts, EndpointCounts { total: 4, exposed: 2, blocked: 2 });
    assert_eq!(counts.status_line(), "Found 4 listening ports (2 exposed, 2 blocked by firewall)");
    let none = count_endpoints(&Vec::new());
    assert_eq!(none, EndpointCounts { total: 0, exposed: 0, blocked: 0 });
    assert_eq!(none.status_line(), "Found 0 listening ports (0 exposed, 0 blocked by firewall)");
}

#[test]
fn blocked_ports_are_labelled() {
    let mut ports = Vec::new();
    for n in 1..=7u16 {
        ports.push(Port::new(n * 11, if n % 2 == 0 { "udp" } else { "tcp" }));
    }
    let labels = blocked_port_labels(&ports);
    assert_eq!(
        labels,
        vec![
            ("11/TCP".to_string(), 1),
            ("22/UDP".to_string(), 1),
            ("33/TCP".to_string(), 1),
            ("44/UDP".to_string(), 1),
            ("55/TCP".to_string(), 1),
        ]
    );
    assert_eq!(blocked_port_labels(&ports[..2].to_vec()).len(), 2);
    assert!(blocked_port_labels(&Vec::new()).is_empty());
}

#[test]
fn zones_are_counted() {
    let zones = vec![
        zone("public", true, &["ssh", "http"], &["80/tcp"], &[]),
        zone("home", false, &["ssh", "mdns", "samba"], &["1/tcp", "2/tcp"], &[]),
        zone("work", true, &["ssh"], &["3/tcp", "4/tcp", "5/tcp"], &[]),
    ];
    assert_eq!(count_zones(&zones), Some(ZoneCounts { active: 2, services: 3, ports: 4 }));
    assert_eq!(count_zones(&Vec::new()), Some(ZoneCounts { active: 0, services: 0, ports: 0 }));
}

#[test]
fn services_have_icons() {
    assert_eq!(get_service_icon("ssh"), "utilities-terminal-symbolic");
    assert_eq!(get_service_icon("https"), "web-browser-symbolic");
    assert_eq!(get_service_icon("nfs3"), "folder-remote-symbolic");
    assert_eq!(get_service_icon("ftp"), "folder-remote-symbolic");
    assert_eq!(get_service_icon("dhcpv6-client"), "network-wired-symbolic");
    assert_eq!(get_service_icon("samba-client"), "folder-publicshare-symbolic");
    assert_eq!(get_service_icon("rdp"), "computer-symbolic");
    assert_eq!(get_service_icon("pop3s"), "mail-send-symbolic");
    assert_eq!(get_service_icon("mdns"), "network-workgroup-symbolic");
    assert_eq!(get_service_icon("cockpit"), "preferences-system-symbolic");
    assert_eq!(get_service_icon("dns"), "network-server-symbolic");
    assert_eq!(get_service_icon("other"), "application-x-executable-symbolic");
}

#[test]
fn services_are_searched() {
    let services = vec![
        service("sshd.service", ServiceState::Running, "OpenSSH server daemon"),
        service("cups.service", ServiceState::Stopped, "CUPS Scheduler"),
        service("NetworkManager.service", ServiceState::Running, "Network Manager"),
        service("docker.service", ServiceState::Failed, ""),
    ];
    assert!(service_matches(&services[0], "ssh"));
    assert!(service_matches(&services[0], "openssh"));
    assert!(!service_matches(&services[0], "OpenSSH"));
    assert!(service_matches(&services[2], "networkmanager"));
    assert!(service_matches(&services[3], ""));
    assert_eq!(filter_services(&services, ""), vec![0, 1, 2, 3]);
    assert_eq!(filter_services(&services, "s"), vec![0, 1, 2, 3]);
    assert_eq!(filter_services(&services, "sched"), vec![1]);
    assert_eq!(filter_services(&services, "manager"), vec![2]);
    assert_eq!(filter_services(&services, "zzz"), Vec::<usize>::new());
    assert_eq!(filter_services(&Vec::new(), ""), Vec::<usize>::new());
    assert_eq!(count_states(&services), StateCounts { running: 2, stopped: 1, failed: 1 });
}

#[test]
fn services_are_listed_in_order() {
    let names = security_service_names();
    assert_eq!(names.len(), 34);
    assert_eq!(names[0], "firewalld.service");
    assert_eq!(names[10], "NetworkManager.service");
    assert_eq!(names[33], "dbus.service");
    let services = vec![
        service("sshd.service", ServiceState::Stopped, "one"),
        service("cups.service", ServiceState::Unknown, ""),
        service("nginx.service", ServiceState::Running, ""),
        service("docker.service", ServiceState::Failed, ""),
        service("auditd.service", ServiceState::Running, ""),
        service("sshd.service", ServiceState::Stopped, "two"),
        service("NetworkManager.service", ServiceState::Running, ""),
        service("apache2.service", ServiceState::Stopped, ""),
    ];
    let sorted = sort_services(&services);
    let shape: Vec<(&str, &str)> =
        sorted.iter().map(|s| (s.display_name.as_str(), s.description.as_str())).collect();
    assert_eq!(
        shape,
        vec![
            ("NetworkManager", ""),
            ("auditd", ""),
            ("nginx", ""),
            ("docker", ""),
            ("apache2", ""),
            ("sshd", "one"),
            ("sshd", "two"),
            ("cups", ""),
        ]
    );
    assert!(is_listed_before(&services[2], &services[0]));
    assert!(!is_listed_before(&services[0], &services[5]));
    assert!(!is_listed_before(&services[5], &services[0]));
    let mut by_std = services.clone();
    by_std.sort_by(|a, b| {
        a.state
            .listing_rank()
            .cmp(&b.state.listing_rank())
            .then(a.display_name.cmp(&b.display_name))
    });
    let expected: Vec<(&str, &str)> =
        by_std.iter().map(|s| (s.display_name.as_str(), s.description.as_str())).collect();
    assert_eq!(shape, expected);
    assert!(sort_services(&Vec::new()).is_empty());
}

#[test]
fn network_totals_leave_the_loopback_out() {
    let text = "Inter-|   Receive                                                |  Transmit\n face |bytes    packets errs drop fifo frame compressed multicast|bytes    packets errs drop fifo colls carrier compressed\n    lo: 1000 10 0 0 0 0 0 0 1000 10 0 0 0 0 0 0\n  eth0: 5000 50 0 0 0 0 0 0 7000 70 0 0 0 0 0 0\n wlan0: 300 3 0 0 0 0 0 0 400 4 0 0 0 0 0 0\n short: 1 2 3\n  bad0: x 50 0 0 0 0 0 0 7000 70 0 0 0 0 0 0\n";
    assert_eq!(read_network_totals(text), Some((5300, 7400)));
    assert_eq!(read_network_totals(""), Some((0, 0)));
    assert_eq!(read_network_totals("a\nb\n"), Some((0, 0)));
    let big = format!(
        "h\nh\n eth0: {} 1 0 0 0 0 0 0 1 1 0 0 0 0 0 0\n eth1: 1 1 0 0 0 0 0 0 1 1 0 0 0 0 0 0\n",
        u64::MAX
    );
    assert_eq!(read_network_totals(&big), None);
    let edge = format!(
        "h\nh\n eth0: {} 1 0 0 0 0 0 0 1 1 0 0 0 0 0 0\n eth1: 1 1 0 0 0 0 0 0 1 1 0 0 0 0 0 0\n",
        u64::MAX - 1
    );
    assert_eq!(read_network_totals(&edge), Some((u64::MAX, 2)));
}

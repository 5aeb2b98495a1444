use security_center::admin::correlate::RuleIndex;
use security_center::admin::decode::{parse_ipv4_hex, parse_ipv6_hex, parse_port_hex, IpAddress};
use security_center::admin::exposure::{NetworkExposure, ScanError, SocketTables};
use security_center::admin::network::{
    get_service_name, FirewallStatus, ListeningEndpoint, Protocol,
};
use security_center::admin::process::{parse_pid, parse_socket_link, ProcessRecord};
use security_center::admin::scanner::{parse_proc_net, parse_proc_net_line, scan_table};
use security_center::admin::{assemble, update_firewall_status};
use security_center::models::Zone;
use security_center::rich_rule::{parse_port_string, parse_rich_rule_port};

const HEADER: &str = "  sl  local_address rem_address   st tx_queue rx_queue tr tm->when retrnsmt   uid  timeout inode";

fn row(local: &str, state: &str, inode: &str) -> String {
    format!(
        "   0: {} 00000000:0000 {} 00000000:00000000 00:00000000 00000000     0        0 {} 1 0000000000000000 100 0 0 10 0",
        local, state, inode
    )
}

fn table(rows: &[String]) -> String {
    let mut text = String::from(HEADER);
    text.push('\n');
    for r in rows {
        text.push_str(r);
        text.push('\n');
    }
    text
}

fn endpoint(addr: [u8; 4], port: u16, protocol: Protocol, inode: u64) -> ListeningEndpoint {
    ListeningEndpoint {
        local_addr: IpAddress::V4(addr),
        port,
        protocol,
        inode,
        pid: None,
        process_name: None,
        cmdline: None,
        firewall_status: FirewallStatus::Unknown,
    }
}

fn zone(name: &str, ports: &[&str], rules: &[&str]) -> Zone {
    let mut z = Zone::new(name);
    z.ports = ports.iter().map(|p| p.to_string()).collect();
    z.rich_rules = rules.iter().map(|r| r.to_string()).collect();
    z
}

#[test]
fn test_parse_ipv4() {
    // 0.0.0.0 in little-endian hex
    assert_eq!(parse_ipv4_hex("00000000"), Some([0, 0, 0, 0]));
    // 127.0.0.1 in little-endian hex
    assert_eq!(parse_ipv4_hex("0100007F"), Some([127, 0, 0, 1]));
}

#[test]
fn ipv4_reverses_the_digit_pairs() {
    assert_eq!(parse_ipv4_hex("0101A8C0"), Some([192, 168, 1, 1]));
    assert_eq!(parse_ipv4_hex("0101a8c0"), Some([192, 168, 1, 1]));
    assert_eq!(parse_ipv4_hex("FFFFFFFF"), Some([255, 255, 255, 255]));
}

#[test]
fn ipv4_rejects_wrong_length_and_other_characters() {
    assert_eq!(parse_ipv4_hex(""), None);
    assert_eq!(parse_ipv4_hex("0100007"), None);
    assert_eq!(parse_ipv4_hex("0100007F0"), None);
    assert_eq!(parse_ipv4_hex("0100007G"), None);
    assert_eq!(parse_ipv4_hex("+100007F"), None);
    assert_eq!(parse_ipv4_hex("0100 07F"), None);
}

#[test]
fn ipv6_reverses_each_word() {
    assert_eq!(
        parse_ipv6_hex("00000000000000000000000001000000"),
        Some(IpAddress::V6([0, 0, 0, 0, 0, 0, 0, 0, 0, 0, 0, 0, 0, 0, 0, 1]))
    );
    assert_eq!(
        parse_ipv6_hex("B80D01200000000067452301EFCDAB89"),
        Some(IpAddress::V6([
            0x20, 0x01, 0x0d, 0xb8, 0, 0, 0, 0, 0x01, 0x23, 0x45, 0x67, 0x89, 0xab, 0xcd, 0xef
        ]))
    );
    assert_eq!(
        parse_ipv6_hex("00000000000000000000000000000000"),
        Some(IpAddress::V6([0; 16]))
    );
}

#[test]
fn ipv6_rejects_wrong_length_and_other_characters() {
    assert_eq!(parse_ipv6_hex("0000000000000000000000000100000"), None);
    assert_eq!(parse_ipv6_hex("000000000000000000000000010000000"), None);
    assert_eq!(parse_ipv6_hex("0000000000000000000000000100000Z"), None);
    assert_eq!(parse_ipv6_hex("0100007F"), None);
}

#[test]
fn port_is_four_digits_most_significant_first() {
    assert_eq!(parse_port_hex("0016"), Some(22));
    assert_eq!(parse_port_hex("1F90"), Some(8080));
    assert_eq!(parse_port_hex("1f90"), Some(8080));
    assert_eq!(parse_port_hex("FFFF"), Some(65535));
    assert_eq!(parse_port_hex("0000"), Some(0));
    assert_eq!(parse_port_hex("16"), None);
    assert_eq!(parse_port_hex("00016"), None);
    assert_eq!(parse_port_hex("00G6"), None);
    assert_eq!(parse_port_hex(""), None);
}

#[test]
fn unspecified_addresses_are_exposed() {
    assert!(IpAddress::V4([0, 0, 0, 0]).is_unspecified());
    assert!(!IpAddress::V4([127, 0, 0, 1]).is_unspecified());
    assert!(IpAddress::V6([0; 16]).is_unspecified());
    assert!(!IpAddress::V6([0, 0, 0, 0, 0, 0, 0, 0, 0, 0, 0, 0, 0, 0, 0, 1]).is_unspecified());
}

#[test]
fn listening_tcp_row_is_read() {
    let line = row("0100007F:0016", "0A", "12345");
    let e = parse_proc_net_line(&line, Protocol::Tcp, false).expect("a listening row");
    assert_eq!(e.local_addr, IpAddress::V4([127, 0, 0, 1]));
    assert_eq!(e.port, 22);
    assert_eq!(e.protocol, Protocol::Tcp);
    assert_eq!(e.inode, 12345);
    assert_eq!(e.pid, None);
    assert_eq!(e.process_name, None);
    assert_eq!(e.cmdline, None);
    assert_eq!(e.firewall_status, FirewallStatus::Unknown);
}

#[test]
fn tcp_row_in_another_state_never_appears() {
    let time_wait = row("0100007F:0016", "06", "12345");
    assert!(parse_proc_net_line(&time_wait, Protocol::Tcp, false).is_none());
    let established = row("0100007F:0016", "01", "12345");
    assert!(parse_proc_net_line(&established, Protocol::Tcp, false).is_none());
    let text = table(&[
        row("00000000:0050", "06", "1"),
        row("00000000:0051", "0A", "2"),
        row("00000000:0052", "01", "3"),
    ]);
    let found = parse_proc_net(&text, Protocol::Tcp, false);
    assert_eq!(found.len(), 1);
    assert_eq!(found[0].port, 0x51);
}

#[test]
fn udp_row_counts_in_any_state() {
    let line = row("00000000:0035", "07", "77");
    let e = parse_proc_net_line(&line, Protocol::Udp, false).expect("a bound row");
    assert_eq!(e.port, 53);
    assert_eq!(e.protocol, Protocol::Udp);
    let unreadable_state = row("00000000:0035", "ZZ", "77");
    assert!(parse_proc_net_line(&unreadable_state, Protocol::Udp, false).is_none());
}

#[test]
fn malformed_rows_are_passed_over() {
    // too few fields
    assert!(parse_proc_net_line("0: 0100007F:0016 00000000:0000 0A", Protocol::Tcp, false).is_none());
    // port zero
    assert!(parse_proc_net_line(&row("0100007F:0000", "0A", "5"), Protocol::Tcp, false).is_none());
    // address of the other family
    assert!(parse_proc_net_line(&row("0100007F:0016", "0A", "5"), Protocol::Tcp, true).is_none());
    // no colon, two colons
    assert!(parse_proc_net_line(&row("0100007F0016", "0A", "5"), Protocol::Tcp, false).is_none());
    assert!(parse_proc_net_line(&row("0100007F:00:16", "0A", "5"), Protocol::Tcp, false).is_none());
    // inode that is no number
    assert!(parse_proc_net_line(&row("0100007F:0016", "0A", "x5"), Protocol::Tcp, false).is_none());
    // empty line
    assert!(parse_proc_net_line("", Protocol::Tcp, false).is_none());
}

#[test]
fn ipv6_row_is_read() {
    let line = row("00000000000000000000000000000000:01BB", "0A", "9");
    let e = parse_proc_net_line(&line, Protocol::Tcp, true).expect("a listening row");
    assert_eq!(e.local_addr, IpAddress::V6([0; 16]));
    assert_eq!(e.port, 443);
}

#[test]
fn header_is_skipped_and_order_is_kept() {
    let text = table(&[
        row("00000000:1F90", "0A", "3"),
        row("00000000:0016", "0A", "1"),
        String::from("garbage"),
        row("00000000:0050", "0A", "2"),
    ]);
    let found = parse_proc_net(&text, Protocol::Tcp, false);
    let ports: Vec<u16> = found.iter().map(|e| e.port).collect();
    assert_eq!(ports, vec![8080, 22, 80]);
    assert!(parse_proc_net("", Protocol::Tcp, false).is_empty());
    assert!(parse_proc_net(HEADER, Protocol::Tcp, false).is_empty());
    // a first line is the header even where it looks like a row
    let headless = format!("{}\n", row("00000000:0016", "0A", "1"));
    assert!(parse_proc_net(&headless, Protocol::Tcp, false).is_empty());
}

#[test]
fn rows_may_end_in_carriage_returns() {
    let text = format!("{}\r\n{}\r\n", HEADER, row("00000000:0016", "0A", "1"));
    let found = parse_proc_net(&text, Protocol::Tcp, false);
    assert_eq!(found.len(), 1);
    assert_eq!(found[0].inode, 1);
}

#[test]
fn scanning_twice_gives_the_same_list() {
    let text = table(&[
        row("00000000:1F90", "0A", "3"),
        row("0100007F:0016", "0A", "1"),
        row("00000000:0016", "0A", "4"),
        row("00000000:0050", "06", "2"),
    ]);
    let first = parse_proc_net(&text, Protocol::Tcp, false);
    let second = parse_proc_net(&text, Protocol::Tcp, false);
    assert_eq!(first.len(), second.len());
    for (a, b) in first.iter().zip(second.iter()) {
        assert_eq!(a.local_addr, b.local_addr);
        assert_eq!(a.port, b.port);
        assert_eq!(a.protocol, b.protocol);
        assert_eq!(a.inode, b.inode);
    }
    let tables = SocketTables { tcp: Some(text), tcp6: None, udp: None, udp6: None };
    let records: Vec<ProcessRecord> = Vec::new();
    let mut exposure = NetworkExposure::new();
    let one = exposure.scan(Some(&records), &tables, None).expect("a list");
    let two = exposure.scan(Some(&records), &tables, None).expect("a list");
    assert_eq!(one.len(), 2);
    assert_eq!(one.len(), two.len());
    for (a, b) in one.iter().zip(two.iter()) {
        assert_eq!(a.local_addr, b.local_addr);
        assert_eq!(a.port, b.port);
        assert_eq!(a.protocol, b.protocol);
        assert_eq!(a.inode, b.inode);
        assert_eq!(a.firewall_status, b.firewall_status);
    }
}

#[test]
fn one_endpoint_per_port_and_protocol() {
    let list = vec![
        endpoint([127, 0, 0, 1], 80, Protocol::Tcp, 1),
        endpoint([0, 0, 0, 0], 80, Protocol::Tcp, 2),
    ];
    let out = assemble(&list);
    assert_eq!(out.len(), 1);
    assert_eq!(out[0].local_addr, IpAddress::V4([127, 0, 0, 1]));
    assert_eq!(out[0].inode, 1);
}

#[test]
fn endpoints_are_sorted_by_port_then_protocol() {
    let list = vec![
        endpoint([0, 0, 0, 0], 443, Protocol::Tcp, 1),
        endpoint([0, 0, 0, 0], 53, Protocol::Udp, 2),
        endpoint([0, 0, 0, 0], 53, Protocol::Tcp, 3),
        endpoint([0, 0, 0, 0], 22, Protocol::Tcp, 4),
        endpoint([10, 0, 0, 1], 53, Protocol::Udp, 5),
        endpoint([0, 0, 0, 0], 65535, Protocol::Udp, 6),
    ];
    let out = assemble(&list);
    let keys: Vec<(u16, Protocol, u64)> = out.iter().map(|e| (e.port, e.protocol, e.inode)).collect();
    assert_eq!(
        keys,
        vec![
            (22, Protocol::Tcp, 4),
            (53, Protocol::Tcp, 3),
            (53, Protocol::Udp, 2),
            (443, Protocol::Tcp, 1),
            (65535, Protocol::Udp, 6),
        ]
    );
    assert!(assemble(&Vec::new()).is_empty());
}

#[test]
fn pid_is_a_run_of_digits() {
    assert_eq!(parse_pid("1"), Some(1));
    assert_eq!(parse_pid("4294967295"), Some(4294967295));
    assert_eq!(parse_pid("4294967296"), None);
    assert_eq!(parse_pid("self"), None);
    assert_eq!(parse_pid("+1"), None);
    assert_eq!(parse_pid(""), None);
    assert_eq!(parse_pid("12a"), None);
}

#[test]
fn socket_link_names_its_inode() {
    assert_eq!(parse_socket_link("socket:[12345]"), Some(12345));
    assert_eq!(parse_socket_link("socket:[0]"), Some(0));
    assert_eq!(parse_socket_link("socket:[18446744073709551615]"), Some(u64::MAX));
    assert_eq!(parse_socket_link("socket:[18446744073709551616]"), None);
    assert_eq!(parse_socket_link("socket:[]"), None);
    assert_eq!(parse_socket_link("socket:["), None);
    assert_eq!(parse_socket_link("socket:[12"), None);
    assert_eq!(parse_socket_link("pipe:[12345]"), None);
    assert_eq!(parse_socket_link("socket:[+5]"), None);
    assert_eq!(parse_socket_link("/dev/null"), None);
}

fn record(pid: u32, comm: Option<&str>, cmdline: Option<&str>, links: Option<&[&str]>) -> ProcessRecord {
    ProcessRecord {
        pid,
        comm: comm.map(|s| s.to_string()),
        cmdline: cmdline.map(|s| s.to_string()),
        socket_links: links.map(|l| l.iter().map(|s| s.to_string()).collect()),
    }
}

#[test]
fn endpoints_are_tied_to_their_processes() {
    let tables = SocketTables {
        tcp: Some(table(&[
            row("00000000:0016", "0A", "100"),
            row("00000000:0050", "0A", "200"),
            row("00000000:01BB", "0A", "300"),
            row("00000000:1F90", "0A", "400"),
        ])),
        tcp6: None,
        udp: Some(table(&[row("00000000:0035", "07", "500")])),
        udp6: None,
    };
    let records = vec![
        record(10, Some("sshd\n"), Some("/usr/sbin/sshd\0-D\0"), Some(&["socket:[100]", "/dev/null"])),
        record(20, None, None, Some(&["socket:[200]"])),
        // not readable: adds nothing
        record(30, Some("nginx\n"), Some("nginx"), None),
        // a later process that claims the same inode is kept
        record(40, Some("first\n"), Some("first"), Some(&["socket:[500]"])),
        record(50, Some("second\n"), Some("second"), Some(&["socket:[500]"])),
    ];
    let mut exposure = NetworkExposure::new();
    let list = exposure.scan(Some(&records), &tables, None).expect("a list");
    assert_eq!(list.len(), 5);
    assert_eq!(list[0].port, 22);
    assert_eq!(list[0].pid, Some(10));
    assert_eq!(list[0].process_name.as_deref(), Some("sshd"));
    assert_eq!(list[0].cmdline.as_deref(), Some("/usr/sbin/sshd -D"));
    assert_eq!(list[1].port, 53);
    assert_eq!(list[1].protocol, Protocol::Udp);
    assert_eq!(list[1].pid, Some(50));
    assert_eq!(list[1].process_name.as_deref(), Some("second"));
    assert_eq!(list[2].port, 80);
    assert_eq!(list[2].pid, Some(20));
    assert_eq!(list[2].process_name.as_deref(), Some("unknown"));
    assert_eq!(list[2].cmdline.as_deref(), Some(""));
    assert_eq!(list[3].port, 443);
    assert_eq!(list[3].pid, None);
    assert_eq!(list[3].process_name, None);
    assert_eq!(list[3].cmdline, None);
    assert_eq!(list[4].port, 8080);
    assert_eq!(list[4].pid, None);
}

#[test]
fn scan_fails_only_where_nothing_could_be_read() {
    let records: Vec<ProcessRecord> = Vec::new();
    let tables = SocketTables {
        tcp: Some(table(&[row("00000000:0016", "0A", "100")])),
        tcp6: None,
        udp: None,
        udp6: None,
    };
    let none = SocketTables { tcp: None, tcp6: None, udp: None, udp6: None };
    let empty = SocketTables { tcp: None, tcp6: None, udp: None, udp6: Some(String::new()) };
    let mut exposure = NetworkExposure::new();
    assert_eq!(exposure.scan(None, &tables, None).err(), Some(ScanError::ProcessTable));
    assert_eq!(exposure.scan(None, &none, None).err(), Some(ScanError::ProcessTable));
    assert_eq!(exposure.scan(Some(&records), &none, None).err(), Some(ScanError::SocketTables));
    // zero results are no failure
    assert_eq!(exposure.scan(Some(&records), &empty, None).map(|l| l.len()).ok(), Some(0));
    assert_eq!(exposure.scan(Some(&records), &tables, None).map(|l| l.len()).ok(), Some(1));
}

#[test]
fn unreachable_firewall_leaves_every_status_unknown() {
    let tables = SocketTables {
        tcp: Some(table(&[row("00000000:0016", "0A", "100"), row("00000000:0050", "0A", "200")])),
        tcp6: Some(table(&[row("00000000000000000000000000000000:0016", "0A", "300")])),
        udp: Some(table(&[row("00000000:0035", "07", "500")])),
        udp6: None,
    };
    let records: Vec<ProcessRecord> = Vec::new();
    let mut exposure = NetworkExposure::new();
    let list = exposure.scan(Some(&records), &tables, None).expect("a list");
    assert_eq!(list.len(), 3);
    for e in &list {
        assert_eq!(e.firewall_status, FirewallStatus::Unknown);
    }
}

#[test]
fn rich_rule_mini_parser() {
    assert_eq!(
        parse_rich_rule_port("rule family=\"ipv4\" port port=\"443\" protocol=\"tcp\" reject"),
        Some((443, "tcp".to_string()))
    );
    assert_eq!(parse_rich_rule_port("rule family=\"ipv4\" port port=\"443\" reject"), None);
    assert_eq!(parse_rich_rule_port("rule family=\"ipv4\" protocol=\"tcp\" reject"), None);
    assert_eq!(
        parse_rich_rule_port("rule port port=\"53\" protocol=\"UDP\" drop"),
        Some((53, "udp".to_string()))
    );
    assert_eq!(parse_rich_rule_port("rule port port=\"http\" protocol=\"tcp\" drop"), None);
    assert_eq!(parse_rich_rule_port("rule port port=\"65536\" protocol=\"tcp\" drop"), None);
    assert_eq!(parse_rich_rule_port("rule port port=\"80 protocol=\"tcp\" drop"), None);
    assert_eq!(parse_rich_rule_port("rule port port=\"80\" protocol=\"tcp"), None);
    assert_eq!(parse_rich_rule_port("rule service name=\"ssh\" accept"), None);
    assert_eq!(parse_rich_rule_port(""), None);
    // the first clause of each kind counts
    assert_eq!(
        parse_rich_rule_port("protocol=\"sctp\" port port=\"1\" protocol=\"tcp\" port port=\"2\""),
        Some((1, "sctp".to_string()))
    );
}

#[test]
fn lower_case_reaches_beyond_ascii() {
    assert_eq!(
        parse_rich_rule_port("rule port port=\"1\" protocol=\"TCP\u{c9}\" drop"),
        Some((1, "tcp\u{e9}".to_string()))
    );
    assert_eq!(parse_port_string("80/\u{c9}"), Some((80, "\u{e9}".to_string())));
}

#[test]
fn port_entries_are_port_slash_protocol() {
    assert_eq!(parse_port_string("80/tcp"), Some((80, "tcp".to_string())));
    assert_eq!(parse_port_string("53/UDP"), Some((53, "udp".to_string())));
    assert_eq!(parse_port_string("80"), None);
    assert_eq!(parse_port_string("80/tcp/x"), None);
    assert_eq!(parse_port_string("1000-2000/tcp"), None);
    assert_eq!(parse_port_string("/tcp"), None);
    assert_eq!(parse_port_string("80/"), Some((80, String::new())));
    assert_eq!(parse_port_string("65535/tcp"), Some((65535, "tcp".to_string())));
    assert_eq!(parse_port_string("65536/tcp"), None);
}

#[test]
fn reject_has_priority_over_allow() {
    let zones = vec![
        zone("public", &["22/tcp", "80/tcp"], &[]),
        zone("dmz", &[], &["rule family=\"ipv4\" port port=\"22\" protocol=\"tcp\" reject"]),
        zone("home", &["443/tcp"], &["rule family=\"ipv4\" port port=\"443\" protocol=\"tcp\" accept"]),
    ];
    let mut list = vec![
        endpoint([0, 0, 0, 0], 22, Protocol::Tcp, 1),
        endpoint([0, 0, 0, 0], 22, Protocol::Udp, 2),
        endpoint([0, 0, 0, 0], 80, Protocol::Tcp, 3),
        endpoint([0, 0, 0, 0], 443, Protocol::Tcp, 4),
        endpoint([0, 0, 0, 0], 8080, Protocol::Tcp, 5),
    ];
    update_firewall_status(&mut list, Some(&zones));
    assert_eq!(list[0].firewall_status, FirewallStatus::Blocked);
    assert_eq!(list[1].firewall_status, FirewallStatus::Unknown);
    assert_eq!(list[2].firewall_status, FirewallStatus::Allowed { zone: "public".to_string() });
    assert_eq!(list[3].firewall_status, FirewallStatus::Allowed { zone: "home".to_string() });
    assert_eq!(list[4].firewall_status, FirewallStatus::Unknown);
    // the other order of zones gives the same
    let reversed = vec![
        zone("dmz", &[], &["rule family=\"ipv4\" port port=\"22\" protocol=\"tcp\" drop"]),
        zone("public", &["22/tcp"], &[]),
    ];
    let mut again = vec![endpoint([0, 0, 0, 0], 22, Protocol::Tcp, 1)];
    update_firewall_status(&mut again, Some(&reversed));
    assert_eq!(again[0].firewall_status, FirewallStatus::Blocked);
}

#[test]
fn last_zone_that_lists_a_port_is_kept() {
    let zones = vec![
        zone("public", &["80/tcp"], &[]),
        zone("home", &["80/TCP", "53/udp"], &[]),
        zone("work", &["53/tcp"], &[]),
    ];
    let index = RuleIndex::build(&zones);
    assert_eq!(index.classify(80, Protocol::Tcp), FirewallStatus::Allowed { zone: "home".to_string() });
    assert_eq!(index.classify(53, Protocol::Udp), FirewallStatus::Allowed { zone: "home".to_string() });
    assert_eq!(index.classify(53, Protocol::Tcp), FirewallStatus::Allowed { zone: "work".to_string() });
    assert_eq!(index.classify(81, Protocol::Tcp), FirewallStatus::Unknown);
    assert!(!index.is_blocked(80, "tcp"));
    assert_eq!(index.allowed_zone(80, "tcp").as_deref(), Some("home"));
    assert_eq!(index.allowed_zone(80, "udp"), None);
}

#[test]
fn no_snapshot_and_no_match_leave_the_status() {
    let mut list = vec![endpoint([0, 0, 0, 0], 22, Protocol::Tcp, 1)];
    list[0].firewall_status = FirewallStatus::Blocked;
    update_firewall_status(&mut list, None);
    assert_eq!(list[0].firewall_status, FirewallStatus::Blocked);
    let zones = vec![zone("public", &["80/tcp"], &[])];
    update_firewall_status(&mut list, Some(&zones));
    assert_eq!(list[0].firewall_status, FirewallStatus::Blocked);
}

#[test]
fn scan_gives_each_endpoint_its_status() {
    let tables = SocketTables {
        tcp: Some(table(&[row("00000000:0016", "0A", "100"), row("00000000:0050", "0A", "200")])),
        tcp6: None,
        udp: None,
        udp6: None,
    };
    let zones = vec![
        zone("public", &["22/tcp", "80/tcp"], &["rule port port=\"80\" protocol=\"tcp\" drop"]),
    ];
    let records: Vec<ProcessRecord> = Vec::new();
    let mut exposure = NetworkExposure::new();
    let list = exposure.scan(Some(&records), &tables, Some(&zones)).expect("a list");
    assert_eq!(list.len(), 2);
    assert_eq!(list[0].firewall_status, FirewallStatus::Allowed { zone: "public".to_string() });
    assert_eq!(list[1].firewall_status, FirewallStatus::Blocked);
}

#[test]
fn statuses_have_icons_and_labels() {
    let allowed = FirewallStatus::Allowed { zone: "public".to_string() };
    assert_eq!(allowed.icon(), "security-low-symbolic");
    assert_eq!(allowed.label(), "Allowed (public)");
    assert_eq!(FirewallStatus::Blocked.icon(), "security-high-symbolic");
    assert_eq!(FirewallStatus::Blocked.label(), "Blocked");
    assert_eq!(FirewallStatus::Unknown.icon(), "security-medium-symbolic");
    assert_eq!(FirewallStatus::Unknown.label(), "Not Checked");
    assert_eq!(FirewallStatus::default(), FirewallStatus::Unknown);
    assert_eq!(Protocol::Tcp.as_str(), "TCP");
    assert_eq!(Protocol::Udp.as_str(), "UDP");
    assert_eq!(Protocol::Tcp.as_rule_str(), "tcp");
    assert_eq!(Protocol::Udp.as_rule_str(), "udp");
}

#[test]
fn endpoints_warn_when_exposed_and_allowed() {
    let mut e = endpoint([0, 0, 0, 0], 22, Protocol::Tcp, 1);
    assert!(e.is_exposed());
    assert_eq!(e.warning(), None);
    assert_eq!(e.display_name(), "Port 22");
    e.firewall_status = FirewallStatus::Allowed { zone: "public".to_string() };
    assert_eq!(e.warning(), Some("Exposed to public network"));
    e.firewall_status = FirewallStatus::Allowed { zone: "external".to_string() };
    assert_eq!(e.warning(), Some("Exposed to public network"));
    e.firewall_status = FirewallStatus::Allowed { zone: "home".to_string() };
    assert_eq!(e.warning(), Some("Listening on all interfaces"));
    e.firewall_status = FirewallStatus::Blocked;
    assert_eq!(e.warning(), None);
    e.process_name = Some("sshd".to_string());
    assert_eq!(e.display_name(), "sshd (22)");
    let mut local = endpoint([127, 0, 0, 1], 22, Protocol::Tcp, 1);
    local.firewall_status = FirewallStatus::Allowed { zone: "public".to_string() };
    assert!(!local.is_exposed());
    assert_eq!(local.warning(), None);
}

#[test]
fn well_known_ports_have_names() {
    assert_eq!(get_service_name(22), Some("SSH"));
    assert_eq!(get_service_name(23), Some("Telnet"));
    assert_eq!(get_service_name(443), Some("HTTPS"));
    assert_eq!(get_service_name(587), Some("Submission"));
    assert_eq!(get_service_name(27017), Some("MongoDB"));
    assert_eq!(get_service_name(8443), Some("HTTPS Alt"));
    assert_eq!(get_service_name(1), None);
    assert_eq!(get_service_name(0), None);
}

#[test]
fn rows_that_are_passed_over_are_counted() {
    let text = table(&[
        row("00000000:0016", "0A", "1"),
        row("00000000:0050", "06", "2"),
        String::from("garbage"),
        String::new(),
        row("00000000:0000", "0A", "3"),
        row("00000000:01BB", "0A", "4"),
    ]);
    let scan = scan_table(&text, Protocol::Tcp, false);
    assert_eq!(scan.endpoints.len(), 2);
    assert_eq!(scan.skipped, 4);
    let same_as_udp = scan_table(&text, Protocol::Udp, false);
    assert_eq!(same_as_udp.endpoints.len(), 3);
    assert_eq!(same_as_udp.skipped, 3);
    let empty = scan_table("", Protocol::Tcp, false);
    assert_eq!((empty.endpoints.len(), empty.skipped), (0, 0));
    let header_only = scan_table(HEADER, Protocol::Tcp, false);
    assert_eq!((header_only.endpoints.len(), header_only.skipped), (0, 0));
}

use security_center::admin::actions::{
    command_failure, daemon_reload_failure, is_authentication_cancelled, plan_action, quick_actions,
    ActionCategory, ActionStep, AdminActionResult,
};
use security_center::autostart::{
    autostart_file_name, desktop_entry, is_autostart_enabled, set_autostart, AutostartAction,
};
use security_center::casing::{to_lowercase, to_uppercase};
use security_center::config::{default_height, default_theme, default_width, AppSettings, Settings};
use security_center::firewall::client::{
    build_interfaces, build_services, build_zone, is_already_enabled, is_not_enabled, port_entries,
};
use security_center::firewall::{interfaces, paths, zone_description, FirewallEvent, BUS_NAME};
use security_center::lexical::with_distinct;
use security_center::numeric::{decimal_chars, parse_unsigned_chars};
use security_center::split::{split_chars, split_fields, split_lines, trim_chars};
use security_center::stats::{
    CachedTrafficRatio, ConnectionCollector, ConnectionStats, InternalTimeSeries, StatsCache,
    TrafficCollector, TrafficCounters,
};
use security_center::stats::collectors::{estimate_dropped_packets, read_accepted};
use security_center::storage::{PortMetadata, PortStorage};
use security_center::systemd::{ServiceInfo, ServiceState};
use security_center::text::{chars_of, str_contains, str_eq, str_starts_with, string_of};
use security_center::version_check::{
    evaluate_release, is_newer, latest_release_url, user_agent, version_of_tag,
};

fn text(v: &Vec<char>) -> String {
    v.iter().collect()
}

fn texts(v: &Vec<Vec<char>>) -> Vec<String> {
    v.iter().map(text).collect()
}

#[test]
fn test_is_newer() {
    assert!(is_newer("1.1.0", "1.0.0"));
    assert!(is_newer("2.0.0", "1.9.9"));
    assert!(is_newer("1.0.1", "1.0.0"));
    assert!(!is_newer("1.0.0", "1.0.0"));
    assert!(!is_newer("0.9.0", "1.0.0"));
    assert!(is_newer("1.0.0.1", "1.0.0"));
}

#[test]
fn versions_compare_part_by_part() {
    assert!(!is_newer("1.0.0", "1.0.0.1"));
    assert!(!is_newer("1.0", "1.0.0"));
    assert!(!is_newer("1.0.0", "1.0"));
    assert!(is_newer("1.10", "1.9"));
    assert!(!is_newer("1.9", "1.10"));
    // a part that is no number counts as zero
    assert!(!is_newer("1.beta", "1.0"));
    assert!(is_newer("1.1", "1.beta"));
    assert!(!is_newer("", ""));
    assert!(is_newer("1", ""));
    assert!(!is_newer("x", "y"));
    assert!(is_newer("18446744073709551615", "18446744073709551614"));
    assert!(!is_newer("18446744073709551616", "0"));
}

#[test]
fn release_tags_lose_their_v() {
    assert_eq!(version_of_tag("v1.2.0"), "1.2.0");
    assert_eq!(version_of_tag("V1.2.0"), "1.2.0");
    assert_eq!(version_of_tag("vvV1.2.0"), "1.2.0");
    assert_eq!(version_of_tag("Vv1.2.0"), "v1.2.0");
    assert_eq!(version_of_tag("1.2.0"), "1.2.0");
    assert_eq!(version_of_tag("v"), "");
    assert_eq!(version_of_tag(""), "");
}

#[test]
fn a_release_is_an_update_only_when_newer() {
    let info = evaluate_release("1.0.0", "v1.2.0", "https://example.org/r", &Some("Spring".to_string()))
        .expect("an update");
    assert_eq!(info.latest_version, "1.2.0");
    assert_eq!(info.download_url, "https://example.org/r");
    assert_eq!(info.release_name, "Spring");
    let unnamed = evaluate_release("1.0.0", "1.0.1", "u", &None).expect("an update");
    assert_eq!(unnamed.release_name, "");
    assert!(evaluate_release("1.2.0", "v1.2.0", "u", &None).is_none());
    assert!(evaluate_release("2.0.0", "v1.2.0", "u", &None).is_none());
    assert_eq!(
        latest_release_url(),
        "https://api.github.com/repos/christosdaggas/security-center/releases/latest"
    );
    assert_eq!(user_agent("1.0.0"), "security-center/1.0.0");
}

#[test]
fn service_states() {
    assert_eq!(ServiceState::from_str("running"), ServiceState::Running);
    assert_eq!(ServiceState::from_str("exited"), ServiceState::Stopped);
    assert_eq!(ServiceState::from_str("dead"), ServiceState::Stopped);
    assert_eq!(ServiceState::from_str("inactive"), ServiceState::Stopped);
    assert_eq!(ServiceState::from_str("failed"), ServiceState::Failed);
    assert_eq!(ServiceState::from_str("Running"), ServiceState::Unknown);
    assert_eq!(ServiceState::from_str(""), ServiceState::Unknown);
    assert_eq!(ServiceState::Running.css_class(), "success");
    assert_eq!(ServiceState::Stopped.css_class(), "dim-label");
    assert_eq!(ServiceState::Failed.css_class(), "error");
    assert_eq!(ServiceState::Unknown.css_class(), "warning");
    assert_eq!(ServiceState::Running.listing_rank(), 0);
    assert_eq!(ServiceState::Failed.listing_rank(), 1);
    assert_eq!(ServiceState::Stopped.listing_rank(), 2);
    assert_eq!(ServiceState::Unknown.listing_rank(), 3);
}

#[test]
fn service_info_by_name() {
    let info = ServiceInfo::new("sshd.service");
    assert_eq!(info.name, "sshd.service");
    assert_eq!(info.display_name, "sshd");
    assert_eq!(info.description, "");
    assert_eq!(info.state, ServiceState::Unknown);
    assert!(!info.is_enabled);
    assert_eq!(info.unit_path, "");
    assert_eq!(info.main_pid, 0);
    assert_eq!(info.memory_current, None);
    assert_eq!(info.memory_display(), None);
    assert_eq!(ServiceInfo::new("a.service.service").display_name, "a");
    assert_eq!(ServiceInfo::new(".service").display_name, "");
    assert_eq!(ServiceInfo::new("a.socket").display_name, "a.socket");
    assert_eq!(ServiceInfo::new("a.service.x").display_name, "a.service.x");
    assert_eq!(ServiceInfo::new("").display_name, "");
}

#[test]
fn service_info_from_answers() {
    let running = ServiceInfo::from_properties(
        "sshd.service",
        "/org/freedesktop/systemd1/unit/sshd_2eservice",
        Some("OpenSSH".to_string()),
        Some("running".to_string()),
        Some("enabled".to_string()),
        Some(812),
        Some(2048),
    );
    assert_eq!(running.display_name, "sshd");
    assert_eq!(running.unit_path, "/org/freedesktop/systemd1/unit/sshd_2eservice");
    assert_eq!(running.description, "OpenSSH");
    assert_eq!(running.state, ServiceState::Running);
    assert!(running.is_enabled);
    assert_eq!(running.main_pid, 812);
    assert_eq!(running.memory_current, Some(2048));
    let unmeasured = ServiceInfo::from_properties(
        "a.service",
        "p",
        None,
        Some("running".to_string()),
        Some("static".to_string()),
        None,
        Some(u64::MAX),
    );
    assert!(unmeasured.is_enabled);
    assert_eq!(unmeasured.main_pid, 0);
    assert_eq!(unmeasured.memory_current, None);
    let stopped = ServiceInfo::from_properties(
        "a.service",
        "p",
        None,
        Some("dead".to_string()),
        Some("disabled".to_string()),
        Some(9),
        Some(9),
    );
    assert_eq!(stopped.state, ServiceState::Stopped);
    assert!(!stopped.is_enabled);
    assert_eq!(stopped.main_pid, 0);
    assert_eq!(stopped.memory_current, None);
    let silent = ServiceInfo::from_properties("a.service", "p", None, None, None, Some(9), Some(9));
    assert_eq!(silent.state, ServiceState::Unknown);
    assert_eq!(silent.main_pid, 0);
}

fn by_floats(bytes: u64) -> String {
    if bytes >= 1024 * 1024 * 1024 {
        format!("{:.1} GB", bytes as f64 / (1024.0 * 1024.0 * 1024.0))
    } else if bytes >= 1024 * 1024 {
        format!("{:.1} MB", bytes as f64 / (1024.0 * 1024.0))
    } else if bytes >= 1024 {
        format!("{:.1} KB", bytes as f64 / 1024.0)
    } else {
        format!("{} B", bytes)
    }
}

fn shown(bytes: u64) -> String {
    let mut info = ServiceInfo::new("x.service");
    info.memory_current = Some(bytes);
    info.memory_display().expect("a size")
}

#[test]
fn memory_sizes_for_reading() {
    assert_eq!(shown(0), "0 B");
    assert_eq!(shown(1023), "1023 B");
    assert_eq!(shown(1024), "1.0 KB");
    assert_eq!(shown(1536), "1.5 KB");
    assert_eq!(shown(1280), "1.2 KB");
    assert_eq!(shown(1408), "1.4 KB");
    assert_eq!(shown(1048575), "1024.0 KB");
    assert_eq!(shown(1048576), "1.0 MB");
    assert_eq!(shown(1073741824), "1.0 GB");
    assert_eq!(shown(5 * 1073741824 + 536870912), "5.5 GB");
    assert_eq!(shown(u64::MAX), "17179869184.0 GB");
}

#[test]
fn memory_sizes_are_those_of_floating_point() {
    let mut samples: Vec<u64> = vec![
        0,
        1,
        1023,
        1024,
        1025,
        1075,
        1076,
        1280,
        1281,
        1408,
        1535,
        1536,
        1537,
        (1 << 20) - 1,
        1 << 20,
        (1 << 20) + 52428,
        (1 << 20) + 52429,
        (1 << 30) - 1,
        1 << 30,
        (1 << 30) + 53687091,
        (1 << 30) + 53687092,
        (1 << 53) - 1,
        1 << 53,
        (1 << 53) + 1,
        (1 << 53) + 2,
        (1 << 53) + 3,
        (1 << 54) + 2,
        (1 << 54) + 6,
        (1 << 60) + 127,
        (1 << 60) + 128,
        (1 << 60) + 129,
        (1 << 63) + 1024,
        (1 << 63) + 1025,
        (1 << 63) + 3072,
        u64::MAX - 2048,
        u64::MAX - 1024,
        u64::MAX - 1023,
        u64::MAX - 1,
        u64::MAX,
    ];
    let mut x: u64 = 0x9E37_79B9_7F4A_7C15;
    for shift in 0..64 {
        for _ in 0..40 {
            x ^= x << 13;
            x ^= x >> 7;
            x ^= x << 17;
            samples.push(x >> shift);
        }
    }
    for k in 0..4000u64 {
        samples.push(1024 + k * 51 + k / 5);
        samples.push((1 << 20) + k * 26214);
        samples.push((1 << 30) + k * 26843545);
    }
    for bytes in samples {
        assert_eq!(shown(bytes), by_floats(bytes), "for {} bytes", bytes);
    }
}

fn metadata(name: &str, incoming: &str, outgoing: &str) -> PortMetadata {
    PortMetadata::deny_rule_created(80, "tcp", "public", incoming, outgoing, name, "2024-01-02 03:04:05".to_string())
}

#[test]
fn port_metadata_constructors() {
    let m = PortMetadata::new("web");
    assert_eq!(m.name, "web");
    assert_eq!(m.description, "");
    assert_eq!(m.incoming_action, "");
    assert_eq!(m.outgoing_action, "");
    assert_eq!(m.zone, "");
    assert_eq!(m.protocol, "");
    assert_eq!(m.port, 0);
    let stamp: Vec<char> = m.created_at.chars().collect();
    assert_eq!(stamp.len(), 19);
    assert_eq!(stamp[4], '-');
    assert_eq!(stamp[10], ' ');
    assert_eq!(stamp[13], ':');
    let d = PortMetadata::with_description("web", "the web server");
    assert_eq!(d.name, "web");
    assert_eq!(d.description, "the web server");
    assert_eq!(d.port, 0);
    let r = PortMetadata::deny_rule(443, "tcp", "public", "deny", "allow", "block https");
    assert_eq!(r.name, "block https");
    assert_eq!(r.description, "");
    assert_eq!(r.incoming_action, "deny");
    assert_eq!(r.outgoing_action, "allow");
    assert_eq!(r.zone, "public");
    assert_eq!(r.protocol, "tcp");
    assert_eq!(r.port, 443);
    let c = PortMetadata::created("a", "b", "then".to_string());
    assert_eq!(c.created_at, "then");
    assert_eq!(c.clone().description, "b");
    assert_eq!(PortMetadata::default().name, "");
}

#[test]
fn port_storage_keeps_one_entry_per_key() {
    let mut s = PortStorage::new();
    assert!(!s.is_loaded());
    assert!(!s.is_dirty());
    s.ensure_loaded(None);
    assert!(s.is_loaded());
    assert!(!s.is_dirty());
    assert!(s.keys().is_empty());
    assert!(!s.has("80/tcp"));
    assert!(s.get("80/tcp").is_none());
    s.set("80/tcp".to_string(), metadata("web", "allow", ""));
    assert!(s.is_dirty());
    s.mark_saved();
    assert!(!s.is_dirty());
    s.set("22/tcp".to_string(), metadata("shell", "deny", ""));
    s.set("53/udp".to_string(), metadata("dns", "", "deny"));
    s.set("80/tcp".to_string(), metadata("web again", "", ""));
    assert_eq!(s.keys(), vec!["80/tcp", "22/tcp", "53/udp"]);
    assert!(s.has("22/tcp"));
    assert_eq!(s.get("80/tcp").map(|m| m.name), Some("web again".to_string()));
    let all: Vec<String> = s.get_all().into_iter().map(|m| m.name).collect();
    assert_eq!(all, vec!["web again", "shell", "dns"]);
    let denied: Vec<String> = s.get_deny_rules().into_iter().map(|m| m.name).collect();
    assert_eq!(denied, vec!["shell", "dns"]);
    s.mark_saved();
    s.remove("nothing");
    assert!(!s.is_dirty());
    assert_eq!(s.keys().len(), 3);
    s.remove("22/tcp");
    assert!(s.is_dirty());
    assert_eq!(s.keys(), vec!["80/tcp", "53/udp"]);
    assert!(!s.has("22/tcp"));
}

#[test]
fn port_storage_takes_in_what_was_stored_once() {
    let stored = vec![
        ("a".to_string(), metadata("one", "", "")),
        ("b".to_string(), metadata("two", "", "")),
        ("a".to_string(), metadata("three", "", "")),
    ];
    let mut s = PortStorage::default();
    s.ensure_loaded(Some(stored));
    assert!(s.is_loaded());
    assert!(!s.is_dirty());
    assert_eq!(s.keys(), vec!["a", "b"]);
    assert_eq!(s.get("a").map(|m| m.name), Some("three".to_string()));
    s.set("c".to_string(), metadata("four", "", ""));
    s.ensure_loaded(Some(vec![("z".to_string(), metadata("late", "", ""))]));
    assert_eq!(s.keys(), vec!["a", "b", "c"]);
    assert!(s.is_dirty());
}

#[test]
fn port_storage_keys() {
    assert_eq!(PortStorage::make_key(80, "tcp", "public"), "80/tcp/public");
    assert_eq!(PortStorage::make_key(0, "", ""), "0//");
    assert_eq!(PortStorage::make_simple_key(65535, "udp"), "65535/udp");
    assert_eq!(PortStorage::make_simple_key(7, "tcp"), "7/tcp");
}

#[test]
fn settings_start_from_defaults() {
    assert_eq!(default_width(), 1386);
    assert_eq!(default_height(), 924);
    assert_eq!(default_theme(), "system");
    let d = AppSettings::default();
    assert_eq!(d.window_width, 1386);
    assert_eq!(d.window_height, 924);
    assert!(!d.is_maximized);
    assert_eq!(d.theme, "system");
    assert!(!d.autostart_on_login);
    assert!(!d.show_tray_icon);
    let s = Settings::new(None);
    assert_eq!(s.window_width(), 1386);
    assert_eq!(s.window_height(), 924);
    assert_eq!(s.theme(), "system");
    assert_eq!(Settings::default().theme(), "system");
}

#[test]
fn settings_are_set_one_by_one() {
    let stored = AppSettings {
        window_width: 800,
        window_height: 600,
        is_maximized: true,
        theme: "dark".to_string(),
        autostart_on_login: true,
        show_tray_icon: false,
    };
    let mut s = Settings::new(Some(stored));
    assert_eq!(s.window_width(), 800);
    assert_eq!(s.window_height(), 600);
    assert!(s.is_maximized());
    assert_eq!(s.theme(), "dark");
    assert!(s.autostart_on_login());
    assert!(!s.show_tray_icon());
    s.set_window_width(1024);
    s.set_window_height(-1);
    s.set_maximized(false);
    s.set_theme("light");
    s.set_autostart_on_login(false);
    s.set_show_tray_icon(true);
    assert_eq!(s.window_width(), 1024);
    assert_eq!(s.window_height(), -1);
    assert!(!s.is_maximized());
    assert_eq!(s.theme(), "light");
    assert!(!s.autostart_on_login());
    assert!(s.show_tray_icon());
    let v = s.values();
    assert_eq!(v.window_width, 1024);
    assert_eq!(v.theme, "light");
    assert!(v.show_tray_icon);
}

#[test]
fn autostart_entry() {
    assert_eq!(autostart_file_name(), "com.chrisdaggas.security-center.desktop");
    let entry = desktop_entry();
    assert!(entry.starts_with("[Desktop Entry]\nName=Security Center\nComment=Manage system security and firewall\n"));
    assert!(entry.contains("\nExec=security-center --minimized\nIcon=com.chrisdaggas.security-center\nTerminal=false\n"));
    assert!(entry.ends_with("X-GNOME-Autostart-Delay=5\nNoDisplay=false\n"));
    assert_eq!(entry.lines().count(), 11);
    assert!(is_autostart_enabled(Some(true)));
    assert!(!is_autostart_enabled(Some(false)));
    assert!(!is_autostart_enabled(None));
    assert_eq!(
        set_autostart(true),
        AutostartAction::WriteEntry { file_name: autostart_file_name(), content: desktop_entry() }
    );
    assert_eq!(set_autostart(false), AutostartAction::RemoveEntry { file_name: autostart_file_name() });
}

#[test]
fn firewall_names_and_descriptions() {
    assert_eq!(BUS_NAME, "org.fedoraproject.FirewallD1");
    assert_eq!(paths::ROOT, "/org/fedoraproject/FirewallD1");
    assert_eq!(paths::CONFIG, "/org/fedoraproject/FirewallD1/config");
    assert_eq!(interfaces::ZONE, "org.fedoraproject.FirewallD1.zone");
    assert_eq!(interfaces::MAIN, BUS_NAME);
    assert_eq!(zone_description("trusted"), "All network connections are accepted.");
    assert_eq!(
        zone_description("drop"),
        "Drops all incoming network packets with no reply. Only outgoing connections are possible."
    );
    assert_eq!(zone_description("Drop"), "Custom zone");
    assert_eq!(zone_description(""), "Custom zone");
    assert!(matches!(FirewallEvent::Error("x".to_string()).clone(), FirewallEvent::Error(m) if m == "x"));
    assert!(matches!(FirewallEvent::Connected.clone(), FirewallEvent::Connected));
}

#[test]
fn firewall_answers_become_models() {
    let pairs = vec![
        vec!["80".to_string(), "tcp".to_string()],
        vec!["53".to_string()],
        vec![],
        vec!["1000-2000".to_string(), "udp".to_string(), "extra".to_string()],
    ];
    assert_eq!(port_entries(&pairs), vec!["80/tcp", "1000-2000/udp"]);
    assert!(port_entries(&Vec::new()).is_empty());
    let z = build_zone(
        "public",
        true,
        "public",
        Some(vec!["ssh".to_string()]),
        None,
        Some(vec!["rule".to_string()]),
        Some(vec!["eth0".to_string()]),
    );
    assert_eq!(z.name, "public");
    assert_eq!(z.description, zone_description("public"));
    assert!(z.is_active);
    assert!(z.is_default);
    assert_eq!(z.services, vec!["ssh"]);
    assert!(z.ports.is_empty());
    assert_eq!(z.rich_rules, vec!["rule"]);
    assert_eq!(z.interfaces, vec!["eth0"]);
    assert!(!build_zone("home", false, "public", None, None, None, None).is_default);
    let names = vec!["ssh".to_string(), "http".to_string()];
    let services = build_services(&names, &vec!["http".to_string()]);
    assert_eq!(services.len(), 2);
    assert_eq!(services[0].name, "ssh");
    assert!(!services[0].is_enabled);
    assert!(services[1].is_enabled);
    let ifaces = build_interfaces("home", &vec!["eth0".to_string(), "wlan0".to_string()]);
    assert_eq!(ifaces.len(), 2);
    assert_eq!(ifaces[1].name, "wlan0");
    assert_eq!(ifaces[1].zone, "home");
    assert!(ifaces[1].is_active);
    assert!(is_already_enabled("org.fedoraproject.FirewallD1.Exception: ALREADY_ENABLED: 80:tcp"));
    assert!(!is_already_enabled("NOT_ENABLED"));
    assert!(is_not_enabled("NOT_ENABLED: x"));
    assert!(!is_not_enabled(""));
}

#[test]
fn connection_stats_and_series() {
    let fresh = ConnectionStats::new();
    assert_eq!(fresh.total(), 0);
    assert!(fresh.timestamp.is_some());
    assert!(ConnectionStats::default().timestamp.is_none());
    let counted = ConnectionStats::counted(1, 2, 3, 4);
    assert_eq!(counted.total(), 10);
    assert_eq!(counted.checked_total(), Some(10));
    assert_eq!(ConnectionStats::counted(u32::MAX, 1, 0, 0).checked_total(), None);
    assert_eq!(ConnectionStats::counted(u32::MAX, 0, 0, 0).checked_total(), Some(u32::MAX));
    assert!(TrafficCounters::new().timestamp.is_some());
    assert_eq!(TrafficCounters::new().accepted_packets, 0);
    assert!(TrafficCounters::default().timestamp.is_none());
    let mut series = InternalTimeSeries::default();
    assert_eq!(series.max_samples, 60);
    for n in 0..61u32 {
        series.push(&ConnectionStats::counted(n, n + 100, n + 200, 0));
    }
    assert_eq!(series.tcp.len(), 60);
    assert_eq!(series.tcp.front(), Some(&1));
    assert_eq!(series.tcp.back(), Some(&60));
    assert_eq!(series.udp.front(), Some(&101));
    assert_eq!(series.icmp.back(), Some(&260));
    let mut collector = ConnectionCollector::new();
    assert_eq!(collector.stats().tcp, 0);
    assert!(collector.timeseries().tcp.is_empty());
    collector.push_stats(ConnectionStats::counted(5, 6, 7, 8));
    assert_eq!(collector.stats().udp, 6);
    assert_eq!(collector.stats().other, 8);
    assert_eq!(collector.timeseries().icmp.back(), Some(&7));
    assert_eq!(ConnectionCollector::default().stats().tcp, 0);
}

#[test]
fn connections_are_counted_from_text() {
    let table = "ipv4 2 tcp 6 431999 ESTABLISHED\nipv4 2 udp 17 29\nipv6 10 icmpv6 58 29\nipv4 2 sctp 132\nipv4 2 tcp 6 1 udp\n";
    assert_eq!(ConnectionCollector::count_tracked(table), Some((2, 1, 1, 1)));
    assert_eq!(ConnectionCollector::count_tracked(""), Some((0, 0, 0, 0)));
    assert_eq!(ConnectionCollector::count_tracked("\n\n"), Some((0, 0, 0, 2)));
    assert_eq!(ConnectionCollector::count_connections("header\na\nb\n"), 2);
    assert_eq!(ConnectionCollector::count_connections("header\na\nb"), 2);
    assert_eq!(ConnectionCollector::count_connections("header\n"), 0);
    assert_eq!(ConnectionCollector::count_connections(""), 0);
}

#[test]
fn traffic_is_read_and_added_up() {
    let snmp = "Ip: Forwarding DefaultTTL InReceives InHdrErrors InAddrErrors ForwDatagrams InUnknownProtos InDiscards InDelivers OutRequests OutDiscards\nIp: 2 64 123456 0 0 0 0 0 123000 99000 0\nIcmp: 1 2 3 4 5 6 7 8 9 10 11 12\n".to_string();
    assert_eq!(read_accepted(&Some(snmp.clone()), &None), 123456);
    assert_eq!(read_accepted(&Some(snmp.clone()), &Some("  77\n".to_string())), 123456);
    assert_eq!(read_accepted(&Some(snmp.clone()), &Some("200000\n".to_string())), 200000);
    assert_eq!(read_accepted(&None, &Some("42\n".to_string())), 42);
    assert_eq!(read_accepted(&None, &Some("many\n".to_string())), 0);
    assert_eq!(read_accepted(&None, &None), 0);
    assert_eq!(read_accepted(&Some("Ip: 2 64 12 0 0\n".to_string()), &None), 0);
    let stat = "entries searched found new invalid\n0000002a 00000000 00000000 00000000 0000001f 0\n00000001 0 0 0 000000ff\n".to_string();
    assert_eq!(estimate_dropped_packets(&Some(stat)), 0x1f);
    assert_eq!(estimate_dropped_packets(&Some("header\nshort line\n".to_string())), 0);
    assert_eq!(estimate_dropped_packets(&Some("0 0 0 0 7\n".to_string())), 0);
    assert_eq!(estimate_dropped_packets(&Some("h\n0 0 0 0 zz\n0 0 0 0 10\n".to_string())), 16);
    assert_eq!(estimate_dropped_packets(&None), 0);
    let mut collector = TrafficCollector::new();
    assert_eq!(collector.totals(), (0, 0));
    assert!(collector.record(1000, 5));
    assert_eq!(collector.totals(), (1000, 0));
    assert!(collector.record(1500, 5));
    assert_eq!(collector.totals(), (1500, 0));
    // a counter that went back adds nothing
    assert!(collector.record(100, 5));
    assert_eq!(collector.totals(), (1500, 0));
    assert!(collector.record(350, 5));
    assert_eq!(collector.totals(), (1750, 0));
    collector.update_totals(u64::MAX - 10, 3);
    assert_eq!(collector.totals(), (u64::MAX - 10, 3));
    assert!(!collector.record(400, 5));
    assert_eq!(collector.totals(), (u64::MAX - 10, 3));
    assert!(collector.record(360, 5));
    assert_eq!(collector.totals(), (u64::MAX, 3));
    assert_eq!(TrafficCollector::default().totals(), (0, 0));
}

#[test]
fn cached_readings_age() {
    let cache = StatsCache::new();
    assert_eq!(cache.max_age_secs, 3600);
    assert!(cache.is_fresh(10_000, 10_000));
    assert!(cache.is_fresh(10_000, 6_400));
    assert!(!cache.is_fresh(10_000, 6_399));
    assert!(cache.is_fresh(10_000, 20_000));
    assert!(!cache.is_fresh(u64::MAX, 0));
    assert_eq!(StatsCache::default().max_age_secs, 3600);
    assert_eq!(CachedTrafficRatio::default(), CachedTrafficRatio { accepted: 0, blocked: 0 });
}

#[test]
fn quick_actions_are_listed_and_planned() {
    let actions = quick_actions();
    assert_eq!(actions.len(), 10);
    let ids: Vec<&str> = actions.iter().map(|a| a.id).collect();
    assert_eq!(
        ids,
        vec![
            "firewall_reload",
            "firewall_enable",
            "firewall_disable",
            "firewall_panic_on",
            "firewall_panic_off",
            "firewall_runtime_to_permanent",
            "firewall_flush_runtime",
            "restart_networkmanager",
            "restart_sshd",
            "reload_systemd",
        ]
    );
    let destructive: Vec<&str> = actions.iter().filter(|a| a.destructive).map(|a| a.id).collect();
    assert_eq!(destructive, vec!["firewall_disable", "firewall_panic_on", "firewall_flush_runtime"]);
    assert_eq!(actions[0].category, ActionCategory::Firewall);
    assert_eq!(actions[6].category, ActionCategory::Firewall);
    assert_eq!(actions[7].category, ActionCategory::Network);
    assert_eq!(actions[8].category, ActionCategory::Services);
    assert_eq!(actions[9].category, ActionCategory::Services);
    assert_eq!(actions[3].title, "Enable Panic Mode");
    assert_eq!(actions[9].icon, "system-run-symbolic");
    for a in &actions {
        assert!(plan_action(a.id).is_ok(), "no plan for {}", a.id);
    }
    let reload = plan_action("firewall_reload").expect("a plan");
    assert_eq!(reload.success, "Firewall reloaded successfully");
    assert!(matches!(
        reload.steps.as_slice(),
        [ActionStep::Firewalld { method: "reload", context: "Failed to reload firewall. Is firewalld running?" }]
    ));
    let flush = plan_action("firewall_flush_runtime").expect("a plan");
    assert_eq!(flush.success, "Runtime rules flushed, permanent rules restored");
    assert!(matches!(flush.steps.as_slice(), [ActionStep::Firewalld { method: "reload", .. }]));
    let disable = plan_action("firewall_disable").expect("a plan");
    assert_eq!(disable.success, "Firewall stopped and disabled");
    assert!(matches!(
        disable.steps.as_slice(),
        [
            ActionStep::Systemctl { verb: "stop", unit: "firewalld.service" },
            ActionStep::Systemctl { verb: "disable", unit: "firewalld.service" }
        ]
    ));
    let ssh = plan_action("restart_sshd").expect("a plan");
    assert!(matches!(
        ssh.steps.as_slice(),
        [ActionStep::SystemctlEither { verb: "restart", first: "sshd.service", second: "ssh.service" }]
    ));
    let systemd = plan_action("reload_systemd").expect("a plan");
    assert_eq!(systemd.success, "Systemd configuration reloaded");
    assert!(matches!(systemd.steps.as_slice(), [ActionStep::DaemonReload]));
    assert_eq!(
        plan_action("restart_networkmanager").map(|p| p.success).ok(),
        Some("Service NetworkManager.service restarted")
    );
    assert_eq!(plan_action("format_disk").err(), Some("Unknown action: format_disk".to_string()));
    assert_eq!(plan_action("").err(), Some("Unknown action: ".to_string()));
}

#[test]
fn failed_commands_are_explained() {
    assert!(is_authentication_cancelled(Some(126), ""));
    assert!(is_authentication_cancelled(None, "Request dismissed"));
    assert!(is_authentication_cancelled(Some(1), "was cancelled by user"));
    assert!(!is_authentication_cancelled(Some(1), "unit not found"));
    assert!(!is_authentication_cancelled(None, ""));
    assert_eq!(command_failure("start", "a.service", Some(126), "x"), "Authentication cancelled");
    assert_eq!(
        command_failure("start", "a.service", Some(5), "Unit not found.\n"),
        "Failed to start service a.service: Unit not found.\n"
    );
    assert_eq!(daemon_reload_failure(None, "dismissed"), "Authentication cancelled");
    assert_eq!(daemon_reload_failure(Some(1), "bad"), "Failed to reload systemd: bad");
    let ok = AdminActionResult::success("done".to_string());
    assert!(ok.success);
    assert_eq!(ok.message, "done");
    let bad = AdminActionResult::failure("sorry".to_string());
    assert!(!bad.success);
    assert_eq!(bad.message, "sorry");
}

#[test]
fn text_is_split_and_trimmed() {
    assert_eq!(texts(&split_chars(&chars_of("a/b//c"), '/')), vec!["a", "b", "", "c"]);
    assert_eq!(texts(&split_chars(&chars_of(""), '/')), vec![""]);
    assert_eq!(texts(&split_chars(&chars_of("/"), '/')), vec!["", ""]);
    assert_eq!(texts(&split_lines(&chars_of("a\r\nb\n\nc"))), vec!["a", "b", "", "c"]);
    assert_eq!(texts(&split_lines(&chars_of("a\n"))), vec!["a"]);
    assert_eq!(texts(&split_lines(&chars_of("\n"))), vec![""]);
    assert!(split_lines(&chars_of("")).is_empty());
    assert_eq!(texts(&split_lines(&chars_of("a\r\r\n"))), vec!["a\r"]);
    assert_eq!(texts(&split_fields(&chars_of("  a \t b\u{a0}c\u{3000}\n"))), vec!["a", "b", "c"]);
    assert!(split_fields(&chars_of(" \t\r\n")).is_empty());
    assert!(split_fields(&chars_of("")).is_empty());
    assert_eq!(text(&trim_chars(&chars_of("  a b \n"))), "a b");
    assert_eq!(text(&trim_chars(&chars_of(" \u{2028} "))), "");
    assert_eq!(text(&trim_chars(&chars_of("a"))), "a");
    for sample in ["", " ", "a", " a\tb  c ", "\u{85}x\u{a0}y\u{1680}", "\u{200b}z\u{feff}", "a\u{2003}b\u{205f}c\u{180e}d"] {
        let expected: Vec<String> = sample.split_whitespace().map(|s| s.to_string()).collect();
        assert_eq!(texts(&split_fields(&chars_of(sample))), expected, "fields of {:?}", sample);
        assert_eq!(text(&trim_chars(&chars_of(sample))), sample.trim(), "trim of {:?}", sample);
    }
    for sample in ["", "\n", "a", "a\n", "a\nb", "a\r\nb\r\n", "\r\n\r\n", "a\rb\n", "\n\na"] {
        let expected: Vec<String> = sample.lines().map(|s| s.to_string()).collect();
        assert_eq!(texts(&split_lines(&chars_of(sample))), expected, "lines of {:?}", sample);
    }
}

#[test]
fn text_is_searched_and_compared() {
    assert!(str_eq("abc", "abc"));
    assert!(!str_eq("abc", "abd"));
    assert!(!str_eq("abc", "ab"));
    assert!(str_eq("", ""));
    assert!(str_contains("a reject b", "reject"));
    assert!(str_contains("abc", ""));
    assert!(str_contains("", ""));
    assert!(!str_contains("rejec", "reject"));
    assert!(!str_contains("", "a"));
    assert!(str_starts_with("eth0", "eth"));
    assert!(str_starts_with("eth0", ""));
    assert!(!str_starts_with("et", "eth"));
    assert_eq!(string_of(&chars_of("h\u{e9}llo")), "h\u{e9}llo");
}

#[test]
fn numbers_are_read_and_written() {
    assert_eq!(text(&decimal_chars(0)), "0");
    assert_eq!(text(&decimal_chars(9)), "9");
    assert_eq!(text(&decimal_chars(10)), "10");
    assert_eq!(text(&decimal_chars(65535)), "65535");
    assert_eq!(text(&decimal_chars(u64::MAX)), "18446744073709551615");
    assert_eq!(parse_unsigned_chars(&chars_of("0"), 65535), Some(0));
    assert_eq!(parse_unsigned_chars(&chars_of("00080"), 65535), Some(80));
    assert_eq!(parse_unsigned_chars(&chars_of("+80"), 65535), Some(80));
    assert_eq!(parse_unsigned_chars(&chars_of("65535"), 65535), Some(65535));
    assert_eq!(parse_unsigned_chars(&chars_of("65536"), 65535), None);
    assert_eq!(parse_unsigned_chars(&chars_of("99999999999999999999999"), u64::MAX), None);
    assert_eq!(parse_unsigned_chars(&chars_of(""), 65535), None);
    assert_eq!(parse_unsigned_chars(&chars_of("+"), 65535), None);
    assert_eq!(parse_unsigned_chars(&chars_of("-1"), 65535), None);
    assert_eq!(parse_unsigned_chars(&chars_of("++1"), 65535), None);
    assert_eq!(parse_unsigned_chars(&chars_of(" 1"), 65535), None);
    assert_eq!(parse_unsigned_chars(&chars_of("1 "), 65535), None);
    assert_eq!(parse_unsigned_chars(&chars_of("\u{661}"), 65535), None);
    for sample in ["0", "7", "+7", "007", "65535", "65536", "", "+", "-0", "1e3", "0x10", "18446744073709551615", "18446744073709551616"] {
        assert_eq!(
            parse_unsigned_chars(&chars_of(sample), u64::MAX),
            sample.parse::<u64>().ok(),
            "for {:?}",
            sample
        );
        assert_eq!(
            parse_unsigned_chars(&chars_of(sample), 65535).map(|n| n as u16),
            sample.parse::<u16>().ok(),
            "for {:?}",
            sample
        );
    }
}

#[test]
fn case_is_changed_as_the_standard_library_does() {
    for sample in ["", "tcp", "TCP", "Tcp/Udp 123", "\u{c9}COLE", "stra\u{df}e", "\u{3a3}\u{391}\u{3a3}", "\u{130}"] {
        assert_eq!(to_lowercase(sample), sample.to_lowercase(), "lower case of {:?}", sample);
        assert_eq!(to_uppercase(sample), sample.to_uppercase(), "upper case of {:?}", sample);
    }
    assert_eq!(to_lowercase("TCP"), "tcp");
    assert_eq!(to_uppercase("udp"), "UDP");
}

#[test]
fn sorted_lists_take_each_text_once() {
    let list = vec!["home".to_string(), "public".to_string()];
    assert_eq!(with_distinct(&list, "dmz"), vec!["dmz", "home", "public"]);
    assert_eq!(with_distinct(&list, "internal"), vec!["home", "internal", "public"]);
    assert_eq!(with_distinct(&list, "work"), vec!["home", "public", "work"]);
    assert_eq!(with_distinct(&list, "home"), vec!["home", "public"]);
    assert_eq!(with_distinct(&list, "HOME"), vec!["home", "public"]);
    assert_eq!(with_distinct(&list, "Work"), vec!["Work", "home", "public"]);
    assert_eq!(with_distinct(&list, "hom"), vec!["hom", "home", "public"]);
    assert_eq!(with_distinct(&list, "homes"), vec!["home", "homes", "public"]);
    assert_eq!(with_distinct(&Vec::new(), ""), vec![""]);
}

//! What the pages of a front end show, worked out from the models.
//!
//! Nothing is drawn here: these are the lists, counts and texts that a page
//! puts on the screen.

use vstd::prelude::*;
use crate::admin::network::{endpoint_views, EndpointView, FirewallStatus, ListeningEndpoint};
use crate::casing::{lowercase, lowercase_of_chars, uppercase, uppercase_of_chars};
use crate::models::consolidated_port::{is_deny, is_deny_action, port_views};
use crate::models::port::{parsed_rich_rule, parsed_zone_entry, Port, PortView};
use crate::models::zone::{Zone, ZoneView};
use crate::admin::correlate::zone_views;
use crate::numeric::{decimal, decimal_chars, parse_unsigned, parse_unsigned_chars};
use crate::split::{fields, lines_of, split_fields, split_lines, views};
use crate::storage::{metadata_views, PortMetadata, PortMetadataView};
use crate::systemd::{ServiceInfo, ServiceInfoView, ServiceState};
use crate::text::{chars_of, contains_chars, contains_sub, opt_text, owned, push_char, push_chars,
    starts_with,
    push_str, str_eq, texts};

verus! {

/// The open ports that the entries `entries` of the zone `zone` stand for,
/// in order.
pub open spec fn entry_ports(entries: Seq<Seq<char>>, zone: Seq<char>) -> Seq<PortView>
    decreases entries.len(),
{
    if entries.len() == 0 {
        seq![]
    } else {
        let before = entry_ports(entries.drop_last(), zone);
        match parsed_zone_entry(entries.last(), zone) {
            Some(p) => before.push(p),
            None => before,
        }
    }
}

/// The blocked ports that the rich rules `rules` of the zone `zone` stand
/// for, in order.
pub open spec fn rule_ports(rules: Seq<Seq<char>>, zone: Seq<char>) -> Seq<PortView>
    decreases rules.len(),
{
    if rules.len() == 0 {
        seq![]
    } else {
        let before = rule_ports(rules.drop_last(), zone);
        match parsed_rich_rule(rules.last(), zone) {
            Some(p) => before.push(p),
            None => before,
        }
    }
}

/// The open ports of all zones, zone after zone.
pub open spec fn open_ports(zones: Seq<ZoneView>) -> Seq<PortView>
    decreases zones.len(),
{
    if zones.len() == 0 {
        seq![]
    } else {
        open_ports(zones.drop_last()) + entry_ports(zones.last().ports, zones.last().name)
    }
}

/// The blocked ports of all zones, zone after zone.
pub open spec fn blocked_ports(zones: Seq<ZoneView>) -> Seq<PortView>
    decreases zones.len(),
{
    if zones.len() == 0 {
        seq![]
    } else {
        blocked_ports(zones.drop_last()) + rule_ports(zones.last().rich_rules, zones.last().name)
    }
}

/// The open ports that the zones list.
pub fn ports_of_zones(zones: &Vec<Zone>) -> (r: Vec<Port>)
    ensures
        port_views(r@) == open_ports(zone_views(zones@)),
{
    let ghost all = zone_views(zones@);
    let mut out: Vec<Port> = Vec::new();
    let mut i: usize = 0;
    assert(all.take(0) =~= Seq::empty());
    assert(port_views(out@) =~= Seq::empty());
    while i < zones.len()
        invariant
            i <= zones.len(),
            all == zone_views(zones@),
            port_views(out@) == open_ports(all.take(i as int)),
        decreases zones.len() - i,
    {
        let zone = &zones[i];
        proof {
            assert(all.take(i + 1).drop_last() =~= all.take(i as int));
            assert(all.take(i + 1).last() == zone@);
        }
        let ghost start = port_views(out@);
        let ghost entries = texts(zone.ports@);
        let mut k: usize = 0;
        assert(entries.take(0) =~= Seq::empty());
        assert(port_views(out@) =~= start + entry_ports(entries.take(0), zone.name@));
        while k < zone.ports.len()
            invariant
                k <= zone.ports.len(),
                entries == texts(zone.ports@),
                port_views(out@) == start + entry_ports(entries.take(k as int), zone.name@),
            decreases zone.ports.len() - k,
        {
            proof {
                assert(entries.take(k + 1).drop_last() =~= entries.take(k as int));
                assert(entries.take(k + 1).last() == zone.ports@[k as int]@);
            }
            let ghost before = port_views(out@);
            match Port::parse_with_zone(zone.ports[k].as_str(), zone.name.as_str()) {
                Some(p) => {
                    out.push(p);
                    assert(port_views(out@) =~= before.push(p@));
                    assert(before.push(p@) =~= start + entry_ports(
                        entries.take(k as int),
                        zone.name@,
                    ).push(p@));
                },
                None => {},
            }
            k += 1;
        }
        assert(entries.take(zone.ports@.len() as int) =~= entries);
        i += 1;
    }
    assert(all.take(zones@.len() as int) =~= all);
    out
}

/// The ports that the rich rules of the zones reject or drop.
pub fn blocked_ports_of_zones(zones: &Vec<Zone>) -> (r: Vec<Port>)
    ensures
        port_views(r@) == blocked_ports(zone_views(zones@)),
{
    let ghost all = zone_views(zones@);
    let mut out: Vec<Port> = Vec::new();
    let mut i: usize = 0;
    assert(all.take(0) =~= Seq::empty());
    assert(port_views(out@) =~= Seq::empty());
    while i < zones.len()
        invariant
            i <= zones.len(),
            all == zone_views(zones@),
            port_views(out@) == blocked_ports(all.take(i as int)),
        decreases zones.len() - i,
    {
        let zone = &zones[i];
        proof {
            assert(all.take(i + 1).drop_last() =~= all.take(i as int));
            assert(all.take(i + 1).last() == zone@);
        }
        let ghost start = port_views(out@);
        let ghost rules = texts(zone.rich_rules@);
        let mut k: usize = 0;
        assert(rules.take(0) =~= Seq::empty());
        assert(port_views(out@) =~= start + rule_ports(rules.take(0), zone.name@));
        while k < zone.rich_rules.len()
            invariant
                k <= zone.rich_rules.len(),
                rules == texts(zone.rich_rules@),
                port_views(out@) == start + rule_ports(rules.take(k as int), zone.name@),
            decreases zone.rich_rules.len() - k,
        {
            proof {
                assert(rules.take(k + 1).drop_last() =~= rules.take(k as int));
                assert(rules.take(k + 1).last() == zone.rich_rules@[k as int]@);
            }
            let ghost before = port_views(out@);
            match Port::parse_from_rich_rule(zone.rich_rules[k].as_str(), zone.name.as_str()) {
                Some(p) => {
                    out.push(p);
                    assert(port_views(out@) =~= before.push(p@));
                    assert(before.push(p@) =~= start + rule_ports(
                        rules.take(k as int),
                        zone.name@,
                    ).push(p@));
                },
                None => {},
            }
            k += 1;
        }
        assert(rules.take(zone.rich_rules@.len() as int) =~= rules);
        i += 1;
    }
    assert(all.take(zones@.len() as int) =~= all);
    out
}

/// The text, or nothing for an empty one.
pub open spec fn non_empty(s: Seq<char>) -> Option<Seq<char>> {
    if s.len() == 0 {
        None
    } else {
        Some(s)
    }
}

/// The port rule that stored metadata stand for: none for the port zero;
/// denied if the metadata deny incoming traffic, accepted otherwise.
pub open spec fn stored_rule(m: PortMetadataView) -> Option<PortView> {
    if m.port == 0 {
        None
    } else {
        Some(
            PortView {
                number: m.port,
                protocol: m.protocol,
                zone: non_empty(m.zone),
                name: non_empty(m.name),
                description: Some(m.description),
                direction: "in"@,
                action: if m.incoming_action == "deny"@ {
                    "deny"@
                } else {
                    "accept"@
                },
                is_permanent: false,
            },
        )
    }
}

/// Whether `ports` holds a rule of the same number, protocol and zone as
/// `p`.
pub open spec fn holds_rule(ports: Seq<PortView>, p: PortView) -> bool {
    exists|i: int|
        0 <= i < ports.len() && (#[trigger] ports[i]).number == p.number && ports[i].protocol
            == p.protocol && ports[i].zone == p.zone
}

/// The port rules with those of the stored metadata added, each unless the
/// list holds a rule of its number, protocol and zone already.
pub open spec fn with_stored(ports: Seq<PortView>, stored: Seq<PortMetadataView>) -> Seq<PortView>
    decreases stored.len(),
{
    if stored.len() == 0 {
        ports
    } else {
        let before = with_stored(ports, stored.drop_last());
        match stored_rule(stored.last()) {
            Some(p) => if holds_rule(before, p) {
                before
            } else {
                before.push(p)
            },
            None => before,
        }
    }
}

/// The text, or nothing for an empty one.
fn non_empty_text(s: &String) -> (r: Option<String>)
    ensures
        opt_text(r) == non_empty(s@),
{
    if s.as_str().is_empty() {
        None
    } else {
        Some(s.clone())
    }
}

/// The port rule that stored metadata stand for.
pub fn rule_of_metadata(m: &PortMetadata) -> (r: Option<Port>)
    ensures
        match r {
            Some(p) => stored_rule(m@) == Some(p@),
            None => stored_rule(m@) is None,
        },
{
    if m.port == 0 {
        return None;
    }
    let action = if str_eq(m.incoming_action.as_str(), "deny") {
        owned("deny")
    } else {
        owned("accept")
    };
    Some(
        Port {
            number: m.port,
            protocol: m.protocol.clone(),
            zone: non_empty_text(&m.zone),
            name: non_empty_text(&m.name),
            description: Some(m.description.clone()),
            direction: owned("in"),
            action,
            is_permanent: false,
        },
    )
}

/// Whether two optional texts are the same.
fn same_opt(a: &Option<String>, b: &Option<String>) -> (r: bool)
    ensures
        r == (opt_text(*a) == opt_text(*b)),
{
    match (a, b) {
        (Some(x), Some(y)) => str_eq(x.as_str(), y.as_str()),
        (None, None) => true,
        _ => false,
    }
}

/// Adds the rules of the stored metadata to the port rules, each unless
/// the list holds a rule of its number, protocol and zone already.
pub fn add_stored_rules(ports: &mut Vec<Port>, stored: &Vec<PortMetadata>)
    ensures
        port_views(final(ports)@) == with_stored(port_views(old(ports)@), metadata_views(stored@)),
{
    let ghost start = port_views(ports@);
    let ghost all = metadata_views(stored@);
    let mut i: usize = 0;
    assert(all.take(0) =~= Seq::empty());
    while i < stored.len()
        invariant
            i <= stored.len(),
            all == metadata_views(stored@),
            port_views(ports@) == with_stored(start, all.take(i as int)),
        decreases stored.len() - i,
    {
        proof {
            assert(all.take(i + 1).drop_last() =~= all.take(i as int));
            assert(all.take(i + 1).last() == stored@[i as int]@);
        }
        match rule_of_metadata(&stored[i]) {
            Some(p) => {
                let ghost before = port_views(ports@);
                let mut held = false;
                let mut k: usize = 0;
                while k < ports.len()
                    invariant
                        k <= ports.len(),
                        before == port_views(ports@),
                        held == (exists|m: int|
                            0 <= m < k && (#[trigger] before[m]).number == p@.number
                                && before[m].protocol == p@.protocol && before[m].zone == p@.zone),
                    decreases ports.len() - k,
                {
                    let q = &ports[k];
                    assert(before[k as int] == q@);
                    if q.number == p.number && str_eq(q.protocol.as_str(), p.protocol.as_str())
                        && same_opt(&q.zone, &p.zone) {
                        held = true;
                    }
                    k += 1;
                }
                assert(held == holds_rule(before, p@));
                if !held {
                    ports.push(p);
                    assert(port_views(ports@) =~= before.push(p@));
                }
            },
            None => {},
        }
        i += 1;
    }
    assert(all.take(stored@.len() as int) =~= all);
}

/// How many port rules allow and deny, for TCP and for the other
/// protocols.
#[derive(Debug, Clone, Copy, PartialEq, Eq)]
pub struct RuleCounts {
    pub tcp_allowed: usize,
    pub tcp_denied: usize,
    pub udp_allowed: usize,
    pub udp_denied: usize,
}

/// The number of rules among `ports` that are of TCP or not, and deny or
/// not.
pub open spec fn rule_count(ports: Seq<PortView>, tcp: bool, denied: bool) -> nat
    decreases ports.len(),
{
    if ports.len() == 0 {
        0
    } else {
        let last = ports.last();
        let counts = (last.protocol == "tcp"@) == tcp && is_deny_action(last.action) == denied;
        rule_count(ports.drop_last(), tcp, denied) + if counts {
            1nat
        } else {
            0nat
        }
    }
}

/// No more rules are counted than there are.
pub proof fn lemma_rule_count_bound(ports: Seq<PortView>, tcp: bool, denied: bool)
    ensures
        rule_count(ports, tcp, denied) <= ports.len(),
    decreases ports.len(),
{
    if ports.len() > 0 {
        lemma_rule_count_bound(ports.drop_last(), tcp, denied);
    }
}

/// Counts the rules that allow and that deny, for TCP and for the other
/// protocols.
pub fn count_rules(ports: &Vec<Port>) -> (r: RuleCounts)
    ensures
        r.tcp_allowed == rule_count(port_views(ports@), true, false),
        r.tcp_denied == rule_count(port_views(ports@), true, true),
        r.udp_allowed == rule_count(port_views(ports@), false, false),
        r.udp_denied == rule_count(port_views(ports@), false, true),
{
    let ghost all = port_views(ports@);
    let mut r = RuleCounts { tcp_allowed: 0, tcp_denied: 0, udp_allowed: 0, udp_denied: 0 };
    let mut i: usize = 0;
    assert(all.take(0) =~= Seq::empty());
    while i < ports.len()
        invariant
            i <= ports.len(),
            all == port_views(ports@),
            r.tcp_allowed == rule_count(all.take(i as int), true, false),
            r.tcp_denied == rule_count(all.take(i as int), true, true),
            r.udp_allowed == rule_count(all.take(i as int), false, false),
            r.udp_denied == rule_count(all.take(i as int), false, true),
        decreases ports.len() - i,
    {
        proof {
            assert(all.take(i + 1).drop_last() =~= all.take(i as int));
            assert(all.take(i + 1).last() == ports@[i as int]@);
            lemma_rule_count_bound(all.take(i as int), true, false);
            lemma_rule_count_bound(all.take(i as int), true, true);
            lemma_rule_count_bound(all.take(i as int), false, false);
            lemma_rule_count_bound(all.take(i as int), false, true);
        }
        let p = &ports[i];
        let denied = is_deny(p.action.as_str());
        if str_eq(p.protocol.as_str(), "tcp") {
            if denied {
                r.tcp_denied = r.tcp_denied + 1;
            } else {
                r.tcp_allowed = r.tcp_allowed + 1;
            }
        } else {
            if denied {
                r.udp_denied = r.udp_denied + 1;
            } else {
                r.udp_allowed = r.udp_allowed + 1;
            }
        }
        i += 1;
    }
    assert(all.take(ports@.len() as int) =~= all);
    r
}

/// The rich rule that rejects `port`/`protocol` for IPv4.
pub open spec fn reject_rule_text(port: Seq<char>, protocol: Seq<char>) -> Seq<char> {
    "rule family=\"ipv4\" port port=\""@ + port + "\" protocol=\""@ + protocol + "\" reject"@
}

/// The rich rule that rejects `port`/`protocol` for IPv4.
pub fn reject_rule(port: &str, protocol: &str) -> (r: String)
    ensures
        r@ == reject_rule_text(port@, protocol@),
{
    let mut r = owned("rule family=\"ipv4\" port port=\"");
    push_str(&mut r, port);
    push_str(&mut r, "\" protocol=\"");
    push_str(&mut r, protocol);
    push_str(&mut r, "\" reject");
    r
}

/// How many endpoints there are, how many listen on all interfaces, and
/// how many the firewall blocks.
#[derive(Debug, Clone, Copy, PartialEq, Eq)]
pub struct EndpointCounts {
    pub total: usize,
    pub exposed: usize,
    pub blocked: usize,
}

/// The number of endpoints that listen on all interfaces.
pub open spec fn exposed_count(s: Seq<EndpointView>) -> nat
    decreases s.len(),
{
    if s.len() == 0 {
        0
    } else {
        exposed_count(s.drop_last()) + if s.last().local_addr.unspecified() {
            1nat
        } else {
            0nat
        }
    }
}

/// The number of endpoints that the firewall blocks.
pub open spec fn blocked_count(s: Seq<EndpointView>) -> nat
    decreases s.len(),
{
    if s.len() == 0 {
        0
    } else {
        blocked_count(s.drop_last()) + if s.last().firewall_status is Blocked {
            1nat
        } else {
            0nat
        }
    }
}

/// No more endpoints are exposed or blocked than there are.
pub proof fn lemma_endpoint_counts_bound(s: Seq<EndpointView>)
    ensures
        exposed_count(s) <= s.len(),
        blocked_count(s) <= s.len(),
    decreases s.len(),
{
    if s.len() > 0 {
        lemma_endpoint_counts_bound(s.drop_last());
    }
}

/// The line that sums the endpoints up.
pub open spec fn counts_text(total: nat, exposed: nat, blocked: nat) -> Seq<char> {
    "Found "@ + decimal(total) + " listening ports ("@ + decimal(exposed) + " exposed, "@ + decimal(
        blocked,
    ) + " blocked by firewall)"@
}

/// Counts the endpoints, those that listen on all interfaces and those that
/// the firewall blocks.
pub fn count_endpoints(endpoints: &Vec<ListeningEndpoint>) -> (r: EndpointCounts)
    ensures
        r.total == endpoints.len(),
        r.exposed == exposed_count(endpoint_views(endpoints@)),
        r.blocked == blocked_count(endpoint_views(endpoints@)),
{
    let ghost all = endpoint_views(endpoints@);
    let mut exposed: usize = 0;
    let mut blocked: usize = 0;
    let mut i: usize = 0;
    assert(all.take(0) =~= Seq::empty());
    while i < endpoints.len()
        invariant
            i <= endpoints.len(),
            all == endpoint_views(endpoints@),
            exposed == exposed_count(all.take(i as int)),
            blocked == blocked_count(all.take(i as int)),
        decreases endpoints.len() - i,
    {
        proof {
            assert(all.take(i + 1).drop_last() =~= all.take(i as int));
            assert(all.take(i + 1).last() == endpoints@[i as int]@);
            lemma_endpoint_counts_bound(all.take(i as int));
        }
        let e = &endpoints[i];
        if e.is_exposed() {
            exposed = exposed + 1;
        }
        match &e.firewall_status {
            FirewallStatus::Blocked => {
                blocked = blocked + 1;
            },
            _ => {},
        }
        i += 1;
    }
    assert(all.take(endpoints@.len() as int) =~= all);
    EndpointCounts { total: endpoints.len(), exposed, blocked }
}

impl EndpointCounts {
    /// The line that sums the endpoints up.
    pub fn status_line(&self) -> (r: String)
        ensures
            r@ == counts_text(self.total as nat, self.exposed as nat, self.blocked as nat),
    {
        let total = decimal_chars(self.total as u64);
        let exposed = decimal_chars(self.exposed as u64);
        let blocked = decimal_chars(self.blocked as u64);
        let mut r = owned("Found ");
        push_chars(&mut r, &total);
        push_str(&mut r, " listening ports (");
        push_chars(&mut r, &exposed);
        push_str(&mut r, " exposed, ");
        push_chars(&mut r, &blocked);
        push_str(&mut r, " blocked by firewall)");
        r
    }
}

/// The labels of the first five blocked ports, `number/PROTOCOL`.
pub open spec fn blocked_labels(ports: Seq<PortView>) -> Seq<Seq<char>> {
    Seq::new(
        if ports.len() < 5 {
            ports.len()
        } else {
            5
        },
        |i: int| decimal(ports[i].number as nat) + seq!['/'] + uppercase(ports[i].protocol),
    )
}

/// The labels of the first five blocked ports, each with the count one.
pub fn blocked_port_labels(ports: &Vec<Port>) -> (r: Vec<(String, u64)>)
    ensures
        r.len() == blocked_labels(port_views(ports@)).len(),
        forall|i: int|
            0 <= i < r.len() ==> (#[trigger] r@[i]).0@ == blocked_labels(port_views(ports@))[i]
                && r@[i].1 == 1,
{
    let n: usize = if ports.len() < 5 {
        ports.len()
    } else {
        5
    };
    let ghost all = port_views(ports@);
    let mut out: Vec<(String, u64)> = Vec::new();
    let mut i: usize = 0;
    while i < n
        invariant
            i <= n <= ports.len(),
            n <= 5,
            all == port_views(ports@),
            out.len() == i,
            forall|k: int|
                0 <= k < i ==> (#[trigger] out@[k]).0@ == decimal(all[k].number as nat) + seq!['/']
                    + uppercase(all[k].protocol) && out@[k].1 == 1,
        decreases n - i,
    {
        let p = &ports[i];
        assert(all[i as int] == p@);
        let digits = decimal_chars(p.number as u64);
        let protocol = chars_of(p.protocol.as_str());
        let upper = uppercase_of_chars(&protocol);
        let mut label = String::new();
        push_chars(&mut label, &digits);
        push_char(&mut label, '/');
        push_str(&mut label, upper.as_str());
        assert(label@ =~= decimal(all[i as int].number as nat) + seq!['/'] + uppercase(
            all[i as int].protocol,
        ));
        out.push((label, 1));
        i += 1;
    }
    out
}

/// The icon that stands for a firewall service of the given name.
pub open spec fn service_icon_name(name: Seq<char>) -> Seq<char> {
    if name == "ssh"@ {
        "utilities-terminal-symbolic"@
    } else if name == "http"@ || name == "https"@ {
        "web-browser-symbolic"@
    } else if name == "ftp"@ {
        "folder-remote-symbolic"@
    } else if name == "dns"@ {
        "network-server-symbolic"@
    } else if name == "dhcp"@ || name == "dhcpv6"@ || name == "dhcpv6-client"@ {
        "network-wired-symbolic"@
    } else if name == "samba"@ || name == "samba-client"@ {
        "folder-publicshare-symbolic"@
    } else if name == "nfs"@ || name == "nfs3"@ {
        "folder-remote-symbolic"@
    } else if name == "vnc-server"@ || name == "rdp"@ {
        "computer-symbolic"@
    } else if name == "smtp"@ || name == "smtps"@ || name == "imap"@ || name == "imaps"@ || name
        == "pop3"@ || name == "pop3s"@ {
        "mail-send-symbolic"@
    } else if name == "mdns"@ {
        "network-workgroup-symbolic"@
    } else if name == "cockpit"@ {
        "preferences-system-symbolic"@
    } else {
        "application-x-executable-symbolic"@
    }
}

/// Get appropriate icon for service type.
pub fn get_service_icon(name: &str) -> (r: &'static str)
    ensures
        r@ == service_icon_name(name@),
{
    if str_eq(name, "ssh") {
        "utilities-terminal-symbolic"
    } else if str_eq(name, "http") || str_eq(name, "https") {
        "web-browser-symbolic"
    } else if str_eq(name, "ftp") {
        "folder-remote-symbolic"
    } else if str_eq(name, "dns") {
        "network-server-symbolic"
    } else if str_eq(name, "dhcp") || str_eq(name, "dhcpv6") || str_eq(name, "dhcpv6-client") {
        "network-wired-symbolic"
    } else if str_eq(name, "samba") || str_eq(name, "samba-client") {
        "folder-publicshare-symbolic"
    } else if str_eq(name, "nfs") || str_eq(name, "nfs3") {
        "folder-remote-symbolic"
    } else if str_eq(name, "vnc-server") || str_eq(name, "rdp") {
        "computer-symbolic"
    } else if str_eq(name, "smtp") || str_eq(name, "smtps") || str_eq(name, "imap") || str_eq(
        name,
        "imaps",
    ) || str_eq(name, "pop3") || str_eq(name, "pop3s") {
        "mail-send-symbolic"
    } else if str_eq(name, "mdns") {
        "network-workgroup-symbolic"
    } else if str_eq(name, "cockpit") {
        "preferences-system-symbolic"
    } else {
        "application-x-executable-symbolic"
    }
}

/// Whether a service answers a search: its name or its description, in
/// lower case, holds the query.
pub open spec fn answers(service: ServiceInfoView, query: Seq<char>) -> bool {
    contains_sub(lowercase(service.name), query) || contains_sub(
        lowercase(service.description),
        query,
    )
}

/// Whether a service answers a search.
pub fn service_matches(service: &ServiceInfo, query: &str) -> (r: bool)
    ensures
        r == answers(service@, query@),
{
    let q = chars_of(query);
    let name = chars_of(service.name.as_str());
    let lower_name = lowercase_of_chars(&name);
    let name_chars = chars_of(lower_name.as_str());
    if contains_chars(&name_chars, &q) {
        return true;
    }
    let description = chars_of(service.description.as_str());
    let lower_description = lowercase_of_chars(&description);
    let description_chars = chars_of(lower_description.as_str());
    contains_chars(&description_chars, &q)
}

/// The indices below `n` of the services that answer a search, in order;
/// all of them for an empty query.
pub open spec fn answering(services: Seq<ServiceInfo>, query: Seq<char>, n: int) -> Seq<usize>
    decreases n,
{
    if n <= 0 || n > services.len() {
        seq![]
    } else if query.len() == 0 || answers(services[n - 1]@, query) {
        answering(services, query, n - 1).push((n - 1) as usize)
    } else {
        answering(services, query, n - 1)
    }
}

/// The indices of the services that answer a search, in order; all of them
/// for an empty query.
pub fn filter_services(services: &Vec<ServiceInfo>, query: &str) -> (r: Vec<usize>)
    ensures
        r@ == answering(services@, query@, services.len() as int),
{
    let mut out: Vec<usize> = Vec::new();
    let all = query.is_empty();
    let mut i: usize = 0;
    while i < services.len()
        invariant
            i <= services.len(),
            all == (query@.len() == 0),
            out@ == answering(services@, query@, i as int),
        decreases services.len() - i,
    {
        if all || service_matches(&services[i], query) {
            out.push(i);
        }
        i += 1;
    }
    out
}

/// How many zones are active, and how many services and ports they list.
#[derive(Debug, Clone, Copy, PartialEq, Eq)]
pub struct ZoneCounts {
    pub active: usize,
    pub services: usize,
    pub ports: usize,
}

/// The number of active zones.
pub open spec fn active_count(zones: Seq<ZoneView>) -> nat
    decreases zones.len(),
{
    if zones.len() == 0 {
        0
    } else {
        active_count(zones.drop_last()) + if zones.last().is_active {
            1nat
        } else {
            0nat
        }
    }
}

/// The number of services that the active zones list.
pub open spec fn active_services(zones: Seq<ZoneView>) -> nat
    decreases zones.len(),
{
    if zones.len() == 0 {
        0
    } else {
        active_services(zones.drop_last()) + if zones.last().is_active {
            zones.last().services.len()
        } else {
            0nat
        }
    }
}

/// The number of port entries that the active zones list.
pub open spec fn active_ports(zones: Seq<ZoneView>) -> nat
    decreases zones.len(),
{
    if zones.len() == 0 {
        0
    } else {
        active_ports(zones.drop_last()) + if zones.last().is_active {
            zones.last().ports.len()
        } else {
            0nat
        }
    }
}

/// Counts the active zones and what they list.
///
/// Returns `None` where a count is more than the machine's numbers hold.
pub fn count_zones(zones: &Vec<Zone>) -> (r: Option<ZoneCounts>)
    ensures
        match r {
            Some(c) => {
                &&& c.active == active_count(zone_views(zones@))
                &&& c.services == active_services(zone_views(zones@))
                &&& c.ports == active_ports(zone_views(zones@))
            },
            None => active_services(zone_views(zones@)) > usize::MAX || active_ports(
                zone_views(zones@),
            ) > usize::MAX,
        },
{
    let ghost all = zone_views(zones@);
    let mut c = ZoneCounts { active: 0, services: 0, ports: 0 };
    let mut i: usize = 0;
    assert(all.take(0) =~= Seq::empty());
    while i < zones.len()
        invariant
            i <= zones.len(),
            all == zone_views(zones@),
            c.active == active_count(all.take(i as int)),
            c.active <= i,
            c.services == active_services(all.take(i as int)),
            c.ports == active_ports(all.take(i as int)),
        decreases zones.len() - i,
    {
        proof {
            assert(all.take(i + 1).drop_last() =~= all.take(i as int));
            assert(all.take(i + 1).last() == zones@[i as int]@);
        }
        let z = &zones[i];
        if z.is_active {
            if z.services.len() > usize::MAX - c.services || z.ports.len() > usize::MAX - c.ports {
                proof {
                    lemma_active_grow(all, i + 1);
                }
                return None;
            }
            c.active = c.active + 1;
            c.services = c.services + z.services.len();
            c.ports = c.ports + z.ports.len();
        }
        i += 1;
    }
    assert(all.take(zones@.len() as int) =~= all);
    Some(c)
}

/// The counts of a longer list of zones are no lower.
pub proof fn lemma_active_grow(zones: Seq<ZoneView>, n: int)
    requires
        0 <= n <= zones.len(),
    ensures
        active_services(zones.take(n)) <= active_services(zones),
        active_ports(zones.take(n)) <= active_ports(zones),
    decreases zones.len() - n,
{
    if n < zones.len() {
        lemma_active_grow(zones, n + 1);
        assert(zones.take(n + 1).drop_last() =~= zones.take(n));
    } else {
        assert(zones.take(n) =~= zones);
    }
}

/// The bytes that the line of an interface in `/proc/net/dev` counts as
/// received and as sent: none for a line of fewer than ten fields, for the
/// loopback interface, or where one of the two is no number.
pub open spec fn interface_bytes(line: Seq<char>) -> Option<(u64, u64)> {
    let parts = fields(line);
    if parts.len() >= 10 && crate::systemd::without_suffix(parts[0], ":"@) != "lo"@ {
        match (
            parse_unsigned(parts[1], u64::MAX as nat),
            parse_unsigned(parts[9], u64::MAX as nat),
        ) {
            (Some(rx), Some(tx)) => Some((rx as u64, tx as u64)),
            _ => None,
        }
    } else {
        None
    }
}

/// The bytes received and sent that the lines before line `n` count
/// together, the two lines of the header left out.
pub open spec fn bytes_before(lines: Seq<Seq<char>>, n: int) -> (int, int)
    decreases n,
{
    if n <= 2 || n > lines.len() {
        (0, 0)
    } else {
        let before = bytes_before(lines, n - 1);
        match interface_bytes(lines[n - 1]) {
            Some((rx, tx)) => (before.0 + rx, before.1 + tx),
            None => before,
        }
    }
}

/// The bytes received and sent that the text of `/proc/net/dev` counts
/// together.
pub open spec fn network_bytes(content: Seq<char>) -> (int, int) {
    bytes_before(lines_of(content), lines_of(content).len() as int)
}

/// The sums over more lines are no lower.
pub proof fn lemma_bytes_grow(lines: Seq<Seq<char>>, n: int)
    requires
        0 <= n <= lines.len(),
    ensures
        0 <= bytes_before(lines, n).0 <= bytes_before(lines, lines.len() as int).0,
        0 <= bytes_before(lines, n).1 <= bytes_before(lines, lines.len() as int).1,
    decreases lines.len() - n,
{
    lemma_bytes_positive(lines, n);
    if n < lines.len() {
        lemma_bytes_grow(lines, n + 1);
    }
}

/// The sums are not negative.
pub proof fn lemma_bytes_positive(lines: Seq<Seq<char>>, n: int)
    ensures
        0 <= bytes_before(lines, n).0,
        0 <= bytes_before(lines, n).1,
    decreases n,
{
    if 2 < n <= lines.len() {
        lemma_bytes_positive(lines, n - 1);
    }
}

/// Reads the bytes received and sent out of the text of `/proc/net/dev`:
/// the sums over its lines after the two of the header, but for the
/// loopback interface.
///
/// Returns `None` where a sum is no 64-bit number.
pub fn read_network_totals(content: &str) -> (r: Option<(u64, u64)>)
    ensures
        match r {
            Some(t) => t.0 == network_bytes(content@).0 && t.1 == network_bytes(content@).1,
            None => network_bytes(content@).0 > u64::MAX || network_bytes(content@).1 > u64::MAX,
        },
{
    let chars = chars_of(content);
    let lines = split_lines(&chars);
    let ghost all = lines_of(content@);
    let colon = chars_of(":");
    let loopback = chars_of("lo");
    let mut rx_total: u64 = 0;
    let mut tx_total: u64 = 0;
    if lines.len() < 2 {
        return Some((0, 0));
    }
    let mut i: usize = 2;
    while i < lines.len()
        invariant
            2 <= i <= lines.len(),
            all == views(lines@),
            all == lines_of(content@),
            colon@ == ":"@,
            loopback@ == "lo"@,
            rx_total == bytes_before(all, i as int).0,
            tx_total == bytes_before(all, i as int).1,
        decreases lines.len() - i,
    {
        assert(all[i as int] == lines@[i as int]@);
        let parts = split_fields(&lines[i]);
        if parts.len() >= 10 {
            assert(views(parts@)[0] == parts@[0]@ && views(parts@)[1] == parts@[1]@ && views(
                parts@,
            )[9] == parts@[9]@);
            let name = crate::systemd::strip_suffix_all(&parts[0], &colon);
            if !crate::text::chars_eq(&name, &loopback) {
                let rx = parse_unsigned_chars(&parts[1], u64::MAX);
                let tx = parse_unsigned_chars(&parts[9], u64::MAX);
                match (rx, tx) {
                    (Some(a), Some(b)) => {
                        if a > u64::MAX - rx_total || b > u64::MAX - tx_total {
                            proof {
                                lemma_bytes_grow(all, i + 1);
                            }
                            return None;
                        }
                        rx_total = rx_total + a;
                        tx_total = tx_total + b;
                    },
                    _ => {},
                }
            }
        }
        i += 1;
    }
    Some((rx_total, tx_total))
}

/// How many services run, are stopped and have failed.
#[derive(Debug, Clone, Copy, PartialEq, Eq)]
pub struct StateCounts {
    pub running: usize,
    pub stopped: usize,
    pub failed: usize,
}

/// The number of services in the given state.
pub open spec fn state_count(services: Seq<ServiceInfo>, state: ServiceState) -> nat
    decreases services.len(),
{
    if services.len() == 0 {
        0
    } else {
        state_count(services.drop_last(), state) + if services.last().state == state {
            1nat
        } else {
            0nat
        }
    }
}

/// No more services are in a state than there are.
pub proof fn lemma_state_count_bound(services: Seq<ServiceInfo>, state: ServiceState)
    ensures
        state_count(services, state) <= services.len(),
    decreases services.len(),
{
    if services.len() > 0 {
        lemma_state_count_bound(services.drop_last(), state);
    }
}

/// Counts the services that run, are stopped and have failed.
pub fn count_states(services: &Vec<ServiceInfo>) -> (r: StateCounts)
    ensures
        r.running == state_count(services@, ServiceState::Running),
        r.stopped == state_count(services@, ServiceState::Stopped),
        r.failed == state_count(services@, ServiceState::Failed),
{
    let mut r = StateCounts { running: 0, stopped: 0, failed: 0 };
    let mut i: usize = 0;
    assert(services@.take(0) =~= Seq::empty());
    while i < services.len()
        invariant
            i <= services.len(),
            r.running == state_count(services@.take(i as int), ServiceState::Running),
            r.stopped == state_count(services@.take(i as int), ServiceState::Stopped),
            r.failed == state_count(services@.take(i as int), ServiceState::Failed),
        decreases services.len() - i,
    {
        proof {
            assert(services@.take(i + 1).drop_last() =~= services@.take(i as int));
            assert(services@.take(i + 1).last() == services@[i as int]);
            lemma_state_count_bound(services@.take(i as int), ServiceState::Running);
            lemma_state_count_bound(services@.take(i as int), ServiceState::Stopped);
            lemma_state_count_bound(services@.take(i as int), ServiceState::Failed);
        }
        match services[i].state {
            ServiceState::Running => {
                r.running = r.running + 1;
            },
            ServiceState::Stopped => {
                r.stopped = r.stopped + 1;
            },
            ServiceState::Failed => {
                r.failed = r.failed + 1;
            },
            ServiceState::Unknown => {},
        }
        i += 1;
    }
    assert(services@.take(services@.len() as int) =~= services@);
    r
}

/// The number in the second field of a line; zero where there is none or it
/// is no 64-bit number.
pub open spec fn second_field(line: Seq<char>) -> u64 {
    let parts = fields(line);
    if parts.len() > 1 {
        match parse_unsigned(parts[1], u64::MAX as nat) {
            Some(n) => n as u64,
            None => 0,
        }
    } else {
        0
    }
}

/// The number that the last of `lines` beginning with `key` gives in its
/// second field, or zero where no line begins with it.
pub open spec fn keyed_number(lines: Seq<Seq<char>>, key: Seq<char>) -> u64
    decreases lines.len(),
{
    if lines.len() == 0 {
        0
    } else if starts_with(lines.last(), key) {
        second_field(lines.last())
    } else {
        keyed_number(lines.drop_last(), key)
    }
}

/// The memory in use, in percent of the total, that the text of
/// `/proc/meminfo` shows: none where it shows more memory available than
/// there is; zero where it shows no total.
pub open spec fn memory_use(content: Seq<char>) -> Option<u32> {
    let total = keyed_number(lines_of(content), "MemTotal:"@);
    let available = keyed_number(lines_of(content), "MemAvailable:"@);
    if total == 0 {
        Some(0)
    } else if available > total {
        None
    } else {
        Some(((total - available) * 100 / total as int) as u32)
    }
}

/// Reads the memory in use, in percent, out of the text of
/// `/proc/meminfo`.
pub fn memory_percent(content: &str) -> (r: Option<u32>)
    ensures
        r == memory_use(content@),
{
    let chars = chars_of(content);
    let lines = split_lines(&chars);
    let ghost all = lines_of(content@);
    let total_key = chars_of("MemTotal:");
    let available_key = chars_of("MemAvailable:");
    let mut total: u64 = 0;
    let mut available: u64 = 0;
    let mut i: usize = 0;
    assert(all.take(0) =~= Seq::empty());
    while i < lines.len()
        invariant
            i <= lines.len(),
            all == views(lines@),
            total_key@ == "MemTotal:"@,
            available_key@ == "MemAvailable:"@,
            total == keyed_number(all.take(i as int), "MemTotal:"@),
            available == keyed_number(all.take(i as int), "MemAvailable:"@),
        decreases lines.len() - i,
    {
        proof {
            assert(all.take(i + 1).drop_last() =~= all.take(i as int));
            assert(all.take(i + 1).last() == lines@[i as int]@);
        }
        let line = &lines[i];
        let is_total = crate::text::matches_at_index(line, &total_key, 0);
        let is_available = crate::text::matches_at_index(line, &available_key, 0);
        if is_total || is_available {
            let parts = split_fields(line);
            let value: u64 = if parts.len() > 1 {
                assert(views(parts@)[1] == parts@[1]@);
                match parse_unsigned_chars(&parts[1], u64::MAX) {
                    Some(n) => n,
                    None => 0,
                }
            } else {
                0
            };
            assert(value == second_field(lines@[i as int]@));
            if is_total {
                total = value;
            }
            if is_available {
                available = value;
            }
        }
        i += 1;
    }
    assert(all.take(lines@.len() as int) =~= all);
    if total == 0 {
        Some(0)
    } else if available > total {
        None
    } else {
        let used: u128 = (total - available) as u128 * 100;
        let percent: u128 = used / (total as u128);
        assert(percent <= 100) by (nonlinear_arith)
            requires
                percent == used / (total as u128),
                used <= (total as u128) * 100,
                total > 0,
        ;
        Some(percent as u32)
    }
}

/// The disk space in use, in percent, that the output of `df` for one file
/// system shows: the number before the percent signs at the end of its
/// second line; zero where there is none.
pub open spec fn disk_use(output: Seq<char>) -> u32 {
    let lines = lines_of(output);
    if lines.len() > 1 {
        match parse_unsigned(
            crate::systemd::without_suffix(crate::split::trim(lines[1]), "%"@),
            u32::MAX as nat,
        ) {
            Some(n) => n as u32,
            None => 0,
        }
    } else {
        0
    }
}

/// Reads the disk space in use, in percent, out of the output of `df`.
pub fn disk_percent(output: &str) -> (r: u32)
    ensures
        r == disk_use(output@),
{
    let chars = chars_of(output);
    let lines = split_lines(&chars);
    if lines.len() < 2 {
        return 0;
    }
    assert(views(lines@)[1] == lines@[1]@);
    let trimmed = crate::split::trim_chars(&lines[1]);
    let sign = chars_of("%");
    let number = crate::systemd::strip_suffix_all(&trimmed, &sign);
    match parse_unsigned_chars(&number, 0xFFFF_FFFF) {
        Some(n) => n as u32,
        None => 0,
    }
}

/// The colour of accent of the given name, or the blue that suits the
/// theme for any other name.
pub open spec fn accent(name: Seq<char>, dark: bool) -> Seq<char> {
    if name == "blue"@ {
        "#3584e4"@
    } else if name == "teal"@ {
        "#2190a4"@
    } else if name == "green"@ {
        "#3a944a"@
    } else if name == "yellow"@ {
        "#c88800"@
    } else if name == "orange"@ {
        "#ed5b00"@
    } else if name == "red"@ {
        "#e62d42"@
    } else if name == "pink"@ {
        "#d56199"@
    } else if name == "purple"@ {
        "#9141ac"@
    } else if name == "slate"@ {
        "#6f8396"@
    } else if dark {
        "#62a0ea"@
    } else {
        "#3584e4"@
    }
}

/// The colour of accent of the given name.
pub fn accent_color(name: &str, dark: bool) -> (r: &'static str)
    ensures
        r@ == accent(name@, dark),
{
    if str_eq(name, "blue") {
        "#3584e4"
    } else if str_eq(name, "teal") {
        "#2190a4"
    } else if str_eq(name, "green") {
        "#3a944a"
    } else if str_eq(name, "yellow") {
        "#c88800"
    } else if str_eq(name, "orange") {
        "#ed5b00"
    } else if str_eq(name, "red") {
        "#e62d42"
    } else if str_eq(name, "pink") {
        "#d56199"
    } else if str_eq(name, "purple") {
        "#9141ac"
    } else if str_eq(name, "slate") {
        "#6f8396"
    } else if dark {
        "#62a0ea"
    } else {
        "#3584e4"
    }
}

} // verus!

//! Listening endpoints and what is known of each.

use vstd::prelude::*;
use crate::admin::decode::IpAddress;
use crate::numeric::{decimal, decimal_chars};
use crate::text::{clone_opt, opt_str_text, opt_text, owned, push_chars, push_str, str_eq};

verus! {

/// Protocol type for a listening endpoint.
#[derive(Debug, Clone, Copy, PartialEq, Eq, Structural)]
pub enum Protocol {
    Tcp,
    Udp,
}

impl Protocol {
    /// The protocol's name in upper case.
    pub open spec fn name(self) -> Seq<char> {
        match self {
            Protocol::Tcp => "TCP"@,
            Protocol::Udp => "UDP"@,
        }
    }

    /// The protocol's name in lower case, as firewall rules write it.
    pub open spec fn rule_name(self) -> Seq<char> {
        match self {
            Protocol::Tcp => "tcp"@,
            Protocol::Udp => "udp"@,
        }
    }

    /// The protocol's rank in the order of endpoints: TCP before UDP.
    pub open spec fn ordinal(self) -> int {
        match self {
            Protocol::Tcp => 0,
            Protocol::Udp => 1,
        }
    }

    /// The protocol's name in upper case.
    pub fn as_str(&self) -> (r: &'static str)
        ensures
            r@ == self.name(),
    {
        match self {
            Protocol::Tcp => "TCP",
            Protocol::Udp => "UDP",
        }
    }

    /// The protocol's name in lower case, as firewall rules write it.
    pub fn as_rule_str(&self) -> (r: &'static str)
        ensures
            r@ == self.rule_name(),
    {
        match self {
            Protocol::Tcp => "tcp",
            Protocol::Udp => "udp",
        }
    }
}

/// Firewall status for a port.
#[derive(Debug, PartialEq, Eq)]
pub enum FirewallStatus {
    /// Port is allowed in the specified zone.
    Allowed { zone: String },
    /// Port is blocked by a rule that rejects or drops it.
    Blocked,
    /// No rule matched, or the firewall could not be asked.
    Unknown,
}

/// What a `FirewallStatus` holds, as plain values.
pub enum StatusView {
    Allowed { zone: Seq<char> },
    Blocked,
    Unknown,
}

impl View for FirewallStatus {
    type V = StatusView;

    open spec fn view(&self) -> StatusView {
        match self {
            FirewallStatus::Allowed { zone } => StatusView::Allowed { zone: zone@ },
            FirewallStatus::Blocked => StatusView::Blocked,
            FirewallStatus::Unknown => StatusView::Unknown,
        }
    }
}

/// The icon that shows a status.
pub open spec fn status_icon(s: StatusView) -> Seq<char> {
    match s {
        StatusView::Allowed { .. } => "security-low-symbolic"@,
        StatusView::Blocked => "security-high-symbolic"@,
        StatusView::Unknown => "security-medium-symbolic"@,
    }
}

/// The words that show a status.
pub open spec fn status_label(s: StatusView) -> Seq<char> {
    match s {
        StatusView::Allowed { zone } => "Allowed ("@ + zone + ")"@,
        StatusView::Blocked => "Blocked"@,
        StatusView::Unknown => "Not Checked"@,
    }
}

impl Clone for FirewallStatus {
    fn clone(&self) -> (r: Self)
        ensures
            r@ == self@,
    {
        match self {
            FirewallStatus::Allowed { zone } => FirewallStatus::Allowed { zone: zone.clone() },
            FirewallStatus::Blocked => FirewallStatus::Blocked,
            FirewallStatus::Unknown => FirewallStatus::Unknown,
        }
    }
}

impl Default for FirewallStatus {
    fn default() -> (r: Self)
        ensures
            r@ == StatusView::Unknown,
    {
        FirewallStatus::Unknown
    }
}

impl FirewallStatus {
    /// The icon that shows the status.
    pub fn icon(&self) -> (r: &'static str)
        ensures
            r@ == status_icon(self@),
    {
        match self {
            FirewallStatus::Allowed { .. } => "security-low-symbolic",
            FirewallStatus::Blocked => "security-high-symbolic",
            FirewallStatus::Unknown => "security-medium-symbolic",
        }
    }

    /// The words that show the status.
    pub fn label(&self) -> (r: String)
        ensures
            r@ == status_label(self@),
    {
        match self {
            FirewallStatus::Allowed { zone } => {
                let mut r = owned("Allowed (");
                push_str(&mut r, zone.as_str());
                push_str(&mut r, ")");
                r
            },
            FirewallStatus::Blocked => owned("Blocked"),
            FirewallStatus::Unknown => owned("Not Checked"),
        }
    }
}

/// A network endpoint that is listening for connections.
#[derive(Debug)]
pub struct ListeningEndpoint {
    /// Local IP address (all zero means all interfaces).
    pub local_addr: IpAddress,
    /// Local port number.
    pub port: u16,
    /// Protocol (TCP/UDP).
    pub protocol: Protocol,
    /// Socket inode for correlation.
    pub inode: u64,
    /// Process ID (if found).
    pub pid: Option<u32>,
    /// Process name (if found).
    pub process_name: Option<String>,
    /// Process command line (if found).
    pub cmdline: Option<String>,
    /// Firewall status.
    pub firewall_status: FirewallStatus,
}

/// What a `ListeningEndpoint` holds, as plain values.
pub struct EndpointView {
    pub local_addr: IpAddress,
    pub port: u16,
    pub protocol: Protocol,
    pub inode: u64,
    pub pid: Option<u32>,
    pub process_name: Option<Seq<char>>,
    pub cmdline: Option<Seq<char>>,
    pub firewall_status: StatusView,
}

impl View for ListeningEndpoint {
    type V = EndpointView;

    open spec fn view(&self) -> EndpointView {
        EndpointView {
            local_addr: self.local_addr,
            port: self.port,
            protocol: self.protocol,
            inode: self.inode,
            pid: self.pid,
            process_name: opt_text(self.process_name),
            cmdline: opt_text(self.cmdline),
            firewall_status: self.firewall_status@,
        }
    }
}

/// What a sequence of endpoints holds.
pub open spec fn endpoint_views(s: Seq<ListeningEndpoint>) -> Seq<EndpointView> {
    Seq::new(s.len(), |i: int| s[i]@)
}

/// Pushing an endpoint appends what it holds.
pub proof fn lemma_endpoint_views_push(s: Seq<ListeningEndpoint>, e: ListeningEndpoint)
    ensures
        endpoint_views(s.push(e)) == endpoint_views(s).push(e@),
{
    assert(endpoint_views(s.push(e)) =~= endpoint_views(s).push(e@));
}

/// An endpoint as the socket tables show it: no process, no firewall status
/// yet.
pub open spec fn fresh_endpoint(
    local_addr: IpAddress,
    port: u16,
    protocol: Protocol,
    inode: u64,
) -> EndpointView {
    EndpointView {
        local_addr,
        port,
        protocol,
        inode,
        pid: None,
        process_name: None,
        cmdline: None,
        firewall_status: StatusView::Unknown,
    }
}

/// The warning that an endpoint deserves: none unless it listens on all
/// interfaces and the firewall allows it.
pub open spec fn endpoint_warning(e: EndpointView) -> Option<Seq<char>> {
    if e.local_addr.unspecified() {
        match e.firewall_status {
            StatusView::Allowed { zone } => if zone == "public"@ || zone == "external"@ {
                Some("Exposed to public network"@)
            } else {
                Some("Listening on all interfaces"@)
            },
            _ => None,
        }
    } else {
        None
    }
}

/// The display name of an endpoint: `name (port)` with a process name,
/// `Port port` without.
pub open spec fn endpoint_name(e: EndpointView) -> Seq<char> {
    match e.process_name {
        Some(name) => name + " ("@ + decimal(e.port as nat) + ")"@,
        None => "Port "@ + decimal(e.port as nat),
    }
}

impl Clone for ListeningEndpoint {
    fn clone(&self) -> (r: Self)
        ensures
            r@ == self@,
    {
        ListeningEndpoint {
            local_addr: self.local_addr,
            port: self.port,
            protocol: self.protocol,
            inode: self.inode,
            pid: self.pid,
            process_name: clone_opt(&self.process_name),
            cmdline: clone_opt(&self.cmdline),
            firewall_status: self.firewall_status.clone(),
        }
    }
}

impl ListeningEndpoint {
    /// Check if listening on all interfaces (potentially exposed).
    pub fn is_exposed(&self) -> (r: bool)
        ensures
            r == self.local_addr.unspecified(),
    {
        self.local_addr.is_unspecified()
    }

    /// Get a warning message if this endpoint is risky.
    pub fn warning(&self) -> (r: Option<&'static str>)
        ensures
            opt_str_text(r) == endpoint_warning(self@),
    {
        if self.is_exposed() {
            match &self.firewall_status {
                FirewallStatus::Allowed { zone } => {
                    if str_eq(zone.as_str(), "public") || str_eq(zone.as_str(), "external") {
                        Some("Exposed to public network")
                    } else {
                        Some("Listening on all interfaces")
                    }
                },
                _ => None,
            }
        } else {
            None
        }
    }

    /// Get a display name for the endpoint.
    pub fn display_name(&self) -> (r: String)
        ensures
            r@ == endpoint_name(self@),
    {
        let digits = decimal_chars(self.port as u64);
        match &self.process_name {
            Some(name) => {
                let mut r = name.clone();
                push_str(&mut r, " (");
                push_chars(&mut r, &digits);
                push_str(&mut r, ")");
                r
            },
            None => {
                let mut r = owned("Port ");
                push_chars(&mut r, &digits);
                r
            },
        }
    }
}

/// The service commonly found on a port, if any.
pub open spec fn service_name(port: u16) -> Option<Seq<char>> {
    if port == 22 {
        Some("SSH"@)
    } else if port == 23 {
        Some("Telnet"@)
    } else if port == 25 {
        Some("SMTP"@)
    } else if port == 53 {
        Some("DNS"@)
    } else if port == 80 {
        Some("HTTP"@)
    } else if port == 110 {
        Some("POP3"@)
    } else if port == 143 {
        Some("IMAP"@)
    } else if port == 443 {
        Some("HTTPS"@)
    } else if port == 465 {
        Some("SMTPS"@)
    } else if port == 587 {
        Some("Submission"@)
    } else if port == 993 {
        Some("IMAPS"@)
    } else if port == 995 {
        Some("POP3S"@)
    } else if port == 3306 {
        Some("MySQL"@)
    } else if port == 5432 {
        Some("PostgreSQL"@)
    } else if port == 6379 {
        Some("Redis"@)
    } else if port == 8080 {
        Some("HTTP Alt"@)
    } else if port == 8443 {
        Some("HTTPS Alt"@)
    } else if port == 27017 {
        Some("MongoDB"@)
    } else {
        None
    }
}

/// Common well-known ports and their service names.
pub fn get_service_name(port: u16) -> (r: Option<&'static str>)
    ensures
        opt_str_text(r) == service_name(port),
{
    match port {
        22 => Some("SSH"),
        23 => Some("Telnet"),
        25 => Some("SMTP"),
        53 => Some("DNS"),
        80 => Some("HTTP"),
        110 => Some("POP3"),
        143 => Some("IMAP"),
        443 => Some("HTTPS"),
        465 => Some("SMTPS"),
        587 => Some("Submission"),
        993 => Some("IMAPS"),
        995 => Some("POP3S"),
        3306 => Some("MySQL"),
        5432 => Some("PostgreSQL"),
        6379 => Some("Redis"),
        8080 => Some("HTTP Alt"),
        8443 => Some("HTTPS Alt"),
        27017 => Some("MongoDB"),
        _ => None,
    }
}

} // verus!

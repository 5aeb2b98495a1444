//! Firewall port model.

use vstd::prelude::*;
use crate::numeric::{decimal, decimal_chars, parse_unsigned, parse_unsigned_chars};
use crate::rich_rule::{parse_rich_rule_raw, rule_blocks, rule_blocks_chars, rule_port_raw};
use crate::split::{split_chars, split_on, views};
use crate::text::{chars_of, clone_opt, contains_chars, contains_sub, opt_str_text, opt_text, owned,
    position, position_in, push_char, push_chars, push_str, str_eq, string_of};

verus! {

/// A firewall port rule.
#[derive(Debug)]
pub struct Port {
    pub number: u16,
    pub protocol: String,
    pub zone: Option<String>,
    pub name: Option<String>,
    pub description: Option<String>,
    pub direction: String,
    pub action: String,
    pub is_permanent: bool,
}

/// What a `Port` holds, as plain values.
pub struct PortView {
    pub number: u16,
    pub protocol: Seq<char>,
    pub zone: Option<Seq<char>>,
    pub name: Option<Seq<char>>,
    pub description: Option<Seq<char>>,
    pub direction: Seq<char>,
    pub action: Seq<char>,
    pub is_permanent: bool,
}

impl View for Port {
    type V = PortView;

    open spec fn view(&self) -> PortView {
        PortView {
            number: self.number,
            protocol: self.protocol@,
            zone: opt_text(self.zone),
            name: opt_text(self.name),
            description: opt_text(self.description),
            direction: self.direction@,
            action: self.action@,
            is_permanent: self.is_permanent,
        }
    }
}

/// An incoming rule that accepts `number`/`protocol`, in `zone` if one is
/// given, with no name or description, not permanent.
pub open spec fn accept_rule(number: u16, protocol: Seq<char>, zone: Option<Seq<char>>) -> PortView {
    PortView {
        number,
        protocol,
        zone,
        name: None,
        description: None,
        direction: "in"@,
        action: "accept"@,
        is_permanent: false,
    }
}

/// `number/protocol`.
pub open spec fn port_label(number: u16, protocol: Seq<char>) -> Seq<char> {
    decimal(number as nat) + seq!['/'] + protocol
}

/// The display text of a port: `name (number/protocol)` with a name,
/// `number/protocol` without.
pub open spec fn display_text(p: PortView) -> Seq<char> {
    match p.name {
        Some(name) => name + " ("@ + port_label(p.number, p.protocol) + ")"@,
        None => port_label(p.number, p.protocol),
    }
}

/// The service commonly found on `number`/`protocol`, if any.
pub open spec fn port_service(number: u16, protocol: Seq<char>) -> Option<Seq<char>> {
    let tcp = protocol == "tcp"@;
    let udp = protocol == "udp"@;
    if number == 22 && tcp {
        Some("SSH"@)
    } else if number == 80 && tcp {
        Some("HTTP"@)
    } else if number == 443 && tcp {
        Some("HTTPS"@)
    } else if number == 21 && tcp {
        Some("FTP"@)
    } else if number == 25 && tcp {
        Some("SMTP"@)
    } else if number == 53 && (tcp || udp) {
        Some("DNS"@)
    } else if (number == 67 || number == 68) && udp {
        Some("DHCP"@)
    } else if number == 110 && tcp {
        Some("POP3"@)
    } else if number == 143 && tcp {
        Some("IMAP"@)
    } else if number == 445 && tcp {
        Some("SMB"@)
    } else if number == 3306 && tcp {
        Some("MySQL"@)
    } else if number == 5432 && tcp {
        Some("PostgreSQL"@)
    } else if number == 6379 && tcp {
        Some("Redis"@)
    } else if number == 8080 && tcp {
        Some("HTTP Alt"@)
    } else {
        None
    }
}

/// The rule that the entry `port/protocol` stands for.
pub open spec fn parsed_entry(s: Seq<char>, zone: Option<Seq<char>>) -> Option<PortView> {
    let parts = split_on(s, '/');
    if parts.len() == 2 {
        match parse_unsigned(parts[0], 65535) {
            Some(n) => Some(accept_rule(n as u16, parts[1], zone)),
            None => None,
        }
    } else {
        None
    }
}

/// The rule that a zone's entry stands for: `port/protocol`, or
/// `first-last/protocol` for a range of at most 101 ports, which stands for
/// its first port.
pub open spec fn parsed_zone_entry(s: Seq<char>, zone: Seq<char>) -> Option<PortView> {
    let parts = split_on(s, '/');
    if parts.len() != 2 {
        None
    } else if position(parts[0], '-') is Some {
        let range = split_on(parts[0], '-');
        if range.len() == 2 {
            match (parse_unsigned(range[0], 65535), parse_unsigned(range[1], 65535)) {
                (Some(first), Some(last)) => if first <= last && last - first <= 100 {
                    Some(accept_rule(first as u16, parts[1], Some(zone)))
                } else {
                    None
                },
                _ => None,
            }
        } else {
            None
        }
    } else {
        parsed_entry(s, Some(zone))
    }
}

/// The word by which a blocking rich rule blocks: `reject` if the rule holds
/// that word, else `drop`.
pub open spec fn blocking_action(rule: Seq<char>) -> Seq<char> {
    if contains_sub(rule, "reject"@) {
        "reject"@
    } else {
        "drop"@
    }
}

/// The permanent blocking rule that a rich rule stands for in `zone`, if it
/// rejects or drops a port.
pub open spec fn parsed_rich_rule(rule: Seq<char>, zone: Seq<char>) -> Option<PortView> {
    if !rule_blocks(rule) {
        None
    } else {
        match rule_port_raw(rule) {
            Some((number, protocol)) => Some(
                PortView {
                    number,
                    protocol,
                    zone: Some(zone),
                    name: None,
                    description: Some(
                        "Blocked via rich rule ("@ + blocking_action(rule) + ")"@,
                    ),
                    direction: "in"@,
                    action: blocking_action(rule),
                    is_permanent: true,
                },
            ),
            None => None,
        }
    }
}

impl Clone for Port {
    fn clone(&self) -> (r: Self)
        ensures
            r@ == self@,
    {
        Port {
            number: self.number,
            protocol: self.protocol.clone(),
            zone: clone_opt(&self.zone),
            name: clone_opt(&self.name),
            description: clone_opt(&self.description),
            direction: self.direction.clone(),
            action: self.action.clone(),
            is_permanent: self.is_permanent,
        }
    }
}

impl Default for Port {
    fn default() -> (r: Self)
        ensures
            r@ == (PortView {
                number: 0,
                protocol: Seq::empty(),
                zone: None,
                name: None,
                description: None,
                direction: Seq::empty(),
                action: Seq::empty(),
                is_permanent: false,
            }),
    {
        Port {
            number: 0,
            protocol: String::new(),
            zone: None,
            name: None,
            description: None,
            direction: String::new(),
            action: String::new(),
            is_permanent: false,
        }
    }
}

impl Port {
    /// Create a new port.
    pub fn new(number: u16, protocol: &str) -> (r: Self)
        ensures
            r@ == accept_rule(number, protocol@, None),
    {
        Port {
            number,
            protocol: owned(protocol),
            zone: None,
            name: None,
            description: None,
            direction: owned("in"),
            action: owned("accept"),
            is_permanent: false,
        }
    }

    /// Create a port with zone info.
    pub fn with_zone(number: u16, protocol: &str, zone: &str) -> (r: Self)
        ensures
            r@ == accept_rule(number, protocol@, Some(zone@)),
    {
        Port {
            number,
            protocol: owned(protocol),
            zone: Some(owned(zone)),
            name: None,
            description: None,
            direction: owned("in"),
            action: owned("accept"),
            is_permanent: false,
        }
    }

    /// Get the display string for the port.
    pub fn display_string(&self) -> (r: String)
        ensures
            r@ == display_text(self@),
    {
        let digits = decimal_chars(self.number as u64);
        let mut label = String::new();
        push_chars(&mut label, &digits);
        push_char(&mut label, '/');
        push_str(&mut label, self.protocol.as_str());
        assert(label@ =~= port_label(self.number, self.protocol@));
        match &self.name {
            Some(name) => {
                let mut r = name.clone();
                push_str(&mut r, " (");
                push_str(&mut r, label.as_str());
                push_str(&mut r, ")");
                r
            },
            None => label,
        }
    }

    /// Get the well-known service name for this port.
    pub fn well_known_service(&self) -> (r: Option<&'static str>)
        ensures
            opt_str_text(r) == port_service(self.number, self.protocol@),
    {
        let tcp = str_eq(self.protocol.as_str(), "tcp");
        let udp = str_eq(self.protocol.as_str(), "udp");
        let number = self.number;
        if number == 22 && tcp {
            Some("SSH")
        } else if number == 80 && tcp {
            Some("HTTP")
        } else if number == 443 && tcp {
            Some("HTTPS")
        } else if number == 21 && tcp {
            Some("FTP")
        } else if number == 25 && tcp {
            Some("SMTP")
        } else if number == 53 && (tcp || udp) {
            Some("DNS")
        } else if (number == 67 || number == 68) && udp {
            Some("DHCP")
        } else if number == 110 && tcp {
            Some("POP3")
        } else if number == 143 && tcp {
            Some("IMAP")
        } else if number == 445 && tcp {
            Some("SMB")
        } else if number == 3306 && tcp {
            Some("MySQL")
        } else if number == 5432 && tcp {
            Some("PostgreSQL")
        } else if number == 6379 && tcp {
            Some("Redis")
        } else if number == 8080 && tcp {
            Some("HTTP Alt")
        } else {
            None
        }
    }

    /// Parse a port string like "8080/tcp".
    pub fn parse(s: &str) -> (r: Option<Self>)
        ensures
            match r {
                Some(p) => parsed_entry(s@, None) == Some(p@),
                None => parsed_entry(s@, None) is None,
            },
    {
        let chars = chars_of(s);
        let parts = split_chars(&chars, '/');
        if parts.len() != 2 {
            return None;
        }
        assert(views(parts@)[0] == parts@[0]@ && views(parts@)[1] == parts@[1]@);
        match parse_unsigned_chars(&parts[0], 65535) {
            Some(n) => {
                let protocol = string_of(&parts[1]);
                Some(Port::new(n as u16, protocol.as_str()))
            },
            None => None,
        }
    }

    /// Parse a port string with zone like "8080/tcp" from zone "public".
    ///
    /// A range like "5000-5010/tcp" of at most 101 ports gives its first
    /// port; a larger range, or one whose ends are out of order, gives
    /// nothing.
    pub fn parse_with_zone(s: &str, zone: &str) -> (r: Option<Self>)
        ensures
            match r {
                Some(p) => parsed_zone_entry(s@, zone@) == Some(p@),
                None => parsed_zone_entry(s@, zone@) is None,
            },
    {
        let chars = chars_of(s);
        let parts = split_chars(&chars, '/');
        if parts.len() != 2 {
            return None;
        }
        assert(views(parts@)[0] == parts@[0]@ && views(parts@)[1] == parts@[1]@);
        let protocol = string_of(&parts[1]);
        if position_in(&parts[0], '-', 0).is_some() {
            let range = split_chars(&parts[0], '-');
            if range.len() != 2 {
                return None;
            }
            assert(views(range@)[0] == range@[0]@ && views(range@)[1] == range@[1]@);
            let first = parse_unsigned_chars(&range[0], 65535);
            let last = parse_unsigned_chars(&range[1], 65535);
            match (first, last) {
                (Some(a), Some(b)) => {
                    if a <= b && b - a <= 100 {
                        Some(Port::with_zone(a as u16, protocol.as_str(), zone))
                    } else {
                        None
                    }
                },
                _ => None,
            }
        } else {
            match parse_unsigned_chars(&parts[0], 65535) {
                Some(n) => Some(Port::with_zone(n as u16, protocol.as_str(), zone)),
                None => None,
            }
        }
    }

    /// Parse a blocked port from a rich rule string.
    ///
    /// Example: `rule family="ipv4" port port="80" protocol="tcp" reject`.
    /// Returns `Some` if this is a port reject or drop rule, `None`
    /// otherwise.
    pub fn parse_from_rich_rule(rule: &str, zone: &str) -> (r: Option<Self>)
        ensures
            match r {
                Some(p) => parsed_rich_rule(rule@, zone@) == Some(p@),
                None => parsed_rich_rule(rule@, zone@) is None,
            },
    {
        let chars = chars_of(rule);
        if !rule_blocks_chars(&chars) {
            return None;
        }
        match parse_rich_rule_raw(&chars) {
            Some((number, protocol)) => {
                let reject = chars_of("reject");
                let action = if contains_chars(&chars, &reject) {
                    "reject"
                } else {
                    "drop"
                };
                let mut description = owned("Blocked via rich rule (");
                push_str(&mut description, action);
                push_str(&mut description, ")");
                Some(
                    Port {
                        number,
                        protocol: string_of(&protocol),
                        zone: Some(owned(zone)),
                        name: None,
                        description: Some(description),
                        direction: owned("in"),
                        action: owned(action),
                        is_permanent: true,
                    },
                )
            },
            None => None,
        }
    }
}

} // verus!

//! A consolidated port groups the same port number across multiple zones
//! and protocols.
//!
//! Rules are grouped by port number and normalized action: an accepted and
//! a denied rule on one port never share a record.

use vstd::prelude::*;
use crate::casing::{uppercase, uppercase_of_chars};
use crate::lexical::{add_distinct, with_distinct};
use crate::models::port::{Port, PortView};
use crate::numeric::{decimal, decimal_chars};
use crate::text::{chars_of, clone_opt, clone_texts, opt_str_text, opt_text, owned, push_chars,
    push_str, str_eq, texts};

verus! {

/// A consolidated view of port rules, grouping the same port across
/// zones and protocols.
#[derive(Debug)]
pub struct ConsolidatedPort {
    /// The port number.
    pub number: u16,
    /// User-given name (if any).
    pub name: Option<String>,
    /// List of protocols (e.g., ["tcp"], ["udp"], or ["tcp", "udp"]).
    pub protocols: Vec<String>,
    /// List of zones this port rule applies to.
    pub zones: Vec<String>,
    /// Action: "accept" (open) or "deny" (blocked).
    pub action: String,
    /// Whether this is a permanent rule.
    pub is_permanent: bool,
}

/// What a `ConsolidatedPort` holds, as plain values.
pub struct ConsolidatedPortView {
    pub number: u16,
    pub name: Option<Seq<char>>,
    pub protocols: Seq<Seq<char>>,
    pub zones: Seq<Seq<char>>,
    pub action: Seq<char>,
    pub is_permanent: bool,
}

impl View for ConsolidatedPort {
    type V = ConsolidatedPortView;

    open spec fn view(&self) -> ConsolidatedPortView {
        ConsolidatedPortView {
            number: self.number,
            name: opt_text(self.name),
            protocols: texts(self.protocols@),
            zones: texts(self.zones@),
            action: self.action@,
            is_permanent: self.is_permanent,
        }
    }
}

/// What a sequence of ports holds.
pub open spec fn port_views(ports: Seq<Port>) -> Seq<PortView> {
    Seq::new(ports.len(), |i: int| ports[i]@)
}

/// What a sequence of consolidated ports holds.
pub open spec fn group_views(groups: Seq<ConsolidatedPort>) -> Seq<ConsolidatedPortView> {
    Seq::new(groups.len(), |i: int| groups[i]@)
}

/// Whether an action blocks: `reject`, `drop` or `deny`.
pub open spec fn is_deny_action(action: Seq<char>) -> bool {
    action == "reject"@ || action == "drop"@ || action == "deny"@
}

/// `deny` for an action that blocks, `accept` for any other.
pub open spec fn normalized_action(action: Seq<char>) -> Seq<char> {
    if is_deny_action(action) {
        "deny"@
    } else {
        "accept"@
    }
}

/// The record of one rule alone.
pub open spec fn single(p: PortView) -> ConsolidatedPortView {
    ConsolidatedPortView {
        number: p.number,
        name: p.name,
        protocols: seq![p.protocol],
        zones: match p.zone {
            Some(z) => seq![z],
            None => seq![],
        },
        action: p.action,
        is_permanent: p.is_permanent,
    }
}

/// Whether the rule `p` belongs to the group `g`: same port number, same
/// normalized action.
pub open spec fn same_group(g: ConsolidatedPortView, p: PortView) -> bool {
    g.number == p.number && g.action == normalized_action(p.action)
}

/// The index, from `i` on, of the first group that `p` belongs to.
pub open spec fn group_index_from(groups: Seq<ConsolidatedPortView>, p: PortView, i: int) -> Option<
    int,
>
    decreases groups.len() - i,
{
    if i < 0 || i >= groups.len() {
        None
    } else if same_group(groups[i], p) {
        Some(i)
    } else {
        group_index_from(groups, p, i + 1)
    }
}

/// The index of the group that `p` belongs to.
pub open spec fn group_index(groups: Seq<ConsolidatedPortView>, p: PortView) -> Option<int> {
    group_index_from(groups, p, 0)
}

/// The group `g` after it has taken in the rule `p`: the rule's protocol
/// and zone join the group's lists unless they are there in some case of
/// their letters, and the rule's name is taken if the group has none.
pub open spec fn absorbed(g: ConsolidatedPortView, p: PortView) -> ConsolidatedPortView {
    ConsolidatedPortView {
        number: g.number,
        name: if g.name is None {
            p.name
        } else {
            g.name
        },
        protocols: add_distinct(g.protocols, p.protocol),
        zones: match p.zone {
            Some(z) => add_distinct(g.zones, z),
            None => g.zones,
        },
        action: g.action,
        is_permanent: g.is_permanent,
    }
}

/// The index, from `i` on, of the first group whose port number is above
/// `number`, or the number of groups.
pub open spec fn place_from(groups: Seq<ConsolidatedPortView>, number: u16, i: int) -> int
    decreases groups.len() - i,
{
    if 0 <= i < groups.len() && groups[i].number <= number {
        place_from(groups, number, i + 1)
    } else {
        i
    }
}

/// The index at which a new group for `number` enters: after the groups
/// with that number or a lower one.
pub open spec fn place(groups: Seq<ConsolidatedPortView>, number: u16) -> int {
    place_from(groups, number, 0)
}

/// The first record of the group that `p` opens.
pub open spec fn opened(p: PortView) -> ConsolidatedPortView {
    ConsolidatedPortView {
        number: p.number,
        name: p.name,
        protocols: seq![p.protocol],
        zones: match p.zone {
            Some(z) => seq![z],
            None => seq![],
        },
        action: normalized_action(p.action),
        is_permanent: p.is_permanent,
    }
}

/// The groups after the rule `p` has joined its group, or opened one.
pub open spec fn merged(groups: Seq<ConsolidatedPortView>, p: PortView) -> Seq<
    ConsolidatedPortView,
> {
    match group_index(groups, p) {
        Some(i) => groups.update(i, absorbed(groups[i], p)),
        None => groups.insert(place(groups, p.number), opened(p)),
    }
}

/// The consolidated records of `ports`: one per port number and normalized
/// action, in ascending order of port number, the records of one number in
/// the order in which their first rules stand in `ports`.
pub open spec fn consolidated(ports: Seq<PortView>) -> Seq<ConsolidatedPortView>
    decreases ports.len(),
{
    if ports.len() == 0 {
        seq![]
    } else {
        merged(consolidated(ports.drop_last()), ports.last())
    }
}

/// The display text for protocols: `TCP/UDP` for two, the one protocol in
/// upper case for one or for more than two, `?` for none.
pub open spec fn protocol_text(protocols: Seq<Seq<char>>) -> Seq<char> {
    if protocols.len() == 2 {
        "TCP/UDP"@
    } else if protocols.len() > 0 {
        uppercase(protocols[0])
    } else {
        "?"@
    }
}

/// The service commonly found on a port, given whether the rule covers
/// TCP.
pub open spec fn group_service(number: u16, has_tcp: bool) -> Option<Seq<char>> {
    if number == 22 && has_tcp {
        Some("SSH"@)
    } else if number == 80 && has_tcp {
        Some("HTTP"@)
    } else if number == 443 && has_tcp {
        Some("HTTPS"@)
    } else if number == 21 && has_tcp {
        Some("FTP"@)
    } else if number == 25 && has_tcp {
        Some("SMTP"@)
    } else if number == 53 {
        Some("DNS"@)
    } else if number == 110 && has_tcp {
        Some("POP3"@)
    } else if number == 143 && has_tcp {
        Some("IMAP"@)
    } else if number == 445 && has_tcp {
        Some("SMB"@)
    } else if number == 3306 && has_tcp {
        Some("MySQL"@)
    } else if number == 5432 && has_tcp {
        Some("PostgreSQL"@)
    } else if number == 6379 && has_tcp {
        Some("Redis"@)
    } else if number == 8080 && has_tcp {
        Some("HTTP Alt"@)
    } else {
        None
    }
}

/// `label (number)`.
pub open spec fn titled(label: Seq<char>, number: u16) -> Seq<char> {
    label + " ("@ + decimal(number as nat) + ")"@
}

/// The display title: the name with the number, else the well-known
/// service with the number, else `Port` and the number.
pub open spec fn title_text(g: ConsolidatedPortView) -> Seq<char> {
    match g.name {
        Some(name) => titled(name, g.number),
        None => match group_service(g.number, g.protocols.contains("tcp"@)) {
            Some(service) => titled(service, g.number),
            None => "Port "@ + decimal(g.number as nat),
        },
    }
}

/// Whether an action text blocks.
pub fn is_deny(action: &str) -> (r: bool)
    ensures
        r == is_deny_action(action@),
{
    str_eq(action, "reject") || str_eq(action, "drop") || str_eq(action, "deny")
}

/// Whether `list` holds the text `x`.
pub fn holds_text(list: &Vec<String>, x: &str) -> (r: bool)
    ensures
        r == texts(list@).contains(x@),
{
    let mut i: usize = 0;
    while i < list.len()
        invariant
            i <= list.len(),
            forall|k: int| 0 <= k < i ==> texts(list@)[k] != x@,
        decreases list.len() - i,
    {
        if str_eq(list[i].as_str(), x) {
            assert(texts(list@)[i as int] == x@);
            return true;
        }
        i += 1;
    }
    false
}

impl Clone for ConsolidatedPort {
    fn clone(&self) -> (r: Self)
        ensures
            r@ == self@,
    {
        ConsolidatedPort {
            number: self.number,
            name: clone_opt(&self.name),
            protocols: clone_texts(&self.protocols),
            zones: clone_texts(&self.zones),
            action: self.action.clone(),
            is_permanent: self.is_permanent,
        }
    }
}

impl Default for ConsolidatedPort {
    fn default() -> (r: Self)
        ensures
            r@ == (ConsolidatedPortView {
                number: 0,
                name: None,
                protocols: Seq::empty(),
                zones: Seq::empty(),
                action: Seq::empty(),
                is_permanent: false,
            }),
    {
        let r = ConsolidatedPort {
            number: 0,
            name: None,
            protocols: Vec::new(),
            zones: Vec::new(),
            action: String::new(),
            is_permanent: false,
        };
        assert(texts(r.protocols@) =~= Seq::empty());
        assert(texts(r.zones@) =~= Seq::empty());
        r
    }
}

impl ConsolidatedPort {
    /// Create a new consolidated port from a single Port.
    pub fn from_port(port: &Port) -> (r: Self)
        ensures
            r@ == single(port@),
    {
        let mut protocols: Vec<String> = Vec::new();
        protocols.push(port.protocol.clone());
        let mut zones: Vec<String> = Vec::new();
        match &port.zone {
            Some(z) => {
                zones.push(z.clone());
            },
            None => {},
        }
        let r = ConsolidatedPort {
            number: port.number,
            name: clone_opt(&port.name),
            protocols,
            zones,
            action: port.action.clone(),
            is_permanent: port.is_permanent,
        };
        assert(r@.protocols =~= single(port@).protocols);
        assert(r@.zones =~= single(port@).zones);
        r
    }

    /// The group after it has taken in a rule of its port number and
    /// normalized action.
    pub fn absorb(&self, port: &Port) -> (r: Self)
        ensures
            r@ == absorbed(self@, port@),
    {
        let name = if self.name.is_none() {
            clone_opt(&port.name)
        } else {
            clone_opt(&self.name)
        };
        let zones = match &port.zone {
            Some(z) => with_distinct(&self.zones, z.as_str()),
            None => clone_texts(&self.zones),
        };
        ConsolidatedPort {
            number: self.number,
            name,
            protocols: with_distinct(&self.protocols, port.protocol.as_str()),
            zones,
            action: self.action.clone(),
            is_permanent: self.is_permanent,
        }
    }

    /// Group a list of ports by port number and action, consolidating
    /// zones and protocols.
    ///
    /// The records come in ascending order of port number; each holds its
    /// protocols and its zones in alphabetical order.
    pub fn consolidate(ports: &[Port]) -> (r: Vec<ConsolidatedPort>)
        ensures
            group_views(r@) == consolidated(port_views(ports@)),
    {
        let mut groups: Vec<ConsolidatedPort> = Vec::new();
        let ghost all = port_views(ports@);
        let mut i: usize = 0;
        assert(group_views(groups@) =~= consolidated(all.take(0)));
        while i < ports.len()
            invariant
                i <= ports.len(),
                all == port_views(ports@),
                group_views(groups@) == consolidated(all.take(i as int)),
            decreases ports.len() - i,
        {
            proof {
                assert(all.take(i + 1).drop_last() =~= all.take(i as int));
                assert(all.take(i + 1).last() == ports@[i as int]@);
            }
            merge_port(&mut groups, &ports[i]);
            i += 1;
        }
        assert(all.take(ports@.len() as int) =~= all);
        groups
    }

    /// Get a display string for protocols (e.g., "TCP", "UDP", "TCP/UDP").
    pub fn protocol_display(&self) -> (r: String)
        ensures
            r@ == protocol_text(self@.protocols),
    {
        if self.protocols.len() == 2 {
            owned("TCP/UDP")
        } else if self.protocols.len() > 0 {
            let first = chars_of(self.protocols[0].as_str());
            uppercase_of_chars(&first)
        } else {
            owned("?")
        }
    }

    /// Get display title (name or port number).
    pub fn display_title(&self) -> (r: String)
        ensures
            r@ == title_text(self@),
    {
        let digits = decimal_chars(self.number as u64);
        match &self.name {
            Some(name) => {
                let mut r = name.clone();
                push_str(&mut r, " (");
                push_chars(&mut r, &digits);
                push_str(&mut r, ")");
                r
            },
            None => match self.well_known_service() {
                Some(service) => {
                    let mut r = owned(service);
                    push_str(&mut r, " (");
                    push_chars(&mut r, &digits);
                    push_str(&mut r, ")");
                    r
                },
                None => {
                    let mut r = owned("Port ");
                    push_chars(&mut r, &digits);
                    r
                },
            },
        }
    }

    /// Check if this is a blocked (deny) rule.
    pub fn is_blocked(&self) -> (r: bool)
        ensures
            r == is_deny_action(self@.action),
    {
        is_deny(self.action.as_str())
    }

    /// Get well-known service name for common ports.
    pub fn well_known_service(&self) -> (r: Option<&'static str>)
        ensures
            opt_str_text(r) == group_service(self.number, self@.protocols.contains("tcp"@)),
    {
        let has_tcp = holds_text(&self.protocols, "tcp");
        let number = self.number;
        if number == 22 && has_tcp {
            Some("SSH")
        } else if number == 80 && has_tcp {
            Some("HTTP")
        } else if number == 443 && has_tcp {
            Some("HTTPS")
        } else if number == 21 && has_tcp {
            Some("FTP")
        } else if number == 25 && has_tcp {
            Some("SMTP")
        } else if number == 53 {
            Some("DNS")
        } else if number == 110 && has_tcp {
            Some("POP3")
        } else if number == 143 && has_tcp {
            Some("IMAP")
        } else if number == 445 && has_tcp {
            Some("SMB")
        } else if number == 3306 && has_tcp {
            Some("MySQL")
        } else if number == 5432 && has_tcp {
            Some("PostgreSQL")
        } else if number == 6379 && has_tcp {
            Some("Redis")
        } else if number == 8080 && has_tcp {
            Some("HTTP Alt")
        } else {
            None
        }
    }
}

/// Lets the rule `port` join its group in `groups`, or open one in its
/// place.
pub fn merge_port(groups: &mut Vec<ConsolidatedPort>, port: &Port)
    ensures
        group_views(final(groups)@) == merged(group_views(old(groups)@), port@),
{
    let ghost before = group_views(groups@);
    let deny = is_deny(port.action.as_str());
    let mut found: Option<usize> = None;
    let mut spot: usize = 0;
    let mut passing = true;
    let mut i: usize = 0;
    while i < groups.len()
        invariant
            i <= groups.len(),
            before == group_views(groups@),
            deny == is_deny_action(port@.action),
            spot <= i,
            passing ==> spot == i,
            place(before, port.number) == if passing {
                place_from(before, port.number, i as int)
            } else {
                spot as int
            },
            match found {
                Some(k) => k < i && group_index(before, port@) == Some(k as int),
                None => group_index(before, port@) == group_index_from(before, port@, i as int),
            },
        decreases groups.len() - i,
    {
        let g = &groups[i];
        assert(before[i as int] == g@);
        if found.is_none() {
            let wanted = if deny {
                "deny"
            } else {
                "accept"
            };
            if g.number == port.number && str_eq(g.action.as_str(), wanted) {
                found = Some(i);
            }
        }
        if passing {
            if g.number <= port.number {
                spot = i + 1;
            } else {
                passing = false;
            }
        }
        i += 1;
    }
    match found {
        Some(k) => {
            let updated = groups[k].absorb(port);
            groups.set(k, updated);
            assert(group_views(groups@) =~= before.update(k as int, absorbed(before[k as int], port@)));
        },
        None => {
            let mut opened_group = ConsolidatedPort::from_port(port);
            opened_group.action = if deny {
                owned("deny")
            } else {
                owned("accept")
            };
            assert(opened_group@ == opened(port@));
            groups.insert(spot, opened_group);
            assert(group_views(groups@) =~= before.insert(spot as int, opened(port@)));
        },
    }
}

} // verus!

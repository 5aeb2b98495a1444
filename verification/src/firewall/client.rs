//! What the firewall service's answers are made into.
//!
//! Talking to the service is the caller's part. It hands over the answers
//! as plain values; the zones, services and interfaces are built here.

use vstd::prelude::*;
use crate::firewall::{zone_description, zone_description_text};
use crate::models::interface::{Interface, InterfaceView};
use crate::models::service::{Service, ServiceView};
use crate::models::zone::{Zone, ZoneView};
use crate::text::{contains_sub, owned, push_char, push_str, str_contains, str_eq,
    texts};

verus! {

/// Events emitted by the firewall client.
#[derive(Debug)]
pub enum FirewallEvent {
    Connected,
    Disconnected,
    StateChanged,
    Error(String),
}

impl Clone for FirewallEvent {
    fn clone(&self) -> (r: Self)
        ensures
            match (*self, r) {
                (FirewallEvent::Connected, FirewallEvent::Connected) => true,
                (FirewallEvent::Disconnected, FirewallEvent::Disconnected) => true,
                (FirewallEvent::StateChanged, FirewallEvent::StateChanged) => true,
                (FirewallEvent::Error(a), FirewallEvent::Error(b)) => a@ == b@,
                _ => false,
            },
    {
        match self {
            FirewallEvent::Connected => FirewallEvent::Connected,
            FirewallEvent::Disconnected => FirewallEvent::Disconnected,
            FirewallEvent::StateChanged => FirewallEvent::StateChanged,
            FirewallEvent::Error(message) => FirewallEvent::Error(message.clone()),
        }
    }
}

/// What a sequence of string lists holds.
pub open spec fn list_texts(lists: Seq<Vec<String>>) -> Seq<Seq<Seq<char>>> {
    Seq::new(lists.len(), |i: int| texts(lists[i]@))
}

/// The port entries that the service's pairs stand for: `port/protocol`
/// for each list of two or more texts, nothing for a shorter one.
pub open spec fn joined_pairs(pairs: Seq<Seq<Seq<char>>>) -> Seq<Seq<char>>
    decreases pairs.len(),
{
    if pairs.len() == 0 {
        seq![]
    } else {
        let before = joined_pairs(pairs.drop_last());
        let last = pairs.last();
        if last.len() >= 2 {
            before.push(last[0] + seq!['/'] + last[1])
        } else {
            before
        }
    }
}

/// Makes the zone's port entries out of the pairs `[port, protocol]` that
/// the service gives.
pub fn port_entries(pairs: &Vec<Vec<String>>) -> (r: Vec<String>)
    ensures
        texts(r@) == joined_pairs(list_texts(pairs@)),
{
    let ghost all = list_texts(pairs@);
    let mut out: Vec<String> = Vec::new();
    let mut i: usize = 0;
    assert(all.take(0) =~= Seq::empty());
    assert(texts(out@) =~= Seq::empty());
    while i < pairs.len()
        invariant
            i <= pairs.len(),
            all == list_texts(pairs@),
            texts(out@) == joined_pairs(all.take(i as int)),
        decreases pairs.len() - i,
    {
        proof {
            assert(all.take(i + 1).drop_last() =~= all.take(i as int));
            assert(all.take(i + 1).last() == texts(pairs@[i as int]@));
        }
        let pair = &pairs[i];
        if pair.len() >= 2 {
            let ghost before = out@;
            let mut entry = pair[0].clone();
            push_char(&mut entry, '/');
            push_str(&mut entry, pair[1].as_str());
            assert(entry@ =~= texts(pair@)[0] + seq!['/'] + texts(pair@)[1]);
            out.push(entry);
            proof {
                crate::text::lemma_texts_push(before, entry);
            }
        }
        i += 1;
    }
    assert(all.take(pairs@.len() as int) =~= all);
    out
}

/// Whether `list` holds the text `x`.
pub fn list_holds(list: &Vec<String>, x: &str) -> (r: bool)
    ensures
        r == texts(list@).contains(x@),
{
    let mut i: usize = 0;
    while i < list.len()
        invariant
            i <= list.len(),
            forall|k: int| 0 <= k < i ==> texts(list@)[k] != x@,
        decreases list.len() - i,
    {
        if str_eq(list[i].as_str(), x) {
            assert(texts(list@)[i as int] == x@);
            return true;
        }
        i += 1;
    }
    false
}

/// The zone of the given name as the service describes it.
///
/// `active` says whether the zone is among the active ones, `default_zone`
/// names the default zone. `services`, `ports`, `rich_rules` and
/// `interfaces` are what the service listed, `None` where it gave
/// nothing: the zone's list is then empty.
pub fn build_zone(
    name: &str,
    active: bool,
    default_zone: &str,
    services: Option<Vec<String>>,
    ports: Option<Vec<String>>,
    rich_rules: Option<Vec<String>>,
    interfaces: Option<Vec<String>>,
) -> (r: Zone)
    ensures
        r@ == (ZoneView {
            name: name@,
            description: zone_description_text(name@),
            target: Seq::empty(),
            is_active: active,
            is_default: name@ == default_zone@,
            services: match services {
                Some(v) => texts(v@),
                None => Seq::empty(),
            },
            ports: match ports {
                Some(v) => texts(v@),
                None => Seq::empty(),
            },
            interfaces: match interfaces {
                Some(v) => texts(v@),
                None => Seq::empty(),
            },
            sources: Seq::empty(),
            rich_rules: match rich_rules {
                Some(v) => texts(v@),
                None => Seq::empty(),
            },
            masquerade: false,
            forward: false,
        }),
{
    let mut zone = Zone::new(name);
    zone.description = owned(zone_description(name));
    zone.is_active = active;
    zone.is_default = str_eq(name, default_zone);
    match services {
        Some(v) => {
            zone.services = v;
        },
        None => {},
    }
    match ports {
        Some(v) => {
            zone.ports = v;
        },
        None => {},
    }
    match rich_rules {
        Some(v) => {
            zone.rich_rules = v;
        },
        None => {},
    }
    match interfaces {
        Some(v) => {
            zone.interfaces = v;
        },
        None => {},
    }
    zone
}

/// The services of the given names, each enabled if `enabled` holds its
/// name.
pub fn build_services(names: &Vec<String>, enabled: &Vec<String>) -> (r: Vec<Service>)
    ensures
        r.len() == names.len(),
        forall|i: int|
            0 <= i < r.len() ==> (#[trigger] r@[i])@ == (ServiceView {
                name: names@[i]@,
                description: Seq::empty(),
                ports: Seq::empty(),
                is_enabled: texts(enabled@).contains(names@[i]@),
            }),
{
    let mut out: Vec<Service> = Vec::new();
    let mut i: usize = 0;
    while i < names.len()
        invariant
            i <= names.len(),
            out.len() == i,
            forall|k: int|
                0 <= k < i ==> (#[trigger] out@[k])@ == (ServiceView {
                    name: names@[k]@,
                    description: Seq::empty(),
                    ports: Seq::empty(),
                    is_enabled: texts(enabled@).contains(names@[k]@),
                }),
        decreases names.len() - i,
    {
        let mut service = Service::new(names[i].as_str());
        service.is_enabled = list_holds(enabled, names[i].as_str());
        out.push(service);
        i += 1;
    }
    out
}

/// The interfaces of the given names, all active and in the zone `zone`.
pub fn build_interfaces(zone: &str, names: &Vec<String>) -> (r: Vec<Interface>)
    ensures
        r.len() == names.len(),
        forall|i: int|
            0 <= i < r.len() ==> (#[trigger] r@[i])@ == (InterfaceView {
                name: names@[i]@,
                zone: zone@,
                is_active: true,
            }),
{
    let mut out: Vec<Interface> = Vec::new();
    let mut i: usize = 0;
    while i < names.len()
        invariant
            i <= names.len(),
            out.len() == i,
            forall|k: int|
                0 <= k < i ==> (#[trigger] out@[k])@ == (InterfaceView {
                    name: names@[k]@,
                    zone: zone@,
                    is_active: true,
                }),
        decreases names.len() - i,
    {
        let mut interface = Interface::new(names[i].as_str());
        interface.zone = owned(zone);
        interface.is_active = true;
        out.push(interface);
        i += 1;
    }
    out
}

/// Whether the service's error says that what was to be added is there
/// already.
pub fn is_already_enabled(message: &str) -> (r: bool)
    ensures
        r == contains_sub(message@, "ALREADY_ENABLED"@),
{
    str_contains(message, "ALREADY_ENABLED")
}

/// Whether the service's error says that what was to be removed is not
/// there.
pub fn is_not_enabled(message: &str) -> (r: bool)
    ensures
        r == contains_sub(message@, "NOT_ENABLED"@),
{
    str_contains(message, "NOT_ENABLED")
}

} // verus!

//! Correlation of listening endpoints with the firewall's rules.
//!
//! From a snapshot of the firewall's zones two collections are built. The
//! blocked set holds the port and protocol of every rich rule that rejects
//! or drops a port. The allowed map takes the port and protocol of every
//! port entry of a zone to that zone's name; where several zones list one
//! port, the zone that comes last in the snapshot is kept. An endpoint is
//! blocked if the blocked set holds it, whatever the allowed map says;
//! else allowed in the zone that the allowed map gives; else its status is
//! left as it was.

use vstd::prelude::*;
use crate::admin::network::{endpoint_views, EndpointView,
    FirewallStatus, ListeningEndpoint, Protocol, StatusView};
use crate::models::zone::{Zone, ZoneView};
use crate::rich_rule::{parse_port_string, parse_rich_rule_raw, port_entry, rule_blocks,
    rule_blocks_chars, rule_port};
use crate::casing::lowercase_of_chars;
use crate::text::{chars_of, str_eq, texts};

verus! {

/// What a sequence of zones holds.
pub open spec fn zone_views(s: Seq<Zone>) -> Seq<ZoneView> {
    Seq::new(s.len(), |i: int| s[i]@)
}

/// The blocked set after the rich rules `rules` have been entered.
pub open spec fn with_rules(set: Set<(u16, Seq<char>)>, rules: Seq<Seq<char>>) -> Set<
    (u16, Seq<char>),
>
    decreases rules.len(),
{
    if rules.len() == 0 {
        set
    } else {
        let before = with_rules(set, rules.drop_last());
        match rule_port(rules.last()) {
            Some(key) => if rule_blocks(rules.last()) {
                before.insert(key)
            } else {
                before
            },
            None => before,
        }
    }
}

/// The allowed map after the port entries `entries` of the zone `zone`
/// have been entered.
pub open spec fn with_entries(
    map: Map<(u16, Seq<char>), Seq<char>>,
    entries: Seq<Seq<char>>,
    zone: Seq<char>,
) -> Map<(u16, Seq<char>), Seq<char>>
    decreases entries.len(),
{
    if entries.len() == 0 {
        map
    } else {
        let before = with_entries(map, entries.drop_last(), zone);
        match port_entry(entries.last()) {
            Some(key) => before.insert(key, zone),
            None => before,
        }
    }
}

/// The ports that the rich rules of `zones` reject or drop.
pub open spec fn blocked_set(zones: Seq<ZoneView>) -> Set<(u16, Seq<char>)>
    decreases zones.len(),
{
    if zones.len() == 0 {
        Set::empty()
    } else {
        with_rules(blocked_set(zones.drop_last()), zones.last().rich_rules)
    }
}

/// The zone in which each port is open: the last zone of `zones` that
/// lists it.
pub open spec fn allowed_map(zones: Seq<ZoneView>) -> Map<(u16, Seq<char>), Seq<char>>
    decreases zones.len(),
{
    if zones.len() == 0 {
        Map::empty()
    } else {
        with_entries(allowed_map(zones.drop_last()), zones.last().ports, zones.last().name)
    }
}

/// How the firewall of `zones` treats `port`/`protocol`.
pub open spec fn classified(zones: Seq<ZoneView>, port: u16, protocol: Protocol) -> StatusView {
    let key = (port, protocol.rule_name());
    if blocked_set(zones).contains(key) {
        StatusView::Blocked
    } else if allowed_map(zones).contains_key(key) {
        StatusView::Allowed { zone: allowed_map(zones)[key] }
    } else {
        StatusView::Unknown
    }
}

/// The endpoint with the status that the firewall gives it: as it was where
/// the firewall could not be asked (`None`) or no rule matches.
pub open spec fn with_status(e: EndpointView, zones: Option<Seq<ZoneView>>) -> EndpointView {
    match zones {
        None => e,
        Some(z) => match classified(z, e.port, e.protocol) {
            StatusView::Unknown => e,
            status => EndpointView { firewall_status: status, ..e },
        },
    }
}

/// Each endpoint with the status that the firewall gives it.
pub open spec fn with_statuses(s: Seq<EndpointView>, zones: Option<Seq<ZoneView>>) -> Seq<
    EndpointView,
> {
    Seq::new(s.len(), |i: int| with_status(s[i], zones))
}

/// The set of the keys in `keys`.
pub open spec fn key_set(keys: Seq<(u16, Seq<char>)>) -> Set<(u16, Seq<char>)>
    decreases keys.len(),
{
    if keys.len() == 0 {
        Set::empty()
    } else {
        key_set(keys.drop_last()).insert(keys.last())
    }
}

/// The map that takes each key in `pairs` to the value of its last pair.
pub open spec fn pair_map(pairs: Seq<((u16, Seq<char>), Seq<char>)>) -> Map<
    (u16, Seq<char>),
    Seq<char>,
>
    decreases pairs.len(),
{
    if pairs.len() == 0 {
        Map::empty()
    } else {
        pair_map(pairs.drop_last()).insert(pairs.last().0, pairs.last().1)
    }
}

/// The blocked set and the allowed map, held as lists.
pub struct RuleIndex {
    pub blocked: Vec<(u16, String)>,
    pub allowed: Vec<(u16, String, String)>,
}

impl RuleIndex {
    /// The keys of the blocked list, as plain values.
    pub open spec fn blocked_keys(&self) -> Seq<(u16, Seq<char>)> {
        Seq::new(self.blocked@.len(), |i: int| (self.blocked@[i].0, self.blocked@[i].1@))
    }

    /// The pairs of the allowed list, as plain values.
    pub open spec fn allowed_pairs(&self) -> Seq<((u16, Seq<char>), Seq<char>)> {
        Seq::new(
            self.allowed@.len(),
            |i: int| ((self.allowed@[i].0, self.allowed@[i].1@), self.allowed@[i].2@),
        )
    }

    /// The blocked set.
    pub open spec fn blocked_set(&self) -> Set<(u16, Seq<char>)> {
        key_set(self.blocked_keys())
    }

    /// The allowed map.
    pub open spec fn allowed_map(&self) -> Map<(u16, Seq<char>), Seq<char>> {
        pair_map(self.allowed_pairs())
    }

    /// Builds the blocked set and the allowed map of a snapshot of zones.
    pub fn build(zones: &Vec<Zone>) -> (r: Self)
        ensures
            r.blocked_set() == blocked_set(zone_views(zones@)),
            r.allowed_map() == allowed_map(zone_views(zones@)),
    {
        let mut index = RuleIndex { blocked: Vec::new(), allowed: Vec::new() };
        let ghost all = zone_views(zones@);
        assert(all.take(0) =~= Seq::empty());
        assert(index.blocked_keys() =~= Seq::empty());
        assert(index.allowed_pairs() =~= Seq::empty());
        let mut i: usize = 0;
        while i < zones.len()
            invariant
                i <= zones.len(),
                all == zone_views(zones@),
                index.blocked_set() == blocked_set(all.take(i as int)),
                index.allowed_map() == allowed_map(all.take(i as int)),
            decreases zones.len() - i,
        {
            let zone = &zones[i];
            proof {
                assert(all.take(i + 1).drop_last() =~= all.take(i as int));
                assert(all.take(i + 1).last() == zone@);
            }
            let ghost rules = texts(zone.rich_rules@);
            let ghost set_before = index.blocked_set();
            assert(rules.take(0) =~= Seq::empty());
            let mut k: usize = 0;
            while k < zone.rich_rules.len()
                invariant
                    k <= zone.rich_rules.len(),
                    rules == texts(zone.rich_rules@),
                    index.blocked_set() == with_rules(set_before, rules.take(k as int)),
                    index.allowed_map() == allowed_map(all.take(i as int)),
                decreases zone.rich_rules.len() - k,
            {
                proof {
                    assert(rules.take(k + 1).drop_last() =~= rules.take(k as int));
                    assert(rules.take(k + 1).last() == zone.rich_rules@[k as int]@);
                }
                let rule = chars_of(zone.rich_rules[k].as_str());
                match parse_rich_rule_raw(&rule) {
                    Some((port, protocol)) => {
                        if rule_blocks_chars(&rule) {
                            let ghost keys = index.blocked_keys();
                            let ghost pairs = index.allowed_pairs();
                            let lower = lowercase_of_chars(&protocol);
                            index.blocked.push((port, lower));
                            assert(index.blocked_keys() =~= keys.push((port, lower@)));
                            assert(index.blocked_keys().drop_last() =~= keys);
                            assert(index.allowed_pairs() =~= pairs);
                        }
                    },
                    None => {},
                }
                k += 1;
            }
            assert(rules.take(zone.rich_rules@.len() as int) =~= rules);
            let ghost entries = texts(zone.ports@);
            let ghost map_before = index.allowed_map();
            assert(entries.take(0) =~= Seq::empty());
            let mut k: usize = 0;
            while k < zone.ports.len()
                invariant
                    k <= zone.ports.len(),
                    entries == texts(zone.ports@),
                    index.allowed_map() == with_entries(map_before, entries.take(k as int), zone.name@),
                    index.blocked_set() == blocked_set(all.take(i + 1)),
                decreases zone.ports.len() - k,
            {
                proof {
                    assert(entries.take(k + 1).drop_last() =~= entries.take(k as int));
                    assert(entries.take(k + 1).last() == zone.ports@[k as int]@);
                }
                match parse_port_string(zone.ports[k].as_str()) {
                    Some((port, protocol)) => {
                        let ghost keys = index.blocked_keys();
                        let ghost pairs = index.allowed_pairs();
                        let name = zone.name.clone();
                        index.allowed.push((port, protocol, name));
                        assert(index.allowed_pairs() =~= pairs.push(((port, protocol@), name@)));
                        assert(index.allowed_pairs().drop_last() =~= pairs);
                        assert(index.blocked_keys() =~= keys);
                    },
                    None => {},
                }
                k += 1;
            }
            assert(entries.take(zone.ports@.len() as int) =~= entries);
            i += 1;
        }
        assert(all.take(zones@.len() as int) =~= all);
        index
    }

    /// Whether the blocked set holds `port`/`protocol`.
    pub fn is_blocked(&self, port: u16, protocol: &str) -> (r: bool)
        ensures
            r == self.blocked_set().contains((port, protocol@)),
    {
        let ghost keys = self.blocked_keys();
        let ghost key = (port, protocol@);
        let mut i: usize = 0;
        assert(keys.take(0) =~= Seq::empty());
        while i < self.blocked.len()
            invariant
                i <= self.blocked.len(),
                keys == self.blocked_keys(),
                key == (port, protocol@),
                !key_set(keys.take(i as int)).contains(key),
            decreases self.blocked.len() - i,
        {
            proof {
                assert(keys.take(i + 1).drop_last() =~= keys.take(i as int));
                assert(keys.take(i + 1).last() == keys[i as int]);
            }
            if self.blocked[i].0 == port && str_eq(self.blocked[i].1.as_str(), protocol) {
                proof {
                    lemma_key_set_grows(keys, i + 1);
                }
                return true;
            }
            i += 1;
        }
        assert(keys.take(self.blocked@.len() as int) =~= keys);
        false
    }

    /// The zone that the allowed map gives for `port`/`protocol`.
    pub fn allowed_zone(&self, port: u16, protocol: &str) -> (r: Option<String>)
        ensures
            match r {
                Some(zone) => self.allowed_map().contains_key((port, protocol@))
                    && self.allowed_map()[(port, protocol@)] == zone@,
                None => !self.allowed_map().contains_key((port, protocol@)),
            },
    {
        let ghost pairs = self.allowed_pairs();
        let ghost key = (port, protocol@);
        let mut i: usize = self.allowed.len();
        assert(pairs.take(i as int) =~= pairs);
        while i > 0
            invariant
                i <= self.allowed.len(),
                pairs == self.allowed_pairs(),
                key == (port, protocol@),
                pair_map(pairs).contains_key(key) == pair_map(pairs.take(i as int)).contains_key(key),
                pair_map(pairs).contains_key(key) ==> pair_map(pairs)[key] == pair_map(
                    pairs.take(i as int),
                )[key],
            decreases i,
        {
            proof {
                assert(pairs.take(i as int).drop_last() =~= pairs.take(i - 1));
                assert(pairs.take(i as int).last() == pairs[i - 1]);
            }
            i -= 1;
            if self.allowed[i].0 == port && str_eq(self.allowed[i].1.as_str(), protocol) {
                return Some(self.allowed[i].2.clone());
            }
        }
        assert(pairs.take(0) =~= Seq::empty());
        None
    }

    /// How the firewall treats `port`/`protocol`.
    pub fn classify(&self, port: u16, protocol: Protocol) -> (r: FirewallStatus)
        ensures
            r@ == (if self.blocked_set().contains((port, protocol.rule_name())) {
                StatusView::Blocked
            } else if self.allowed_map().contains_key((port, protocol.rule_name())) {
                StatusView::Allowed { zone: self.allowed_map()[(port, protocol.rule_name())] }
            } else {
                StatusView::Unknown
            }),
    {
        let name = protocol.as_rule_str();
        if self.is_blocked(port, name) {
            FirewallStatus::Blocked
        } else {
            match self.allowed_zone(port, name) {
                Some(zone) => FirewallStatus::Allowed { zone },
                None => FirewallStatus::Unknown,
            }
        }
    }
}

/// A key among the first `n` of `keys` is in the set of all of them.
pub proof fn lemma_key_set_grows(keys: Seq<(u16, Seq<char>)>, n: int)
    requires
        0 <= n <= keys.len(),
    ensures
        key_set(keys.take(n)).subset_of(key_set(keys)),
    decreases keys.len() - n,
{
    if n < keys.len() {
        lemma_key_set_grows(keys, n + 1);
        assert(keys.take(n + 1).drop_last() =~= keys.take(n));
    } else {
        assert(keys.take(n) =~= keys);
    }
}

/// Update firewall status for all endpoints from a snapshot of the
/// firewall's zones.
///
/// With no snapshot (`None`: the firewall could not be reached) every
/// endpoint is left as it was. With one, an endpoint is `Blocked` if a rich
/// rule rejects or drops its port, else `Allowed` in the last zone that
/// lists its port, else left as it was.
pub fn update_firewall_status(endpoints: &mut Vec<ListeningEndpoint>, zones: Option<&Vec<Zone>>)
    ensures
        endpoint_views(final(endpoints)@) == with_statuses(
            endpoint_views(old(endpoints)@),
            match zones {
                Some(z) => Some(zone_views(z@)),
                None => None,
            },
        ),
{
    let ghost before = endpoint_views(endpoints@);
    match zones {
        None => {
            assert(endpoint_views(endpoints@) =~= with_statuses(before, None));
        },
        Some(z) => {
            let index = RuleIndex::build(z);
            let ghost snapshot = Some(zone_views(z@));
            let mut out: Vec<ListeningEndpoint> = Vec::new();
            let mut i: usize = 0;
            while i < endpoints.len()
                invariant
                    i <= endpoints.len(),
                    before == endpoint_views(endpoints@),
                    snapshot == Some(zone_views(z@)),
                    index.blocked_set() == blocked_set(zone_views(z@)),
                    index.allowed_map() == allowed_map(zone_views(z@)),
                    out.len() == i,
                    forall|k: int| 0 <= k < i ==> out@[k]@ == with_status(before[k], snapshot),
                decreases endpoints.len() - i,
            {
                let mut e = endpoints[i].clone();
                assert(e@ == before[i as int]);
                match index.classify(e.port, e.protocol) {
                    FirewallStatus::Unknown => {},
                    status => {
                        e.firewall_status = status;
                    },
                }
                out.push(e);
                i += 1;
            }
            assert(endpoint_views(out@) =~= with_statuses(before, snapshot));
            *endpoints = out;
        },
    }
}

/// A port that a rich rule rejects or drops is blocked, whichever zones list
/// it as open.
pub proof fn lemma_block_has_priority(zones: Seq<ZoneView>, z: int, r: int, port: u16, protocol: Protocol)
    requires
        0 <= z < zones.len(),
        0 <= r < zones[z].rich_rules.len(),
        rule_blocks(zones[z].rich_rules[r]),
        rule_port(zones[z].rich_rules[r]) == Some((port, protocol.rule_name())),
    ensures
        classified(zones, port, protocol) == StatusView::Blocked,
{
    lemma_blocked_set_holds(zones, z, r);
}

/// The blocked set holds the port of every blocking rich rule of every
/// zone.
pub proof fn lemma_blocked_set_holds(zones: Seq<ZoneView>, z: int, r: int)
    requires
        0 <= z < zones.len(),
        0 <= r < zones[z].rich_rules.len(),
        rule_blocks(zones[z].rich_rules[r]),
        rule_port(zones[z].rich_rules[r]) is Some,
    ensures
        blocked_set(zones).contains(rule_port(zones[z].rich_rules[r])->0),
    decreases zones.len(),
{
    let key = rule_port(zones[z].rich_rules[r])->0;
    let before = blocked_set(zones.drop_last());
    let rules = zones.last().rich_rules;
    if z == zones.len() - 1 {
        lemma_with_rules_holds(before, rules, r);
    } else {
        assert(zones.drop_last()[z] == zones[z]);
        lemma_blocked_set_holds(zones.drop_last(), z, r);
        lemma_with_rules_keeps(before, rules, key);
    }
}

/// Entering rules removes nothing from the blocked set.
pub proof fn lemma_with_rules_keeps(set: Set<(u16, Seq<char>)>, rules: Seq<Seq<char>>, key: (u16, Seq<char>))
    requires
        set.contains(key),
    ensures
        with_rules(set, rules).contains(key),
    decreases rules.len(),
{
    if rules.len() > 0 {
        lemma_with_rules_keeps(set, rules.drop_last(), key);
    }
}

/// Entering rules adds the port of each blocking rule among them.
pub proof fn lemma_with_rules_holds(set: Set<(u16, Seq<char>)>, rules: Seq<Seq<char>>, r: int)
    requires
        0 <= r < rules.len(),
        rule_blocks(rules[r]),
        rule_port(rules[r]) is Some,
    ensures
        with_rules(set, rules).contains(rule_port(rules[r])->0),
    decreases rules.len(),
{
    if r < rules.len() - 1 {
        assert(rules.drop_last()[r] == rules[r]);
        lemma_with_rules_holds(set, rules.drop_last(), r);
    }
}

/// Where the firewall could not be asked, every endpoint keeps its status.
pub proof fn lemma_unreachable_keeps_status(s: Seq<EndpointView>)
    ensures
        with_statuses(s, None) == s,
{
    assert(with_statuses(s, None) =~= s);
}

} // verus!

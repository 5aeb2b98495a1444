//! Changes to port rules, planned.
//!
//! A rule is added, changed or deleted by calls to the firewall service.
//! Which calls, and in which order, is worked out here; making them is the
//! caller's part. A port is opened by a zone's port entry and blocked by a
//! rich rule that rejects it.

use vstd::prelude::*;
use crate::models::consolidated_port::ConsolidatedPort;
use crate::numeric::{decimal, decimal_chars};
use crate::storage::{PortMetadata, PortMetadataView};
use crate::summary::{reject_rule, reject_rule_text};
use crate::text::{owned, push_str, string_of, texts};

verus! {

/// One call to the firewall service.
#[derive(Debug, PartialEq, Eq)]
pub enum FirewallOp {
    /// Open a port in a zone, at run time and, if `permanent`, for good.
    AddPort { zone: String, port: String, protocol: String, permanent: bool },
    /// Close a port in a zone, in its run-time or its permanent settings.
    RemovePort { zone: String, port: String, protocol: String, permanent: bool },
    /// Add a rich rule to a zone, at run time and, if `permanent`, for good.
    AddRichRule { zone: String, rule: String, permanent: bool },
    /// Take a rich rule out of a zone's run-time or permanent settings.
    RemoveRichRule { zone: String, rule: String, permanent: bool },
}

/// What a `FirewallOp` holds, as plain values.
pub enum FirewallOpView {
    AddPort { zone: Seq<char>, port: Seq<char>, protocol: Seq<char>, permanent: bool },
    RemovePort { zone: Seq<char>, port: Seq<char>, protocol: Seq<char>, permanent: bool },
    AddRichRule { zone: Seq<char>, rule: Seq<char>, permanent: bool },
    RemoveRichRule { zone: Seq<char>, rule: Seq<char>, permanent: bool },
}

impl View for FirewallOp {
    type V = FirewallOpView;

    open spec fn view(&self) -> FirewallOpView {
        match self {
            FirewallOp::AddPort { zone, port, protocol, permanent } => FirewallOpView::AddPort {
                zone: zone@,
                port: port@,
                protocol: protocol@,
                permanent: *permanent,
            },
            FirewallOp::RemovePort { zone, port, protocol, permanent } => FirewallOpView::RemovePort {
                zone: zone@,
                port: port@,
                protocol: protocol@,
                permanent: *permanent,
            },
            FirewallOp::AddRichRule { zone, rule, permanent } => FirewallOpView::AddRichRule {
                zone: zone@,
                rule: rule@,
                permanent: *permanent,
            },
            FirewallOp::RemoveRichRule { zone, rule, permanent } => FirewallOpView::RemoveRichRule {
                zone: zone@,
                rule: rule@,
                permanent: *permanent,
            },
        }
    }
}

impl FirewallOp {
    /// Whether a failure of the call ends the change: one that adds has to
    /// succeed, one that removes may find nothing to remove.
    pub open spec fn required(self) -> bool {
        self is AddPort || self is AddRichRule
    }

    /// Whether a failure of the call ends the change.
    pub fn must_succeed(&self) -> (r: bool)
        ensures
            r == self.required(),
    {
        match self {
            FirewallOp::AddPort { .. } => true,
            FirewallOp::AddRichRule { .. } => true,
            _ => false,
        }
    }
}

/// What a sequence of calls holds.
pub open spec fn op_views(s: Seq<FirewallOp>) -> Seq<FirewallOpView> {
    Seq::new(s.len(), |i: int| s[i]@)
}

/// The rich rule that drops `port`/`protocol` for IPv4.
pub open spec fn drop_rule_text(port: Seq<char>, protocol: Seq<char>) -> Seq<char> {
    "rule family=\"ipv4\" port port=\""@ + port + "\" protocol=\""@ + protocol + "\" drop"@
}

/// The calls that take a rule on `port`/`protocol` out of `zone`: for a
/// blocked port the rules that reject and that drop it, for an open one its
/// port entry; from the run-time settings first, then from the permanent
/// ones.
pub open spec fn removal(zone: Seq<char>, port: Seq<char>, protocol: Seq<char>, blocked: bool) -> Seq<
    FirewallOpView,
> {
    if blocked {
        seq![
            FirewallOpView::RemoveRichRule {
                zone,
                rule: reject_rule_text(port, protocol),
                permanent: false,
            },
            FirewallOpView::RemoveRichRule {
                zone,
                rule: reject_rule_text(port, protocol),
                permanent: true,
            },
            FirewallOpView::RemoveRichRule {
                zone,
                rule: drop_rule_text(port, protocol),
                permanent: false,
            },
            FirewallOpView::RemoveRichRule {
                zone,
                rule: drop_rule_text(port, protocol),
                permanent: true,
            },
        ]
    } else {
        seq![
            FirewallOpView::RemovePort { zone, port, protocol, permanent: false },
            FirewallOpView::RemovePort { zone, port, protocol, permanent: true },
        ]
    }
}

/// The calls that delete whatever rule there is on `port`/`protocol` in
/// `zone`: its port entry and the rule that rejects it, each from the
/// run-time settings first, then from the permanent ones.
pub open spec fn deletion(zone: Seq<char>, port: Seq<char>, protocol: Seq<char>) -> Seq<
    FirewallOpView,
> {
    seq![
        FirewallOpView::RemovePort { zone, port, protocol, permanent: false },
        FirewallOpView::RemovePort { zone, port, protocol, permanent: true },
        FirewallOpView::RemoveRichRule {
            zone,
            rule: reject_rule_text(port, protocol),
            permanent: false,
        },
        FirewallOpView::RemoveRichRule {
            zone,
            rule: reject_rule_text(port, protocol),
            permanent: true,
        },
    ]
}

/// The call that puts a rule on `port`/`protocol` into `zone`: a rule that
/// rejects it to block it, a port entry to open it.
pub open spec fn addition(
    zone: Seq<char>,
    port: Seq<char>,
    protocol: Seq<char>,
    block: bool,
    permanent: bool,
) -> FirewallOpView {
    if block {
        FirewallOpView::AddRichRule { zone, rule: reject_rule_text(port, protocol), permanent }
    } else {
        FirewallOpView::AddPort { zone, port, protocol, permanent }
    }
}

/// The pairs of a zone and a protocol, zone after zone, the protocols of
/// each zone in order.
pub open spec fn pairs(zones: Seq<Seq<char>>, protocols: Seq<Seq<char>>) -> Seq<
    (Seq<char>, Seq<char>),
>
    decreases zones.len(),
{
    if zones.len() == 0 {
        seq![]
    } else {
        pairs(zones.drop_last(), protocols) + Seq::new(
            protocols.len(),
            |i: int| (zones.last(), protocols[i]),
        )
    }
}

/// The calls that take the rules on `port` out of the given zones and
/// protocols.
pub open spec fn removals(of: Seq<(Seq<char>, Seq<char>)>, port: Seq<char>, blocked: bool) -> Seq<
    FirewallOpView,
>
    decreases of.len(),
{
    if of.len() == 0 {
        seq![]
    } else {
        removals(of.drop_last(), port, blocked) + removal(of.last().0, port, of.last().1, blocked)
    }
}

/// The calls that delete the rules on `port` in the given zones and
/// protocols.
pub open spec fn deletions(of: Seq<(Seq<char>, Seq<char>)>, port: Seq<char>) -> Seq<FirewallOpView>
    decreases of.len(),
{
    if of.len() == 0 {
        seq![]
    } else {
        deletions(of.drop_last(), port) + deletion(of.last().0, port, of.last().1)
    }
}

/// The calls that put rules on `port` into the given zones and protocols.
pub open spec fn additions(
    of: Seq<(Seq<char>, Seq<char>)>,
    port: Seq<char>,
    block: bool,
    permanent: bool,
) -> Seq<FirewallOpView>
    decreases of.len(),
{
    if of.len() == 0 {
        seq![]
    } else {
        additions(of.drop_last(), port, block, permanent).push(
            addition(of.last().0, port, of.last().1, block, permanent),
        )
    }
}

/// What a sequence of pairs of strings holds.
pub open spec fn pair_views(s: Seq<(String, String)>) -> Seq<(Seq<char>, Seq<char>)> {
    Seq::new(s.len(), |i: int| (s[i].0@, s[i].1@))
}

/// The pairs of a zone and a protocol, zone after zone.
pub fn zone_protocol_pairs(zones: &Vec<String>, protocols: &Vec<String>) -> (r: Vec<(String, String)>)
    ensures
        pair_views(r@) == pairs(texts(zones@), texts(protocols@)),
{
    let ghost zs = texts(zones@);
    let ghost ps = texts(protocols@);
    let mut out: Vec<(String, String)> = Vec::new();
    let mut i: usize = 0;
    assert(zs.take(0) =~= Seq::empty());
    assert(pair_views(out@) =~= Seq::empty());
    while i < zones.len()
        invariant
            i <= zones.len(),
            zs == texts(zones@),
            ps == texts(protocols@),
            pair_views(out@) == pairs(zs.take(i as int), ps),
        decreases zones.len() - i,
    {
        proof {
            assert(zs.take(i + 1).drop_last() =~= zs.take(i as int));
            assert(zs.take(i + 1).last() == zones@[i as int]@);
        }
        let ghost start = pair_views(out@);
        let mut k: usize = 0;
        while k < protocols.len()
            invariant
                k <= protocols.len(),
                i < zones.len(),
                ps == texts(protocols@),
                pair_views(out@).len() == start.len() + k,
                forall|m: int| 0 <= m < start.len() ==> pair_views(out@)[m] == start[m],
                forall|m: int|
                    0 <= m < k ==> pair_views(out@)[start.len() + m] == (zones@[i as int]@, ps[m]),
            decreases protocols.len() - k,
        {
            let ghost before = pair_views(out@);
            out.push((zones[i].clone(), protocols[k].clone()));
            assert(pair_views(out@) =~= before.push((zones@[i as int]@, ps[k as int])));
            k += 1;
        }
        assert(pair_views(out@) =~= start + Seq::new(
            ps.len(),
            |m: int| (zones@[i as int]@, ps[m]),
        ));
        i += 1;
    }
    assert(zs.take(zones@.len() as int) =~= zs);
    out
}

/// The rich rule that drops `port`/`protocol` for IPv4.
pub fn drop_rule(port: &str, protocol: &str) -> (r: String)
    ensures
        r@ == drop_rule_text(port@, protocol@),
{
    let mut r = owned("rule family=\"ipv4\" port port=\"");
    push_str(&mut r, port);
    push_str(&mut r, "\" protocol=\"");
    push_str(&mut r, protocol);
    push_str(&mut r, "\" drop");
    r
}

/// Appends the calls that take a rule on `port`/`protocol` out of `zone`.
fn push_removal(out: &mut Vec<FirewallOp>, zone: &str, port: &str, protocol: &str, blocked: bool)
    ensures
        op_views(final(out)@) == op_views(old(out)@) + removal(zone@, port@, protocol@, blocked),
{
    let ghost start = op_views(out@);
    if blocked {
        out.push(
            FirewallOp::RemoveRichRule {
                zone: owned(zone),
                rule: reject_rule(port, protocol),
                permanent: false,
            },
        );
        out.push(
            FirewallOp::RemoveRichRule {
                zone: owned(zone),
                rule: reject_rule(port, protocol),
                permanent: true,
            },
        );
        out.push(
            FirewallOp::RemoveRichRule {
                zone: owned(zone),
                rule: drop_rule(port, protocol),
                permanent: false,
            },
        );
        out.push(
            FirewallOp::RemoveRichRule {
                zone: owned(zone),
                rule: drop_rule(port, protocol),
                permanent: true,
            },
        );
    } else {
        out.push(
            FirewallOp::RemovePort {
                zone: owned(zone),
                port: owned(port),
                protocol: owned(protocol),
                permanent: false,
            },
        );
        out.push(
            FirewallOp::RemovePort {
                zone: owned(zone),
                port: owned(port),
                protocol: owned(protocol),
                permanent: true,
            },
        );
    }
    assert(op_views(out@) =~= start + removal(zone@, port@, protocol@, blocked));
}

/// Appends the calls that delete whatever rule there is on
/// `port`/`protocol` in `zone`.
fn push_deletion(out: &mut Vec<FirewallOp>, zone: &str, port: &str, protocol: &str)
    ensures
        op_views(final(out)@) == op_views(old(out)@) + deletion(zone@, port@, protocol@),
{
    let ghost start = op_views(out@);
    out.push(
        FirewallOp::RemovePort {
            zone: owned(zone),
            port: owned(port),
            protocol: owned(protocol),
            permanent: false,
        },
    );
    out.push(
        FirewallOp::RemovePort {
            zone: owned(zone),
            port: owned(port),
            protocol: owned(protocol),
            permanent: true,
        },
    );
    out.push(
        FirewallOp::RemoveRichRule {
            zone: owned(zone),
            rule: reject_rule(port, protocol),
            permanent: false,
        },
    );
    out.push(
        FirewallOp::RemoveRichRule {
            zone: owned(zone),
            rule: reject_rule(port, protocol),
            permanent: true,
        },
    );
    assert(op_views(out@) =~= start + deletion(zone@, port@, protocol@));
}

/// The call that puts a rule on `port`/`protocol` into `zone`.
pub fn plan_add(zone: &str, port: &str, protocol: &str, block: bool, permanent: bool) -> (r:
    FirewallOp)
    ensures
        r@ == addition(zone@, port@, protocol@, block, permanent),
{
    if block {
        FirewallOp::AddRichRule { zone: owned(zone), rule: reject_rule(port, protocol), permanent }
    } else {
        FirewallOp::AddPort {
            zone: owned(zone),
            port: owned(port),
            protocol: owned(protocol),
            permanent,
        }
    }
}

/// The calls that delete a consolidated port: for each of its zones and
/// protocols, those that remove its port entry and the rule that rejects
/// it.
pub fn plan_delete(port: &ConsolidatedPort) -> (r: Vec<FirewallOp>)
    ensures
        op_views(r@) == deletions(
            pairs(port@.zones, port@.protocols),
            decimal(port.number as nat),
        ),
{
    let digits = decimal_chars(port.number as u64);
    let number = string_of(&digits);
    let of = zone_protocol_pairs(&port.zones, &port.protocols);
    let ghost all = pair_views(of@);
    let mut out: Vec<FirewallOp> = Vec::new();
    let mut i: usize = 0;
    assert(all.take(0) =~= Seq::empty());
    assert(op_views(out@) =~= Seq::empty());
    while i < of.len()
        invariant
            i <= of.len(),
            all == pair_views(of@),
            op_views(out@) == deletions(all.take(i as int), number@),
        decreases of.len() - i,
    {
        proof {
            assert(all.take(i + 1).drop_last() =~= all.take(i as int));
            assert(all.take(i + 1).last() == (of@[i as int].0@, of@[i as int].1@));
        }
        push_deletion(&mut out, of[i].0.as_str(), number.as_str(), of[i].1.as_str());
        i += 1;
    }
    assert(all.take(of@.len() as int) =~= all);
    out
}

/// The calls that change a consolidated port: first those that take its
/// rules out of its zones, for each of its protocols; then those that put
/// the rules of the new kind into the new zones, for each of the new
/// protocols.
pub fn plan_edit(
    original: &ConsolidatedPort,
    new_zones: &Vec<String>,
    new_protocols: &Vec<String>,
    block: bool,
    permanent: bool,
) -> (r: Vec<FirewallOp>)
    ensures
        op_views(r@) == removals(
            pairs(original@.zones, original@.protocols),
            decimal(original.number as nat),
            crate::models::consolidated_port::is_deny_action(original@.action),
        ) + additions(
            pairs(texts(new_zones@), texts(new_protocols@)),
            decimal(original.number as nat),
            block,
            permanent,
        ),
{
    let digits = decimal_chars(original.number as u64);
    let number = string_of(&digits);
    let blocked = original.is_blocked();
    let old_pairs = zone_protocol_pairs(&original.zones, &original.protocols);
    let ghost olds = pair_views(old_pairs@);
    let mut out: Vec<FirewallOp> = Vec::new();
    let mut i: usize = 0;
    assert(olds.take(0) =~= Seq::empty());
    assert(op_views(out@) =~= Seq::empty());
    while i < old_pairs.len()
        invariant
            i <= old_pairs.len(),
            olds == pair_views(old_pairs@),
            op_views(out@) == removals(olds.take(i as int), number@, blocked),
        decreases old_pairs.len() - i,
    {
        proof {
            assert(olds.take(i + 1).drop_last() =~= olds.take(i as int));
            assert(olds.take(i + 1).last() == (old_pairs@[i as int].0@, old_pairs@[i as int].1@));
        }
        push_removal(
            &mut out,
            old_pairs[i].0.as_str(),
            number.as_str(),
            old_pairs[i].1.as_str(),
            blocked,
        );
        i += 1;
    }
    assert(olds.take(old_pairs@.len() as int) =~= olds);
    let ghost removed = op_views(out@);
    let new_pairs = zone_protocol_pairs(new_zones, new_protocols);
    let ghost news = pair_views(new_pairs@);
    let mut k: usize = 0;
    assert(news.take(0) =~= Seq::empty());
    assert(op_views(out@) =~= removed + additions(news.take(0), number@, block, permanent));
    while k < new_pairs.len()
        invariant
            k <= new_pairs.len(),
            news == pair_views(new_pairs@),
            op_views(out@) == removed + additions(news.take(k as int), number@, block, permanent),
        decreases new_pairs.len() - k,
    {
        proof {
            assert(news.take(k + 1).drop_last() =~= news.take(k as int));
            assert(news.take(k + 1).last() == (new_pairs@[k as int].0@, new_pairs@[k as int].1@));
        }
        let ghost before = op_views(out@);
        let op = plan_add(
            new_pairs[k].0.as_str(),
            number.as_str(),
            new_pairs[k].1.as_str(),
            block,
            permanent,
        );
        out.push(op);
        assert(op_views(out@) =~= before.push(op@));
        assert(before.push(op@) =~= removed + additions(
            news.take(k as int),
            number@,
            block,
            permanent,
        ).push(op@));
        k += 1;
    }
    assert(news.take(new_pairs@.len() as int) =~= news);
    out
}

/// The metadata that are kept of a rule that was added or changed: what it
/// is on, under the given name, and whether it allows or blocks incoming
/// traffic.
pub open spec fn kept_metadata(
    port: u16,
    protocol: Seq<char>,
    zone: Seq<char>,
    name: Seq<char>,
    block: bool,
    created_at: Seq<char>,
) -> PortMetadataView {
    PortMetadataView {
        name,
        description: if block {
            "Incoming: Blocked"@
        } else {
            "Incoming: Allowed"@
        },
        created_at,
        incoming_action: if block {
            "block"@
        } else {
            "allow"@
        },
        outgoing_action: Seq::empty(),
        zone,
        protocol,
        port,
    }
}

/// The metadata that are kept of a rule that was added or changed now.
pub fn rule_metadata(port: u16, protocol: &str, zone: &str, name: &str, block: bool) -> (r:
    PortMetadata)
    ensures
        r@ == kept_metadata(port, protocol@, zone@, name@, block, r@.created_at),
{
    let mut metadata = PortMetadata::new(name);
    metadata.port = port;
    metadata.protocol = owned(protocol);
    metadata.zone = owned(zone);
    if block {
        metadata.incoming_action = owned("block");
        metadata.description = owned("Incoming: Blocked");
    } else {
        metadata.incoming_action = owned("allow");
        metadata.description = owned("Incoming: Allowed");
    }
    metadata
}

} // verus!

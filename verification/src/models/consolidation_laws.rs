//! What holds of every consolidation.

use vstd::prelude::*;
use crate::casing::eq_ignore_case;
use crate::lexical::{add_distinct, holds_ignore_case, lemma_add_distinct_holds,
    lemma_add_distinct_sorted, strictly_sorted};
use crate::models::consolidated_port::{absorbed, consolidated, group_index, group_index_from,
    merged, normalized_action, opened, place, place_from, same_group, ConsolidatedPortView};
use crate::models::port::PortView;

verus! {

/// Whether the records stand in ascending order of port number.
pub open spec fn ascending(groups: Seq<ConsolidatedPortView>) -> bool {
    forall|i: int, j: int|
        0 <= i < j < groups.len() ==> (#[trigger] groups[i]).number <= (#[trigger] groups[j]).number
}

/// Whether no two records share a port number and an action.
pub open spec fn distinct_keys(groups: Seq<ConsolidatedPortView>) -> bool {
    forall|i: int, j: int|
        0 <= i < groups.len() && 0 <= j < groups.len() && i != j ==> !((
        #[trigger] groups[i]).number == (#[trigger] groups[j]).number && groups[i].action
            == groups[j].action)
}

/// Whether each record holds its protocols and its zones in alphabetical
/// order.
pub open spec fn lists_sorted(groups: Seq<ConsolidatedPortView>) -> bool {
    forall|i: int|
        0 <= i < groups.len() ==> strictly_sorted((#[trigger] groups[i]).protocols)
            && strictly_sorted(groups[i].zones)
}

/// Whether the record `g` stands for the rule `p`: the rule belongs to its
/// group, and the record's lists hold the rule's protocol and zone, in some
/// case of their letters.
pub open spec fn represents(g: ConsolidatedPortView, p: PortView) -> bool {
    &&& same_group(g, p)
    &&& holds_ignore_case(g.protocols, p.protocol)
    &&& (p.zone matches Some(z) ==> holds_ignore_case(g.zones, z))
}

/// Whether every rule has a record that stands for it.
pub open spec fn covers(ports: Seq<PortView>, groups: Seq<ConsolidatedPortView>) -> bool {
    forall|k: int|
        0 <= k < ports.len() ==> exists|i: int|
            0 <= i < groups.len() && represents(#[trigger] groups[i], #[trigger] ports[k])
}

/// Whether the record `g` takes its protocol `x` from a rule of its group.
pub open spec fn protocol_from(ports: Seq<PortView>, g: ConsolidatedPortView, x: Seq<char>) -> bool {
    exists|k: int| 0 <= k < ports.len() && same_group(g, #[trigger] ports[k]) && ports[k].protocol == x
}

/// Whether the record `g` takes its zone `x` from a rule of its group.
pub open spec fn zone_from(ports: Seq<PortView>, g: ConsolidatedPortView, x: Seq<char>) -> bool {
    exists|k: int|
        0 <= k < ports.len() && same_group(g, #[trigger] ports[k]) && ports[k].zone == Some(x)
}

/// Whether every protocol and zone of every record is that of a rule of
/// the record's group.
pub open spec fn grounded(ports: Seq<PortView>, groups: Seq<ConsolidatedPortView>) -> bool {
    forall|i: int|
        0 <= i < groups.len() ==> {
            &&& forall|x: Seq<char>|
                (#[trigger] groups[i]).protocols.contains(x) ==> #[trigger] protocol_from(
                    ports,
                    groups[i],
                    x,
                )
            &&& forall|x: Seq<char>|
                groups[i].zones.contains(x) ==> #[trigger] zone_from(ports, groups[i], x)
        }
}

/// Whether `groups` is a grouping of `ports`: in ascending order of port
/// number, one record per port number and action, each rule stood for by a
/// record, each record made of rules of its group, with sorted lists.
pub open spec fn well_grouped(ports: Seq<PortView>, groups: Seq<ConsolidatedPortView>) -> bool {
    &&& ascending(groups)
    &&& distinct_keys(groups)
    &&& lists_sorted(groups)
    &&& covers(ports, groups)
    &&& grounded(ports, groups)
}

/// `group_index_from` finds the first group from `i` on that `p` belongs
/// to, and none only when there is none.
pub proof fn lemma_group_index_from(groups: Seq<ConsolidatedPortView>, p: PortView, i: int)
    requires
        0 <= i,
    ensures
        match group_index_from(groups, p, i) {
            Some(k) => i <= k < groups.len() && same_group(groups[k], p),
            None => forall|k: int| i <= k < groups.len() ==> !same_group(#[trigger] groups[k], p),
        },
    decreases groups.len() - i,
{
    if i < groups.len() && !same_group(groups[i], p) {
        lemma_group_index_from(groups, p, i + 1);
    }
}

/// `place_from` passes only groups whose number is at most `number`, and
/// stops at one whose number is above it.
pub proof fn lemma_place_from(groups: Seq<ConsolidatedPortView>, number: u16, i: int)
    requires
        0 <= i <= groups.len(),
    ensures
        i <= place_from(groups, number, i) <= groups.len(),
        forall|k: int| i <= k < place_from(groups, number, i) ==> (#[trigger] groups[k]).number <= number,
        place_from(groups, number, i) < groups.len() ==> groups[place_from(groups, number, i)].number
            > number,
    decreases groups.len() - i,
{
    if i < groups.len() && groups[i].number <= number {
        lemma_place_from(groups, number, i + 1);
    }
}

/// A list that holds a text in some case still does after another text has
/// been added.
proof fn lemma_holds_kept(list: Seq<Seq<char>>, held: Seq<char>, x: Seq<char>)
    requires
        holds_ignore_case(list, held),
    ensures
        holds_ignore_case(add_distinct(list, x), held),
{
    let j = choose|j: int| 0 <= j < list.len() && eq_ignore_case(#[trigger] list[j], held);
    lemma_add_distinct_holds(list, x);
    assert(list.contains(list[j]));
    let out = add_distinct(list, x);
    let m = choose|m: int| 0 <= m < out.len() && out[m] == list[j];
    assert(eq_ignore_case(out[m], held));
}

/// A record still stands for a rule after it has taken in another.
proof fn lemma_represents_kept(g: ConsolidatedPortView, held: PortView, p: PortView)
    requires
        represents(g, held),
    ensures
        represents(absorbed(g, p), held),
{
    lemma_holds_kept(g.protocols, held.protocol, p.protocol);
    match (held.zone, p.zone) {
        (Some(z), Some(pz)) => {
            lemma_holds_kept(g.zones, z, pz);
        },
        _ => {},
    }
}

/// A grouping stays one when a rule joins it.
pub proof fn lemma_merged_well_grouped(
    ports: Seq<PortView>,
    groups: Seq<ConsolidatedPortView>,
    p: PortView,
)
    requires
        well_grouped(ports, groups),
    ensures
        well_grouped(ports.push(p), merged(groups, p)),
{
    let out = merged(groups, p);
    let all = ports.push(p);
    lemma_group_index_from(groups, p, 0);
    match group_index(groups, p) {
        Some(gi) => {
            let g = groups[gi];
            let a = absorbed(g, p);
            assert(out == groups.update(gi, a));
            lemma_add_distinct_sorted(g.protocols, p.protocol);
            lemma_add_distinct_holds(g.protocols, p.protocol);
            match p.zone {
                Some(z) => {
                    lemma_add_distinct_sorted(g.zones, z);
                    lemma_add_distinct_holds(g.zones, z);
                },
                None => {},
            }
            assert(ascending(out)) by {
                assert forall|i: int, j: int| 0 <= i < j < out.len() implies (#[trigger] out[i]).number
                    <= (#[trigger] out[j]).number by {
                    assert(out[i].number == groups[i].number);
                    assert(out[j].number == groups[j].number);
                }
            }
            assert(distinct_keys(out)) by {
                assert forall|i: int, j: int|
                    0 <= i < out.len() && 0 <= j < out.len() && i != j implies !((
                #[trigger] out[i]).number == (#[trigger] out[j]).number && out[i].action
                    == out[j].action) by {
                    assert(out[i].number == groups[i].number && out[i].action == groups[i].action);
                    assert(out[j].number == groups[j].number && out[j].action == groups[j].action);
                }
            }
            assert(lists_sorted(out)) by {
                assert forall|i: int| 0 <= i < out.len() implies strictly_sorted(
                    (#[trigger] out[i]).protocols,
                ) && strictly_sorted(out[i].zones) by {
                    if i != gi {
                        assert(out[i] == groups[i]);
                    }
                }
            }
            assert(covers(all, out)) by {
                assert forall|k: int| 0 <= k < all.len() implies exists|i: int|
                    0 <= i < out.len() && represents(#[trigger] out[i], #[trigger] all[k]) by {
                    if k < ports.len() {
                        assert(all[k] == ports[k]);
                        let i = choose|i: int|
                            0 <= i < groups.len() && represents(#[trigger] groups[i], ports[k]);
                        if i == gi {
                            lemma_represents_kept(g, ports[k], p);
                        } else {
                            assert(out[i] == groups[i]);
                        }
                        assert(represents(out[i], all[k]));
                    } else {
                        assert(all[k] == p);
                        assert(represents(out[gi], p));
                    }
                }
            }
            assert(grounded(all, out)) by {
                assert forall|i: int| 0 <= i < out.len() implies {
                    &&& forall|x: Seq<char>|
                        (#[trigger] out[i]).protocols.contains(x) ==> #[trigger] protocol_from(
                            all,
                            out[i],
                            x,
                        )
                    &&& forall|x: Seq<char>|
                        out[i].zones.contains(x) ==> #[trigger] zone_from(all, out[i], x)
                } by {
                    let o = out[i];
                    let before = groups[i];
                    assert(forall|k: int|
                        0 <= k < ports.len() ==> (same_group(o, #[trigger] all[k]) == same_group(
                            before,
                            ports[k],
                        ) && all[k] == ports[k]));
                    assert forall|x: Seq<char>| o.protocols.contains(x) implies #[trigger] protocol_from(
                        all,
                        o,
                        x,
                    ) by {
                        if before.protocols.contains(x) {
                            assert(protocol_from(ports, before, x));
                            let k = choose|k: int|
                                0 <= k < ports.len() && same_group(before, #[trigger] ports[k])
                                    && ports[k].protocol == x;
                            assert(same_group(o, all[k]) && all[k].protocol == x);
                        } else {
                            assert(i == gi && x == p.protocol);
                            assert(same_group(o, all[ports.len() as int]));
                        }
                    }
                    assert forall|x: Seq<char>| o.zones.contains(x) implies #[trigger] zone_from(
                        all,
                        o,
                        x,
                    ) by {
                        if before.zones.contains(x) {
                            assert(zone_from(ports, before, x));
                            let k = choose|k: int|
                                0 <= k < ports.len() && same_group(before, #[trigger] ports[k])
                                    && ports[k].zone == Some(x);
                            assert(same_group(o, all[k]) && all[k].zone == Some(x));
                        } else {
                            assert(i == gi && p.zone == Some(x));
                            assert(same_group(o, all[ports.len() as int]));
                        }
                    }
                }
            }
        },
        None => {
            let at = place(groups, p.number);
            let o = opened(p);
            lemma_place_from(groups, p.number, 0);
            assert(out == groups.insert(at, o));
            assert(forall|i: int| 0 <= i < at ==> out[i] == groups[i]);
            assert(forall|i: int| at < i < out.len() ==> out[i] == groups[i - 1]);
            assert(out[at] == o);
            assert(ascending(out)) by {
                assert forall|i: int, j: int| 0 <= i < j < out.len() implies (#[trigger] out[i]).number
                    <= (#[trigger] out[j]).number by {
                    if i == at {
                        assert(groups[at].number <= groups[j - 1].number || at == j - 1);
                    } else if j == at {
                    } else {
                        let a = if i < at {
                            i
                        } else {
                            i - 1
                        };
                        let b = if j < at {
                            j
                        } else {
                            j - 1
                        };
                        assert(groups[a].number <= groups[b].number);
                    }
                }
            }
            assert(distinct_keys(out)) by {
                assert forall|i: int, j: int|
                    0 <= i < out.len() && 0 <= j < out.len() && i != j implies !((
                #[trigger] out[i]).number == (#[trigger] out[j]).number && out[i].action
                    == out[j].action) by {
                    let a = if i < at {
                        i
                    } else {
                        i - 1
                    };
                    let b = if j < at {
                        j
                    } else {
                        j - 1
                    };
                    if i == at {
                        assert(!same_group(groups[b], p));
                    } else if j == at {
                        assert(!same_group(groups[a], p));
                    } else {
                        assert(out[i] == groups[a] && out[j] == groups[b]);
                    }
                }
            }
            assert(lists_sorted(out)) by {
                assert forall|i: int| 0 <= i < out.len() implies strictly_sorted(
                    (#[trigger] out[i]).protocols,
                ) && strictly_sorted(out[i].zones) by {
                    if i != at {
                        let a = if i < at {
                            i
                        } else {
                            i - 1
                        };
                        assert(out[i] == groups[a]);
                    }
                }
            }
            assert(represents(o, p)) by {
                assert(eq_ignore_case(o.protocols[0], p.protocol));
                match p.zone {
                    Some(z) => {
                        assert(eq_ignore_case(o.zones[0], z));
                    },
                    None => {},
                }
            }
            assert(covers(all, out)) by {
                assert forall|k: int| 0 <= k < all.len() implies exists|i: int|
                    0 <= i < out.len() && represents(#[trigger] out[i], #[trigger] all[k]) by {
                    if k < ports.len() {
                        assert(all[k] == ports[k]);
                        let i = choose|i: int|
                            0 <= i < groups.len() && represents(#[trigger] groups[i], ports[k]);
                        let m = if i < at {
                            i
                        } else {
                            i + 1
                        };
                        assert(out[m] == groups[i]);
                        assert(represents(out[m], all[k]));
                    } else {
                        assert(all[k] == p);
                        assert(represents(out[at], all[k]));
                    }
                }
            }
            assert(grounded(all, out)) by {
                assert forall|i: int| 0 <= i < out.len() implies {
                    &&& forall|x: Seq<char>|
                        (#[trigger] out[i]).protocols.contains(x) ==> #[trigger] protocol_from(
                            all,
                            out[i],
                            x,
                        )
                    &&& forall|x: Seq<char>|
                        out[i].zones.contains(x) ==> #[trigger] zone_from(all, out[i], x)
                } by {
                    let g = out[i];
                    if i == at {
                        assert(same_group(g, all[ports.len() as int]));
                        assert forall|x: Seq<char>| g.protocols.contains(x) implies #[trigger] protocol_from(
                            all,
                            g,
                            x,
                        ) by {
                            assert(all[ports.len() as int].protocol == x);
                        }
                        assert forall|x: Seq<char>| g.zones.contains(x) implies #[trigger] zone_from(
                            all,
                            g,
                            x,
                        ) by {
                            assert(all[ports.len() as int].zone == Some(x));
                        }
                    } else {
                        let a = if i < at {
                            i
                        } else {
                            i - 1
                        };
                        assert(g == groups[a]);
                        assert forall|x: Seq<char>| g.protocols.contains(x) implies #[trigger] protocol_from(
                            all,
                            g,
                            x,
                        ) by {
                            assert(protocol_from(ports, groups[a], x));
                            let k = choose|k: int|
                                0 <= k < ports.len() && same_group(g, #[trigger] ports[k])
                                    && ports[k].protocol == x;
                            assert(same_group(g, all[k]) && all[k].protocol == x);
                        }
                        assert forall|x: Seq<char>| g.zones.contains(x) implies #[trigger] zone_from(
                            all,
                            g,
                            x,
                        ) by {
                            assert(zone_from(ports, groups[a], x));
                            let k = choose|k: int|
                                0 <= k < ports.len() && same_group(g, #[trigger] ports[k])
                                    && ports[k].zone == Some(x);
                            assert(same_group(g, all[k]) && all[k].zone == Some(x));
                        }
                    }
                }
            }
        },
    }
}

/// Every consolidation is a grouping of its rules: in ascending order of
/// port number, one record per port number and normalized action, every
/// rule stood for by a record that holds its protocol and zone, every
/// record made of its group's rules only, protocols and zones in
/// alphabetical order.
pub proof fn lemma_consolidated_well_grouped(ports: Seq<PortView>)
    ensures
        well_grouped(ports, consolidated(ports)),
    decreases ports.len(),
{
    if ports.len() > 0 {
        lemma_consolidated_well_grouped(ports.drop_last());
        lemma_merged_well_grouped(ports.drop_last(), consolidated(ports.drop_last()), ports.last());
        assert(ports.drop_last().push(ports.last()) =~= ports);
    }
}

/// Two rules on one port whose normalized actions differ, such as an
/// accepted and a denied one, stand in two records, never in one.
pub proof fn lemma_actions_kept_apart(ports: Seq<PortView>, a: int, b: int)
    requires
        0 <= a < ports.len(),
        0 <= b < ports.len(),
        ports[a].number == ports[b].number,
        normalized_action(ports[a].action) != normalized_action(ports[b].action),
    ensures
        exists|i: int, j: int|
            0 <= i < consolidated(ports).len() && 0 <= j < consolidated(ports).len() && i != j
                && #[trigger] represents(consolidated(ports)[i], ports[a]) && #[trigger] represents(
                consolidated(ports)[j],
                ports[b],
            ),
{
    lemma_consolidated_well_grouped(ports);
    let out = consolidated(ports);
    let i = choose|i: int| 0 <= i < out.len() && represents(#[trigger] out[i], ports[a]);
    let j = choose|j: int| 0 <= j < out.len() && represents(#[trigger] out[j], ports[b]);
    assert(represents(out[i], ports[a]) && represents(out[j], ports[b]));
}

/// Rules of one port number and one normalized action stand in one record,
/// which holds the protocols and zones of both.
pub proof fn lemma_same_group_shares_record(ports: Seq<PortView>, a: int, b: int)
    requires
        0 <= a < ports.len(),
        0 <= b < ports.len(),
        ports[a].number == ports[b].number,
        normalized_action(ports[a].action) == normalized_action(ports[b].action),
    ensures
        exists|i: int|
            0 <= i < consolidated(ports).len() && #[trigger] represents(
                consolidated(ports)[i],
                ports[a],
            ) && represents(consolidated(ports)[i], ports[b]),
{
    lemma_consolidated_well_grouped(ports);
    let out = consolidated(ports);
    let i = choose|i: int| 0 <= i < out.len() && represents(#[trigger] out[i], ports[a]);
    let j = choose|j: int| 0 <= j < out.len() && represents(#[trigger] out[j], ports[b]);
    if i != j {
        assert(out[i].number == out[j].number && out[i].action == out[j].action);
    }
    assert(represents(out[i], ports[a]) && represents(out[i], ports[b]));
}

} // verus!

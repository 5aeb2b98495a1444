//! Extraction of a port and protocol from firewall rule text.
//!
//! Two shapes are read: a rich rule such as
//! `rule family="ipv4" port port="443" protocol="tcp" reject`, and a zone's
//! port entry such as `443/tcp`. Nothing else of the rich-rule language is
//! interpreted: a rule without both a `port port="…"` and a `protocol="…"`
//! clause is not recognised.

use vstd::prelude::*;
use crate::casing::{lowercase, lowercase_of_chars};
use crate::numeric::{parse_unsigned, parse_unsigned_chars};
use crate::split::{chars_range, split_chars, split_on, views};
use crate::text::{chars_of, contains_chars, contains_sub, find_in, find_sub, lemma_find_from,
    lemma_position_from, position_from, position_in};

verus! {

/// The text that opens a rich rule's port clause.
pub open spec fn port_clause() -> Seq<char> {
    "port port=\""@
}

/// The text that opens a rich rule's protocol clause.
pub open spec fn protocol_clause() -> Seq<char> {
    "protocol=\""@
}

/// The text between the first occurrence of `key` in `rule` and the next
/// double quote after it.
pub open spec fn quoted_after(rule: Seq<char>, key: Seq<char>) -> Option<Seq<char>> {
    match find_sub(rule, key) {
        None => None,
        Some(i) => match position_from(rule, '"', i + key.len()) {
            None => None,
            Some(e) => Some(rule.subrange(i + key.len(), e)),
        },
    }
}

/// The port and the protocol, as written, that a rich rule names.
pub open spec fn rule_port_raw(rule: Seq<char>) -> Option<(u16, Seq<char>)> {
    match (quoted_after(rule, port_clause()), quoted_after(rule, protocol_clause())) {
        (Some(port), Some(protocol)) => match parse_unsigned(port, 65535) {
            Some(n) => Some((n as u16, protocol)),
            None => None,
        },
        _ => None,
    }
}

/// The port and the lower-case protocol that a rich rule names.
pub open spec fn rule_port(rule: Seq<char>) -> Option<(u16, Seq<char>)> {
    match rule_port_raw(rule) {
        Some((n, protocol)) => Some((n, lowercase(protocol))),
        None => None,
    }
}

/// Whether a rich rule rejects or drops what it matches.
pub open spec fn rule_blocks(rule: Seq<char>) -> bool {
    contains_sub(rule, "reject"@) || contains_sub(rule, "drop"@)
}

/// The port and the lower-case protocol of a zone's port entry
/// `port/protocol`.
pub open spec fn port_entry(s: Seq<char>) -> Option<(u16, Seq<char>)> {
    let parts = split_on(s, '/');
    if parts.len() == 2 {
        match parse_unsigned(parts[0], 65535) {
            Some(n) => Some((n as u16, lowercase(parts[1]))),
            None => None,
        }
    } else {
        None
    }
}

/// The range of `rule` between the first occurrence of `key` and the next
/// double quote after it.
pub fn quoted_after_in(rule: &Vec<char>, key: &Vec<char>) -> (r: Option<(usize, usize)>)
    ensures
        match r {
            Some((a, b)) => a <= b <= rule.len() && quoted_after(rule@, key@) == Some(
                rule@.subrange(a as int, b as int),
            ),
            None => quoted_after(rule@, key@) is None,
        },
{
    proof {
        lemma_find_from(rule@, key@, 0);
    }
    match find_in(rule, key, 0) {
        None => None,
        Some(i) => {
            assert(i + key.len() <= rule.len());
            let from = i + key.len();
            proof {
                lemma_position_from(rule@, '"', from as int);
            }
            match position_in(rule, '"', from) {
                None => None,
                Some(e) => Some((from, e)),
            }
        },
    }
}

/// Reads the port and the protocol, as written, out of a rich rule.
pub fn parse_rich_rule_raw(rule: &Vec<char>) -> (r: Option<(u16, Vec<char>)>)
    ensures
        match r {
            Some((n, p)) => rule_port_raw(rule@) == Some((n, p@)),
            None => rule_port_raw(rule@) is None,
        },
{
    let port_key = chars_of("port port=\"");
    let protocol_key = chars_of("protocol=\"");
    let port_range = quoted_after_in(rule, &port_key);
    let protocol_range = quoted_after_in(rule, &protocol_key);
    match (port_range, protocol_range) {
        (Some((a, b)), Some((c, d))) => {
            let digits = chars_range(rule, a, b);
            match parse_unsigned_chars(&digits, 65535) {
                Some(n) => Some((n as u16, chars_range(rule, c, d))),
                None => None,
            }
        },
        _ => None,
    }
}

/// Reads the port and the lower-case protocol out of a rich rule.
///
/// Returns `None` when the rule lacks a `port port="…"` clause with a port
/// number in it, or a `protocol="…"` clause.
pub fn parse_rich_rule_port(rule: &str) -> (r: Option<(u16, String)>)
    ensures
        match r {
            Some((n, p)) => rule_port(rule@) == Some((n, p@)),
            None => rule_port(rule@) is None,
        },
{
    let chars = chars_of(rule);
    match parse_rich_rule_raw(&chars) {
        Some((n, p)) => Some((n, lowercase_of_chars(&p))),
        None => None,
    }
}

/// Whether a rich rule rejects or drops what it matches.
pub fn rule_blocks_chars(rule: &Vec<char>) -> (r: bool)
    ensures
        r == rule_blocks(rule@),
{
    let reject = chars_of("reject");
    let drop_word = chars_of("drop");
    contains_chars(rule, &reject) || contains_chars(rule, &drop_word)
}

/// Reads a zone's port entry `port/protocol`.
///
/// Returns `None` unless the entry has exactly one slash with a port number
/// before it.
pub fn parse_port_string(port_str: &str) -> (r: Option<(u16, String)>)
    ensures
        match r {
            Some((n, p)) => port_entry(port_str@) == Some((n, p@)),
            None => port_entry(port_str@) is None,
        },
{
    let chars = chars_of(port_str);
    let parts = split_chars(&chars, '/');
    if parts.len() != 2 {
        return None;
    }
    assert(views(parts@)[0] == parts@[0]@ && views(parts@)[1] == parts@[1]@);
    match parse_unsigned_chars(&parts[0], 65535) {
        Some(n) => Some((n as u16, lowercase_of_chars(&parts[1]))),
        None => None,
    }
}

/// A rule without a protocol clause names no port.
pub proof fn lemma_rule_without_protocol(rule: Seq<char>)
    requires
        !contains_sub(rule, protocol_clause()),
    ensures
        rule_port(rule) is None,
{
}

/// A rule without a port clause names no port.
pub proof fn lemma_rule_without_port(rule: Seq<char>)
    requires
        !contains_sub(rule, port_clause()),
    ensures
        rule_port(rule) is None,
{
}

} // verus!

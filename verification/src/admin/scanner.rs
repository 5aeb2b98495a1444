//! Reading of the kernel's socket tables.
//!
//! A table is the text of `/proc/net/tcp`, `tcp6`, `udp` or `udp6`: a header
//! line, then one row per socket with the fields
//! `sl local_address rem_address st tx:rx tr:tm retransmit uid timeout inode`
//! separated by white space. A TCP row counts when its state is LISTEN, a
//! UDP row always. A row that cannot be read is passed over.

use vstd::prelude::*;
use crate::admin::decode::{address_byte, address_byte_at, address_bytes, all_hex_chars,
    decoded_ipv4, decoded_ipv6, decoded_port, ipv4_of, ipv6_of, lemma_hex_value_bound, lemma_ipv4_of,
    lemma_ipv6_of, IpAddress};
use crate::admin::network::{endpoint_views, fresh_endpoint, lemma_endpoint_views_push,
    EndpointView, FirewallStatus, ListeningEndpoint, Protocol};
use crate::numeric::{all_hex, parse_hex, parse_hex_in, parse_unsigned, parse_unsigned_chars};
use crate::split::{fields, lines_of, split_chars, split_fields, split_lines, split_on, views};
use crate::text::chars_of;

verus! {

/// The state of a TCP socket that listens.
pub const TCP_LISTEN: u8 = 0x0A;

/// The address that `s` stands for in a table of the given family.
pub open spec fn decoded_address(s: Seq<char>, ipv6: bool) -> Option<IpAddress> {
    if ipv6 {
        match decoded_ipv6(s) {
            Some(bytes) => Some(ipv6_of(bytes)),
            None => None,
        }
    } else {
        match decoded_ipv4(s) {
            Some(bytes) => Some(ipv4_of(bytes)),
            None => None,
        }
    }
}

/// The listening endpoint that a table row stands for, if any.
///
/// None for a row of fewer than ten fields, a state that is no hexadecimal
/// byte, a TCP state other than LISTEN, a local address that is not
/// `address:port` in hexadecimal digits of the family's length, the port
/// zero, or an inode that is no number.
pub open spec fn parsed_row(line: Seq<char>, protocol: Protocol, ipv6: bool) -> Option<
    EndpointView,
> {
    let parts = fields(line);
    if parts.len() < 10 {
        None
    } else {
        let local = split_on(parts[1], ':');
        match parse_hex(parts[3], 255) {
            None => None,
            Some(state) => if protocol == Protocol::Tcp && state != TCP_LISTEN {
                None
            } else if local.len() != 2 {
                None
            } else {
                match (
                    decoded_address(local[0], ipv6),
                    decoded_port(local[1]),
                    parse_unsigned(parts[9], u64::MAX as nat),
                ) {
                    (Some(addr), Some(port), Some(inode)) => if port == 0 {
                        None
                    } else {
                        Some(fresh_endpoint(addr, port, protocol, inode as u64))
                    },
                    _ => None,
                }
            },
        }
    }
}

/// The endpoints that the rows `lines` stand for, in order.
pub open spec fn parsed_rows(lines: Seq<Seq<char>>, protocol: Protocol, ipv6: bool) -> Seq<
    EndpointView,
>
    decreases lines.len(),
{
    if lines.len() == 0 {
        seq![]
    } else {
        let before = parsed_rows(lines.drop_last(), protocol, ipv6);
        match parsed_row(lines.last(), protocol, ipv6) {
            Some(e) => before.push(e),
            None => before,
        }
    }
}

/// The endpoints that a table's text stands for: those of its lines after
/// the first, which is the header.
pub open spec fn parsed_table(content: Seq<char>, protocol: Protocol, ipv6: bool) -> Seq<
    EndpointView,
> {
    let lines = lines_of(content);
    if lines.len() > 0 {
        parsed_rows(lines.subrange(1, lines.len() as int), protocol, ipv6)
    } else {
        seq![]
    }
}

/// Decodes the address of a table of the given family.
pub fn decode_address(s: &Vec<char>, ipv6: bool) -> (r: Option<IpAddress>)
    ensures
        r == decoded_address(s@, ipv6),
{
    broadcast use vstd::array::group_array_axioms;

    if ipv6 {
        if s.len() != 32 || !all_hex_chars(s) {
            return None;
        }
        let mut bytes = [0u8;16];
        let mut k: usize = 0;
        while k < 16
            invariant
                k <= 16,
                s.len() == 32,
                all_hex(s@),
                bytes@.len() == 16,
                forall|j: int| 0 <= j < k ==> bytes@[j] == address_byte(s@, j),
            decreases 16 - k,
        {
            bytes[k] = address_byte_at(s, k);
            k += 1;
        }
        assert(bytes@ =~= address_bytes(s@, 16));
        proof {
            lemma_ipv6_of(bytes);
        }
        Some(IpAddress::V6(bytes))
    } else {
        if s.len() != 8 || !all_hex_chars(s) {
            return None;
        }
        let mut bytes = [0u8;4];
        let mut k: usize = 0;
        while k < 4
            invariant
                k <= 4,
                s.len() == 8,
                all_hex(s@),
                bytes@.len() == 4,
                forall|j: int| 0 <= j < k ==> bytes@[j] == address_byte(s@, j),
            decreases 4 - k,
        {
            bytes[k] = address_byte_at(s, k);
            k += 1;
        }
        assert(bytes@ =~= address_bytes(s@, 4));
        proof {
            lemma_ipv4_of(bytes);
        }
        Some(IpAddress::V4(bytes))
    }
}

/// Decodes the four hexadecimal digits of a port.
pub fn decode_port(s: &Vec<char>) -> (r: Option<u16>)
    ensures
        r == decoded_port(s@),
{
    if s.len() != 4 {
        return None;
    }
    assert(s@.subrange(0, 4) == s@);
    match parse_hex_in(s, 0, 4, 65535) {
        Some(v) => Some(v as u16),
        None => {
            proof {
                if all_hex(s@) {
                    lemma_hex_value_bound(s@);
                }
            }
            None
        },
    }
}

/// Reads one row of a socket table.
pub fn parse_proc_net_row(line: &Vec<char>, protocol: Protocol, ipv6: bool) -> (r: Option<
    ListeningEndpoint,
>)
    ensures
        match r {
            Some(e) => parsed_row(line@, protocol, ipv6) == Some(e@),
            None => parsed_row(line@, protocol, ipv6) is None,
        },
{
    let parts = split_fields(line);
    if parts.len() < 10 {
        return None;
    }
    assert(views(parts@)[1] == parts@[1]@ && views(parts@)[3] == parts@[3]@ && views(parts@)[9]
        == parts@[9]@);
    assert(parts@[3]@.subrange(0, parts@[3]@.len() as int) == parts@[3]@);
    let state = match parse_hex_in(&parts[3], 0, parts[3].len(), 255) {
        Some(v) => v,
        None => {
            return None;
        },
    };
    if protocol == Protocol::Tcp && state != TCP_LISTEN as u64 {
        return None;
    }
    let local = split_chars(&parts[1], ':');
    if local.len() != 2 {
        return None;
    }
    assert(views(local@)[0] == local@[0]@ && views(local@)[1] == local@[1]@);
    let addr = decode_address(&local[0], ipv6);
    let port = decode_port(&local[1]);
    let inode = parse_unsigned_chars(&parts[9], u64::MAX);
    match (addr, port, inode) {
        (Some(local_addr), Some(port), Some(inode)) => {
            if port == 0 {
                None
            } else {
                Some(
                    ListeningEndpoint {
                        local_addr,
                        port,
                        protocol,
                        inode,
                        pid: None,
                        process_name: None,
                        cmdline: None,
                        firewall_status: FirewallStatus::Unknown,
                    },
                )
            }
        },
        _ => None,
    }
}

/// Parse a line from `/proc/net/tcp` or similar.
pub fn parse_proc_net_line(line: &str, protocol: Protocol, ipv6: bool) -> (r: Option<
    ListeningEndpoint,
>)
    ensures
        match r {
            Some(e) => parsed_row(line@, protocol, ipv6) == Some(e@),
            None => parsed_row(line@, protocol, ipv6) is None,
        },
{
    let chars = chars_of(line);
    parse_proc_net_row(&chars, protocol, ipv6)
}

/// What the reading of one socket table gave: the endpoints, and how many
/// rows were passed over because they show no listening endpoint or cannot
/// be read.
#[derive(Debug)]
pub struct TableScan {
    pub endpoints: Vec<ListeningEndpoint>,
    pub skipped: usize,
}

/// The number of rows of a table's text: its lines but the header.
pub open spec fn row_count(content: Seq<char>) -> nat {
    if lines_of(content).len() > 0 {
        (lines_of(content).len() - 1) as nat
    } else {
        0
    }
}

/// Reads the text of a socket table, and counts the rows that it passes
/// over.
pub fn scan_table(content: &str, protocol: Protocol, ipv6: bool) -> (r: TableScan)
    ensures
        endpoint_views(r.endpoints@) == parsed_table(content@, protocol, ipv6),
        r.endpoints.len() + r.skipped == row_count(content@),
{
    let chars = chars_of(content);
    let lines = split_lines(&chars);
    let mut out: Vec<ListeningEndpoint> = Vec::new();
    let mut skipped: usize = 0;
    if lines.len() == 0 {
        assert(endpoint_views(out@) =~= Seq::empty());
        return TableScan { endpoints: out, skipped };
    }
    let ghost rows = lines_of(content@).subrange(1, lines@.len() as int);
    let mut i: usize = 1;
    assert(rows.take(0) =~= Seq::empty());
    assert(endpoint_views(out@) =~= parsed_rows(rows.take(0), protocol, ipv6));
    while i < lines.len()
        invariant
            1 <= i <= lines.len(),
            views(lines@) == lines_of(content@),
            rows == lines_of(content@).subrange(1, lines@.len() as int),
            endpoint_views(out@) == parsed_rows(rows.take(i - 1), protocol, ipv6),
            out.len() + skipped == i - 1,
        decreases lines.len() - i,
    {
        proof {
            assert(rows.take(i as int).drop_last() =~= rows.take(i - 1));
            assert(rows.take(i as int).last() == lines@[i as int]@) by {
                assert(views(lines@)[i as int] == lines@[i as int]@);
            }
        }
        let ghost before = out@;
        match parse_proc_net_row(&lines[i], protocol, ipv6) {
            Some(e) => {
                out.push(e);
                proof {
                    lemma_endpoint_views_push(before, e);
                }
            },
            None => {
                skipped = skipped + 1;
            },
        }
        i += 1;
    }
    assert(rows.take(lines@.len() - 1) =~= rows);
    TableScan { endpoints: out, skipped }
}

/// Reads the listening endpoints out of the text of a socket table.
pub fn parse_proc_net(content: &str, protocol: Protocol, ipv6: bool) -> (r: Vec<ListeningEndpoint>)
    ensures
        endpoint_views(r@) == parsed_table(content@, protocol, ipv6),
{
    scan_table(content, protocol, ipv6).endpoints
}

/// A TCP row shows an endpoint only if its state is LISTEN: a row in any
/// other state, such as TIME_WAIT, never appears.
pub proof fn lemma_tcp_row_listens(line: Seq<char>, ipv6: bool)
    requires
        parsed_row(line, Protocol::Tcp, ipv6) is Some,
    ensures
        fields(line).len() >= 10,
        parse_hex(fields(line)[3], 255) == Some(0x0A as nat),
{
}

/// No row shows an endpoint on port zero, and every endpoint that a row
/// shows is of the table's protocol, with no process and no firewall status
/// yet.
pub proof fn lemma_row_is_fresh(line: Seq<char>, protocol: Protocol, ipv6: bool)
    requires
        parsed_row(line, protocol, ipv6) is Some,
    ensures
        parsed_row(line, protocol, ipv6)->0.port != 0,
        parsed_row(line, protocol, ipv6)->0.protocol == protocol,
        parsed_row(line, protocol, ipv6)->0.pid is None,
        parsed_row(line, protocol, ipv6)->0.firewall_status is Unknown,
{
}

} // verus!

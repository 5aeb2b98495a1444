//! Data collectors for firewall statistics.
//!
//! Reading the kernel's counters is the caller's part; what the text that
//! it read means, and how samples add up, is said here.

use vstd::prelude::*;
use std::collections::VecDeque;
use crate::numeric::{parse_hex, parse_hex_in, parse_unsigned, parse_unsigned_chars};
use crate::split::{fields, lines_of, split_fields, split_lines, trim, trim_chars, views};
use crate::stats::models::{now, ConnectionStats, TrafficCounters};
use crate::text::{chars_of, contains_chars, contains_sub, matches_at_index, starts_with};

verus! {

/// Internal time series for connection history.
#[derive(Debug)]
pub struct InternalTimeSeries {
    pub tcp: VecDeque<u32>,
    pub udp: VecDeque<u32>,
    pub icmp: VecDeque<u32>,
    /// The number of samples that the series keep.
    pub max_samples: usize,
}

/// A series after a sample has come in: without its oldest sample if room
/// had to be made, with the new one at its end.
pub open spec fn advanced(series: Seq<u32>, make_room: bool, sample: u32) -> Seq<u32> {
    if make_room && series.len() > 0 {
        series.drop_first().push(sample)
    } else {
        series.push(sample)
    }
}

impl Default for InternalTimeSeries {
    fn default() -> (r: Self)
        ensures
            r.tcp@ == Seq::<u32>::empty(),
            r.udp@ == Seq::<u32>::empty(),
            r.icmp@ == Seq::<u32>::empty(),
            r.limit() == 60,
    {
        InternalTimeSeries {
            tcp: VecDeque::with_capacity(60),
            udp: VecDeque::with_capacity(60),
            icmp: VecDeque::with_capacity(60),
            max_samples: 60,
        }
    }
}

impl InternalTimeSeries {
    /// The number of samples that the series keep.
    pub open spec fn limit(&self) -> usize {
        self.max_samples
    }

    /// Takes in a sample. Room is made in all three series when the TCP
    /// series is full.
    pub fn push(&mut self, stats: &ConnectionStats)
        ensures
            final(self).limit() == old(self).limit(),
            final(self).tcp@ == advanced(
                old(self).tcp@,
                old(self).tcp@.len() >= old(self).limit(),
                stats.tcp,
            ),
            final(self).udp@ == advanced(
                old(self).udp@,
                old(self).tcp@.len() >= old(self).limit(),
                stats.udp,
            ),
            final(self).icmp@ == advanced(
                old(self).icmp@,
                old(self).tcp@.len() >= old(self).limit(),
                stats.icmp,
            ),
    {
        if self.tcp.len() >= self.max_samples {
            self.tcp.pop_front();
            self.udp.pop_front();
            self.icmp.pop_front();
        }
        self.tcp.push_back(stats.tcp);
        self.udp.push_back(stats.udp);
        self.icmp.push_back(stats.icmp);
    }
}

/// Collector for traffic counters.
#[derive(Debug)]
pub struct TrafficCollector {
    /// Last collected counters for delta computation.
    last_counters: Option<TrafficCounters>,
    /// Accumulated totals.
    total_accepted: u64,
    total_blocked: u64,
}

/// The packet count of a line of `/proc/net/snmp`: the fourth field of a
/// line that begins with `Ip:`, names no `Forwarding` and has more than
/// ten fields.
pub open spec fn snmp_line_count(line: Seq<char>) -> Option<u64> {
    let parts = fields(line);
    if starts_with(line, "Ip:"@) && !contains_sub(line, "Forwarding"@) && parts.len() > 10 {
        match parse_unsigned(parts[3], u64::MAX as nat) {
            Some(n) => Some(n as u64),
            None => None,
        }
    } else {
        None
    }
}

/// The packet count of the last of `lines` that gives one; `start` if none
/// does.
pub open spec fn snmp_count(lines: Seq<Seq<char>>, start: u64) -> u64
    decreases lines.len(),
{
    if lines.len() == 0 {
        start
    } else {
        match snmp_line_count(lines.last()) {
            Some(n) => n,
            None => snmp_count(lines.drop_last(), start),
        }
    }
}

/// The count of accepted packets that the two readings give: that of the
/// text of `/proc/net/snmp`, or the number in the text of the connection
/// tracker's count if that is higher; zero where neither gives one.
pub open spec fn accepted_count(snmp: Option<Seq<char>>, conntrack: Option<Seq<char>>) -> u64 {
    let base = match snmp {
        Some(text) => snmp_count(lines_of(text), 0),
        None => 0,
    };
    match conntrack {
        Some(text) => match parse_unsigned(trim(text), u64::MAX as nat) {
            Some(n) => if n > base {
                n as u64
            } else {
                base
            },
            None => base,
        },
        None => base,
    }
}

/// The drop count of a line of the connection tracker's statistics: its
/// fifth field, in hexadecimal, if it has more than four.
pub open spec fn drop_line_count(line: Seq<char>) -> Option<u64> {
    let parts = fields(line);
    if parts.len() > 4 {
        match parse_hex(parts[4], u64::MAX as nat) {
            Some(n) => Some(n as u64),
            None => None,
        }
    } else {
        None
    }
}

/// The drop count of the first of `lines`, from `i` on, that gives one;
/// zero if none does.
pub open spec fn drop_count_from(lines: Seq<Seq<char>>, i: int) -> u64
    decreases lines.len() - i,
{
    if i < 0 || i >= lines.len() {
        0
    } else {
        match drop_line_count(lines[i]) {
            Some(n) => n,
            None => drop_count_from(lines, i + 1),
        }
    }
}

/// The total of accepted packets after a sample: the sample itself where
/// it is the first, else the old total and what the sample has above the
/// last one.
pub open spec fn accepted_after(last: Option<u64>, total: u64, sample: u64) -> int {
    match last {
        Some(before) => if sample >= before {
            total + (sample - before)
        } else {
            total as int
        },
        None => sample as int,
    }
}

impl Default for TrafficCollector {
    fn default() -> (r: Self)
        ensures
            r.last_sample() is None,
            r.accepted() == 0,
            r.blocked() == 0,
    {
        TrafficCollector { last_counters: None, total_accepted: 0, total_blocked: 0 }
    }
}

impl TrafficCollector {
    /// The accepted packets of the last sample, if there was one.
    pub closed spec fn last_sample(&self) -> Option<u64> {
        match self.last_counters {
            Some(c) => Some(c.accepted_packets),
            None => None,
        }
    }

    /// The total of accepted packets.
    pub closed spec fn accepted(&self) -> u64 {
        self.total_accepted
    }

    /// The total of blocked packets.
    pub closed spec fn blocked(&self) -> u64 {
        self.total_blocked
    }

    /// Create a new traffic collector.
    pub fn new() -> (r: Self)
        ensures
            r.last_sample() is None,
            r.accepted() == 0,
            r.blocked() == 0,
    {
        TrafficCollector { last_counters: None, total_accepted: 0, total_blocked: 0 }
    }

    /// Update totals from external collection.
    pub fn update_totals(&mut self, accepted: u64, blocked: u64)
        ensures
            final(self).accepted() == accepted,
            final(self).blocked() == blocked,
            final(self).last_sample() == old(self).last_sample(),
    {
        self.total_accepted = accepted;
        self.total_blocked = blocked;
    }

    /// The totals of accepted and of blocked packets.
    pub fn totals(&self) -> (r: (u64, u64))
        ensures
            r.0 == self.accepted(),
            r.1 == self.blocked(),
    {
        (self.total_accepted, self.total_blocked)
    }

    /// Takes in a sample of the kernel's counters.
    ///
    /// Returns `false`, and changes nothing, where the new total would not
    /// be a 64-bit number.
    pub fn record(&mut self, accepted_packets: u64, dropped_packets: u64) -> (r: bool)
        ensures
            r == (accepted_after(old(self).last_sample(), old(self).accepted(), accepted_packets)
                <= u64::MAX),
            r ==> final(self).accepted() == accepted_after(
                old(self).last_sample(),
                old(self).accepted(),
                accepted_packets,
            ),
            r ==> final(self).last_sample() == Some(accepted_packets),
            !r ==> final(self).accepted() == old(self).accepted(),
            !r ==> final(self).last_sample() == old(self).last_sample(),
            final(self).blocked() == old(self).blocked(),
    {
        let total: u64 = match &self.last_counters {
            Some(last) => {
                let delta: u64 = if accepted_packets >= last.accepted_packets {
                    accepted_packets - last.accepted_packets
                } else {
                    0
                };
                if delta > u64::MAX - self.total_accepted {
                    return false;
                }
                self.total_accepted + delta
            },
            None => accepted_packets,
        };
        self.total_accepted = total;
        self.last_counters = Some(
            TrafficCounters { accepted_packets, dropped_packets, timestamp: Some(now()) },
        );
        true
    }
}

/// Reads the count of accepted packets out of the text of
/// `/proc/net/snmp` and of the connection tracker's count, `None` for a
/// file that could not be read.
pub fn read_accepted(snmp: &Option<String>, conntrack: &Option<String>) -> (r: u64)
    ensures
        r == accepted_count(crate::text::opt_text(*snmp), crate::text::opt_text(*conntrack)),
{
    let mut base: u64 = 0;
    match snmp {
        Some(text) => {
            let chars = chars_of(text.as_str());
            let lines = split_lines(&chars);
            let ghost all = lines_of(text@);
            let prefix = chars_of("Ip:");
            let word = chars_of("Forwarding");
            let mut i: usize = 0;
            assert(all.take(0) =~= Seq::empty());
            while i < lines.len()
                invariant
                    i <= lines.len(),
                    all == views(lines@),
                    prefix@ == "Ip:"@,
                    word@ == "Forwarding"@,
                    base == snmp_count(all.take(i as int), 0),
                decreases lines.len() - i,
            {
                proof {
                    assert(all.take(i + 1).drop_last() =~= all.take(i as int));
                    assert(all.take(i + 1).last() == lines@[i as int]@);
                }
                let line = &lines[i];
                if matches_at_index(line, &prefix, 0) && !contains_chars(line, &word) {
                    let parts = split_fields(line);
                    if parts.len() > 10 {
                        assert(views(parts@)[3] == parts@[3]@);
                        match parse_unsigned_chars(&parts[3], u64::MAX) {
                            Some(n) => {
                                base = n;
                            },
                            None => {},
                        }
                    }
                }
                i += 1;
            }
            assert(all.take(lines@.len() as int) =~= all);
        },
        None => {},
    }
    match conntrack {
        Some(text) => {
            let chars = chars_of(text.as_str());
            let trimmed = trim_chars(&chars);
            match parse_unsigned_chars(&trimmed, u64::MAX) {
                Some(n) => {
                    if n > base {
                        n
                    } else {
                        base
                    }
                },
                None => base,
            }
        },
        None => base,
    }
}

/// Reads the drop count out of the text of the connection tracker's
/// statistics: that of the first line after the header that gives one,
/// zero where none does or the file could not be read.
pub fn estimate_dropped_packets(content: &Option<String>) -> (r: u64)
    ensures
        r == match crate::text::opt_text(*content) {
            Some(text) => drop_count_from(lines_of(text), 1),
            None => 0,
        },
{
    match content {
        Some(text) => {
            let chars = chars_of(text.as_str());
            let lines = split_lines(&chars);
            let ghost all = lines_of(text@);
            let mut i: usize = 1;
            while i < lines.len()
                invariant
                    1 <= i,
                    all == views(lines@),
                    all == lines_of(text@),
                    crate::text::opt_text(*content) == Some(text@),
                    drop_count_from(all, 1) == drop_count_from(all, i as int),
                decreases lines.len() - i,
            {
                assert(all[i as int] == lines@[i as int]@);
                let parts = split_fields(&lines[i]);
                if parts.len() > 4 {
                    assert(views(parts@)[4] == parts@[4]@);
                    assert(parts@[4]@.subrange(0, parts@[4]@.len() as int) == parts@[4]@);
                    match parse_hex_in(&parts[4], 0, parts[4].len(), u64::MAX) {
                        Some(n) => {
                            assert(fields(all[i as int])[4] == parts@[4]@);
                            assert(drop_line_count(all[i as int]) == Some(n));
                            return n;
                        },
                        None => {
                            assert(fields(all[i as int])[4] == parts@[4]@);
                            assert(drop_line_count(all[i as int]) is None);
                        },
                    }
                } else {
                    assert(drop_line_count(all[i as int]) is None);
                }
                i += 1;
            }
            0
        },
        None => 0,
    }
}

/// Collector for connection tracking statistics.
#[derive(Debug)]
pub struct ConnectionCollector {
    /// Current connection stats.
    current: ConnectionStats,
    /// Time series history.
    history: InternalTimeSeries,
}

/// The kind of connection that a line of the connection tracker's table
/// shows: 0 for one that names `tcp`, else 1 for `udp`, else 2 for `icmp`,
/// else 3.
pub open spec fn line_kind(line: Seq<char>) -> int {
    if contains_sub(line, "tcp"@) {
        0
    } else if contains_sub(line, "udp"@) {
        1
    } else if contains_sub(line, "icmp"@) {
        2
    } else {
        3
    }
}

/// The number of lines of the given kind.
pub open spec fn kind_count(lines: Seq<Seq<char>>, kind: int) -> nat
    decreases lines.len(),
{
    if lines.len() == 0 {
        0
    } else if line_kind(lines.last()) == kind {
        kind_count(lines.drop_last(), kind) + 1
    } else {
        kind_count(lines.drop_last(), kind)
    }
}

/// No more lines are of a kind than there are lines.
pub proof fn lemma_kind_count_bound(lines: Seq<Seq<char>>, kind: int)
    ensures
        kind_count(lines, kind) <= lines.len(),
    decreases lines.len(),
{
    if lines.len() > 0 {
        lemma_kind_count_bound(lines.drop_last(), kind);
    }
}

/// The kind of connection that a line shows.
pub fn kind_of_line(line: &Vec<char>) -> (r: u8)
    ensures
        r == line_kind(line@),
{
    let first = chars_of("tcp");
    let second = chars_of("udp");
    let third = chars_of("icmp");
    if contains_chars(line, &first) {
        0
    } else if contains_chars(line, &second) {
        1
    } else if contains_chars(line, &third) {
        2
    } else {
        3
    }
}

/// Counts the lines of each kind.
fn count_kinds(lines: &Vec<Vec<char>>) -> (r: Option<(u32, u32, u32, u32)>)
    ensures
        match r {
            Some(c) => {
                &&& c.0 == kind_count(views(lines@), 0)
                &&& c.1 == kind_count(views(lines@), 1)
                &&& c.2 == kind_count(views(lines@), 2)
                &&& c.3 == kind_count(views(lines@), 3)
            },
            None => lines.len() > u32::MAX,
        },
{
    if lines.len() > 0xFFFF_FFFF {
        return None;
    }
    let ghost all = views(lines@);
    let mut a: u32 = 0;
    let mut b: u32 = 0;
    let mut c: u32 = 0;
    let mut d: u32 = 0;
    let mut i: usize = 0;
    assert(all.take(0) =~= Seq::empty());
    while i < lines.len()
        invariant
            i <= lines.len() <= 0xFFFF_FFFF,
            all == views(lines@),
            a == kind_count(all.take(i as int), 0),
            b == kind_count(all.take(i as int), 1),
            c == kind_count(all.take(i as int), 2),
            d == kind_count(all.take(i as int), 3),
        decreases lines.len() - i,
    {
        proof {
            assert(all.take(i + 1).drop_last() =~= all.take(i as int));
            assert(all.take(i + 1).last() == lines@[i as int]@);
            lemma_kind_count_bound(all.take(i as int), 0);
            lemma_kind_count_bound(all.take(i as int), 1);
            lemma_kind_count_bound(all.take(i as int), 2);
            lemma_kind_count_bound(all.take(i as int), 3);
        }
        let kind = kind_of_line(&lines[i]);
        if kind == 0 {
            a = a + 1;
        } else if kind == 1 {
            b = b + 1;
        } else if kind == 2 {
            c = c + 1;
        } else {
            d = d + 1;
        }
        i += 1;
    }
    assert(all.take(lines@.len() as int) =~= all);
    Some((a, b, c, d))
}

impl Default for ConnectionCollector {
    fn default() -> (r: Self)
        ensures
            r.current() == ConnectionStats::default_values(),
            r.history().tcp@ == Seq::<u32>::empty(),
    {
        ConnectionCollector::new()
    }
}

impl ConnectionStats {
    /// Stats of no connection and no time.
    pub open spec fn default_values() -> ConnectionStats {
        ConnectionStats { tcp: 0, udp: 0, icmp: 0, other: 0, timestamp: None }
    }
}

impl ConnectionCollector {
    /// The current connection stats.
    pub closed spec fn current(&self) -> ConnectionStats {
        self.current
    }

    /// The time series history.
    pub closed spec fn history(&self) -> InternalTimeSeries {
        self.history
    }

    /// Create a new connection collector.
    pub fn new() -> (r: Self)
        ensures
            r.current() == ConnectionStats::default_values(),
            r.history().tcp@ == Seq::<u32>::empty(),
            r.history().udp@ == Seq::<u32>::empty(),
            r.history().icmp@ == Seq::<u32>::empty(),
            r.history().limit() == 60,
    {
        ConnectionCollector {
            current: ConnectionStats { tcp: 0, udp: 0, icmp: 0, other: 0, timestamp: None },
            history: InternalTimeSeries::default(),
        }
    }

    /// Push stats from external collection.
    pub fn push_stats(&mut self, stats: ConnectionStats)
        ensures
            final(self).current() == stats,
            final(self).history().limit() == old(self).history().limit(),
            final(self).history().tcp@ == advanced(
                old(self).history().tcp@,
                old(self).history().tcp@.len() >= old(self).history().limit(),
                stats.tcp,
            ),
            final(self).history().udp@ == advanced(
                old(self).history().udp@,
                old(self).history().tcp@.len() >= old(self).history().limit(),
                stats.udp,
            ),
            final(self).history().icmp@ == advanced(
                old(self).history().icmp@,
                old(self).history().tcp@.len() >= old(self).history().limit(),
                stats.icmp,
            ),
    {
        self.history.push(&stats);
        self.current = stats;
    }

    /// Get the current connection stats.
    pub fn stats(&self) -> (r: &ConnectionStats)
        ensures
            *r == self.current(),
    {
        &self.current
    }

    /// Get the time series data for charting.
    pub fn timeseries(&self) -> (r: &InternalTimeSeries)
        ensures
            *r == self.history(),
    {
        &self.history
    }

    /// Counts the connections that the text of the connection tracker's
    /// table shows, by kind: TCP, UDP, ICMP, other.
    ///
    /// Returns `None` for a text of more lines than a 32-bit number counts.
    pub fn count_tracked(content: &str) -> (r: Option<(u32, u32, u32, u32)>)
        ensures
            match r {
                Some(c) => {
                    &&& c.0 == kind_count(lines_of(content@), 0)
                    &&& c.1 == kind_count(lines_of(content@), 1)
                    &&& c.2 == kind_count(lines_of(content@), 2)
                    &&& c.3 == kind_count(lines_of(content@), 3)
                },
                None => lines_of(content@).len() > u32::MAX,
            },
    {
        let chars = chars_of(content);
        let lines = split_lines(&chars);
        count_kinds(&lines)
    }

    /// Counts the connections that the text of a socket table shows: its
    /// lines but the header. A count above the 32-bit numbers is cut to its
    /// low 32 bits.
    pub fn count_connections(content: &str) -> (r: u32)
        ensures
            r as int == (if lines_of(content@).len() > 0 {
                lines_of(content@).len() - 1
            } else {
                0
            }) % 0x1_0000_0000,
    {
        let chars = chars_of(content);
        let lines = split_lines(&chars);
        let n: usize = if lines.len() > 0 {
            lines.len() - 1
        } else {
            0
        };
        let wide: u64 = n as u64;
        (wide % 0x1_0000_0000) as u32
    }
}

} // verus!

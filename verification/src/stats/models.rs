//! Data structures for firewall statistics.

use vstd::prelude::*;
use std::time::Instant;

verus! {

/// `std::time::Instant`: a reading of the monotonic clock, opaque here.
#[verifier::external_type_specification]
#[verifier::external_body]
pub struct ExInstant(Instant);

/// Timestamp type for statistics.
pub type Timestamp = Instant;

/// The present reading of the monotonic clock.
///
/// Trusted: calls `Instant::now`. Nothing is claimed of the result.
#[verifier::external_body]
pub(crate) fn now() -> Timestamp {
    Instant::now()
}

/// The same number in 64 bits.
fn widened(x: u32) -> (r: u64)
    ensures
        r == x,
{
    x as u64
}

/// The same number in 32 bits, if it is one.
fn narrowed(x: u64) -> (r: Option<u32>)
    ensures
        match r {
            Some(n) => n == x,
            None => x > u32::MAX,
        },
{
    if x <= 0xFFFF_FFFF {
        Some(x as u32)
    } else {
        None
    }
}

/// Raw traffic counters from nftables/iptables.
#[derive(Debug, Clone)]
pub struct TrafficCounters {
    pub accepted_packets: u64,
    pub dropped_packets: u64,
    pub timestamp: Option<Timestamp>,
}

impl Default for TrafficCounters {
    fn default() -> (r: Self)
        ensures
            r.accepted_packets == 0,
            r.dropped_packets == 0,
            r.timestamp is None,
    {
        TrafficCounters { accepted_packets: 0, dropped_packets: 0, timestamp: None }
    }
}

impl TrafficCounters {
    /// Create new traffic counters with current timestamp.
    pub fn new() -> (r: Self)
        ensures
            r.accepted_packets == 0,
            r.dropped_packets == 0,
            r.timestamp is Some,
    {
        TrafficCounters { accepted_packets: 0, dropped_packets: 0, timestamp: Some(now()) }
    }
}

/// Connection statistics by protocol.
#[derive(Debug, Clone)]
pub struct ConnectionStats {
    pub tcp: u32,
    pub udp: u32,
    pub icmp: u32,
    pub other: u32,
    pub timestamp: Option<Timestamp>,
}

impl Default for ConnectionStats {
    fn default() -> (r: Self)
        ensures
            r.tcp == 0,
            r.udp == 0,
            r.icmp == 0,
            r.other == 0,
            r.timestamp is None,
    {
        ConnectionStats { tcp: 0, udp: 0, icmp: 0, other: 0, timestamp: None }
    }
}

impl ConnectionStats {
    /// The sum of the four counts.
    pub open spec fn sum(&self) -> int {
        self.tcp + self.udp + self.icmp + self.other
    }

    /// Create new connection stats with current timestamp.
    pub fn new() -> (r: Self)
        ensures
            r.tcp == 0,
            r.udp == 0,
            r.icmp == 0,
            r.other == 0,
            r.timestamp is Some,
    {
        ConnectionStats { tcp: 0, udp: 0, icmp: 0, other: 0, timestamp: Some(now()) }
    }

    /// Connection stats of the given counts, with current timestamp.
    pub fn counted(tcp: u32, udp: u32, icmp: u32, other: u32) -> (r: Self)
        ensures
            r.tcp == tcp,
            r.udp == udp,
            r.icmp == icmp,
            r.other == other,
            r.timestamp is Some,
    {
        ConnectionStats { tcp, udp, icmp, other, timestamp: Some(now()) }
    }

    /// Get total connections.
    pub fn total(&self) -> (r: u32)
        requires
            self.sum() <= u32::MAX,
        ensures
            r == self.sum(),
    {
        self.tcp + self.udp + self.icmp + self.other
    }

    /// Get total connections, if the total is a 32-bit number.
    pub fn checked_total(&self) -> (r: Option<u32>)
        ensures
            match r {
                Some(t) => t == self.sum(),
                None => self.sum() > u32::MAX,
            },
    {
        let sum: u64 = widened(self.tcp) + widened(self.udp) + widened(self.icmp) + widened(
            self.other,
        );
        narrowed(sum)
    }
}

} // verus!

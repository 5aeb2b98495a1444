//! The scan: from what was read of the host to the list of listening
//! endpoints.
//!
//! Reading is not done here. A caller reads the process table, the four
//! socket tables and the firewall's zones, hands over what it could read,
//! and gets the endpoints: found in the tables, tied to their processes,
//! sorted, one per port and protocol, with the status that the firewall
//! gives each.

use vstd::prelude::*;
use crate::admin::assembly::{assemble, assembled, is_first, first_of_pair,
    lemma_assembled};
use crate::admin::correlate::{update_firewall_status, with_statuses, zone_views};
use crate::admin::network::{endpoint_views, EndpointView, ListeningEndpoint, Protocol, StatusView};
use crate::admin::process::{annotated, info_map, inode_map, record_views, ProcessMaps,
    ProcessRecord, ProcessRecordView};
use crate::admin::scanner::{parse_proc_net, parsed_rows, parsed_table};
use crate::models::zone::{Zone, ZoneView};
use crate::split::lines_of;
use crate::text::opt_text;

verus! {

/// The text of the four socket tables; `None` for one that could not be
/// read, as the IPv6 tables where IPv6 is off.
#[derive(Debug)]
pub struct SocketTables {
    pub tcp: Option<String>,
    pub tcp6: Option<String>,
    pub udp: Option<String>,
    pub udp6: Option<String>,
}

/// What `SocketTables` holds, as plain values.
pub struct SocketTablesView {
    pub tcp: Option<Seq<char>>,
    pub tcp6: Option<Seq<char>>,
    pub udp: Option<Seq<char>>,
    pub udp6: Option<Seq<char>>,
}

impl View for SocketTables {
    type V = SocketTablesView;

    open spec fn view(&self) -> SocketTablesView {
        SocketTablesView {
            tcp: opt_text(self.tcp),
            tcp6: opt_text(self.tcp6),
            udp: opt_text(self.udp),
            udp6: opt_text(self.udp6),
        }
    }
}

/// Why a scan gave no list.
#[derive(Debug, Clone, Copy, PartialEq, Eq)]
pub enum ScanError {
    /// The process table could not be listed.
    ProcessTable,
    /// None of the four socket tables could be read.
    SocketTables,
}

/// The endpoints of one table; none where the table could not be read.
pub open spec fn table_endpoints(content: Option<Seq<char>>, protocol: Protocol, ipv6: bool) -> Seq<
    EndpointView,
> {
    match content {
        Some(c) => parsed_table(c, protocol, ipv6),
        None => seq![],
    }
}

/// The endpoints of the four tables, in the order TCP, TCP over IPv6, UDP,
/// UDP over IPv6.
pub open spec fn raw_endpoints(t: SocketTablesView) -> Seq<EndpointView> {
    table_endpoints(t.tcp, Protocol::Tcp, false) + table_endpoints(t.tcp6, Protocol::Tcp, true)
        + table_endpoints(t.udp, Protocol::Udp, false) + table_endpoints(
        t.udp6,
        Protocol::Udp,
        true,
    )
}

/// Each endpoint with what the maps know of its socket.
pub open spec fn annotated_all(
    s: Seq<EndpointView>,
    inodes: Map<u64, u32>,
    info: Map<u32, (Seq<char>, Seq<char>)>,
) -> Seq<EndpointView> {
    Seq::new(s.len(), |i: int| annotated(s[i], inodes, info))
}

/// Whether none of the four tables could be read.
pub open spec fn no_table(t: SocketTablesView) -> bool {
    t.tcp is None && t.tcp6 is None && t.udp is None && t.udp6 is None
}

/// What a scan gives.
///
/// An error where the process table could not be listed (`records` is
/// `None`) or none of the socket tables could be read. Else the endpoints
/// of the tables, each tied to its process, assembled into one per port and
/// protocol in ascending order, each with its firewall status.
pub open spec fn scan_result(
    records: Option<Seq<ProcessRecordView>>,
    tables: SocketTablesView,
    zones: Option<Seq<ZoneView>>,
) -> Result<Seq<EndpointView>, ScanError> {
    match records {
        None => Err(ScanError::ProcessTable),
        Some(r) => if no_table(tables) {
            Err(ScanError::SocketTables)
        } else {
            Ok(
                with_statuses(
                    assembled(annotated_all(raw_endpoints(tables), inode_map(r), info_map(r))),
                    zones,
                ),
            )
        },
    }
}

/// Network exposure analyzer.
///
/// Holds the maps that tie sockets to processes, rebuilt by every scan.
pub struct NetworkExposure {
    maps: ProcessMaps,
}

impl Default for NetworkExposure {
    fn default() -> (r: Self)
        ensures
            r.inodes() == Map::<u64, u32>::empty(),
            r.info() == Map::<u32, (Seq<char>, Seq<char>)>::empty(),
    {
        NetworkExposure::new()
    }
}

impl NetworkExposure {
    /// Mapping from socket inode to process id, as of the last scan.
    pub closed spec fn inodes(&self) -> Map<u64, u32> {
        self.maps.inodes()
    }

    /// Mapping from process id to name and command line, as of the last
    /// scan.
    pub closed spec fn info(&self) -> Map<u32, (Seq<char>, Seq<char>)> {
        self.maps.info()
    }

    /// An analyzer that has scanned nothing yet.
    pub fn new() -> (r: Self)
        ensures
            r.inodes() == Map::<u64, u32>::empty(),
            r.info() == Map::<u32, (Seq<char>, Seq<char>)>::empty(),
    {
        NetworkExposure { maps: ProcessMaps::new() }
    }

    /// Build a mapping from socket inodes to processes.
    pub fn build_inode_map(&mut self, records: &Vec<ProcessRecord>)
        ensures
            final(self).inodes() == inode_map(record_views(records@)),
            final(self).info() == info_map(record_views(records@)),
    {
        self.maps.rebuild(records);
    }

    /// Scan for listening endpoints.
    ///
    /// `processes` is what was read of the process table, `None` if it
    /// could not be listed. `zones` is the firewall's snapshot, `None` if
    /// the firewall could not be reached: the endpoints then all keep the
    /// status `Unknown`, and the scan does not fail for it.
    pub fn scan(
        &mut self,
        processes: Option<&Vec<ProcessRecord>>,
        tables: &SocketTables,
        zones: Option<&Vec<Zone>>,
    ) -> (r: Result<Vec<ListeningEndpoint>, ScanError>)
        ensures
            match r {
                Ok(list) => scan_result(
                    match processes {
                        Some(p) => Some(record_views(p@)),
                        None => None,
                    },
                    tables@,
                    match zones {
                        Some(z) => Some(zone_views(z@)),
                        None => None,
                    },
                ) == Ok::<Seq<EndpointView>, ScanError>(endpoint_views(list@)),
                Err(e) => scan_result(
                    match processes {
                        Some(p) => Some(record_views(p@)),
                        None => None,
                    },
                    tables@,
                    match zones {
                        Some(z) => Some(zone_views(z@)),
                        None => None,
                    },
                ) == Err::<Seq<EndpointView>, ScanError>(e),
            },
            match processes {
                Some(p) => {
                    &&& final(self).inodes() == inode_map(record_views(p@))
                    &&& final(self).info() == info_map(record_views(p@))
                },
                None => {
                    &&& final(self).inodes() == inode_map(Seq::empty())
                    &&& final(self).info() == info_map(Seq::empty())
                },
            },
    {
        let records = match processes {
            Some(p) => p,
            None => {
                let none: Vec<ProcessRecord> = Vec::new();
                self.maps.rebuild(&none);
                assert(record_views(none@) =~= Seq::empty());
                return Err(ScanError::ProcessTable);
            },
        };
        self.maps.rebuild(records);
        if tables.tcp.is_none() && tables.tcp6.is_none() && tables.udp.is_none()
            && tables.udp6.is_none() {
            return Err(ScanError::SocketTables);
        }
        let mut found = read_table(&tables.tcp, Protocol::Tcp, false);
        let mut tcp6 = read_table(&tables.tcp6, Protocol::Tcp, true);
        let mut udp = read_table(&tables.udp, Protocol::Udp, false);
        let mut udp6 = read_table(&tables.udp6, Protocol::Udp, true);
        let ghost a = endpoint_views(found@);
        let ghost b = endpoint_views(tcp6@);
        let ghost c = endpoint_views(udp@);
        let ghost d = endpoint_views(udp6@);
        found.append(&mut tcp6);
        found.append(&mut udp);
        found.append(&mut udp6);
        assert(endpoint_views(found@) =~= a + b + c + d);
        let ghost raw = endpoint_views(found@);
        let mut tied: Vec<ListeningEndpoint> = Vec::new();
        let mut i: usize = 0;
        while i < found.len()
            invariant
                i <= found.len(),
                raw == endpoint_views(found@),
                tied.len() == i,
                forall|k: int|
                    0 <= k < i ==> tied@[k]@ == annotated(raw[k], self.maps.inodes(), self.maps.info()),
            decreases found.len() - i,
        {
            let mut e = found[i].clone();
            assert(e@ == raw[i as int]);
            self.maps.annotate(&mut e);
            tied.push(e);
            i += 1;
        }
        assert(endpoint_views(tied@) =~= annotated_all(raw, self.maps.inodes(), self.maps.info()));
        let mut list = assemble(&tied);
        update_firewall_status(&mut list, zones);
        Ok(list)
    }
}

/// The endpoints of one table; none where the table could not be read.
pub fn read_table(content: &Option<String>, protocol: Protocol, ipv6: bool) -> (r: Vec<
    ListeningEndpoint,
>)
    ensures
        endpoint_views(r@) == table_endpoints(opt_text(*content), protocol, ipv6),
{
    match content {
        Some(c) => parse_proc_net(c.as_str(), protocol, ipv6),
        None => {
            let r: Vec<ListeningEndpoint> = Vec::new();
            assert(endpoint_views(r@) =~= Seq::empty());
            r
        },
    }
}

/// The tables show every endpoint with the status `Unknown` and no process.
pub proof fn lemma_rows_are_fresh(lines: Seq<Seq<char>>, protocol: Protocol, ipv6: bool, i: int)
    requires
        0 <= i < parsed_rows(lines, protocol, ipv6).len(),
    ensures
        parsed_rows(lines, protocol, ipv6)[i].firewall_status == StatusView::Unknown,
        parsed_rows(lines, protocol, ipv6)[i].protocol == protocol,
        parsed_rows(lines, protocol, ipv6)[i].port != 0,
    decreases lines.len(),
{
    if lines.len() > 0 {
        let before = parsed_rows(lines.drop_last(), protocol, ipv6);
        if i < before.len() {
            lemma_rows_are_fresh(lines.drop_last(), protocol, ipv6, i);
        }
    }
}

/// Every endpoint that the four tables show has the status `Unknown`.
pub proof fn lemma_raw_is_unknown(t: SocketTablesView, i: int)
    requires
        0 <= i < raw_endpoints(t).len(),
    ensures
        raw_endpoints(t)[i].firewall_status == StatusView::Unknown,
        raw_endpoints(t)[i].port != 0,
{
    let a = table_endpoints(t.tcp, Protocol::Tcp, false);
    let b = table_endpoints(t.tcp6, Protocol::Tcp, true);
    let c = table_endpoints(t.udp, Protocol::Udp, false);
    let d = table_endpoints(t.udp6, Protocol::Udp, true);
    if i < a.len() {
        lemma_table_is_unknown(t.tcp, Protocol::Tcp, false, i);
    } else if i < a.len() + b.len() {
        lemma_table_is_unknown(t.tcp6, Protocol::Tcp, true, i - a.len());
    } else if i < a.len() + b.len() + c.len() {
        lemma_table_is_unknown(t.udp, Protocol::Udp, false, i - a.len() - b.len());
    } else {
        lemma_table_is_unknown(t.udp6, Protocol::Udp, true, i - a.len() - b.len() - c.len());
    }
}

/// Every endpoint that one table shows has the status `Unknown`.
proof fn lemma_table_is_unknown(content: Option<Seq<char>>, protocol: Protocol, ipv6: bool, i: int)
    requires
        0 <= i < table_endpoints(content, protocol, ipv6).len(),
    ensures
        table_endpoints(content, protocol, ipv6)[i].firewall_status == StatusView::Unknown,
        table_endpoints(content, protocol, ipv6)[i].port != 0,
{
    match content {
        Some(c) => {
            let lines = lines_of(c);
            if lines.len() > 0 {
                lemma_rows_are_fresh(lines.subrange(1, lines.len() as int), protocol, ipv6, i);
            }
        },
        None => {},
    }
}

/// With the firewall out of reach the scan still gives its list, and every
/// endpoint in it has the status `Unknown`.
pub proof fn lemma_unreachable_firewall(records: Seq<ProcessRecordView>, tables: SocketTablesView)
    requires
        !no_table(tables),
    ensures
        scan_result(Some(records), tables, None) is Ok,
        forall|i: int|
            0 <= i < scan_result(Some(records), tables, None)->Ok_0.len() ==> (#[trigger] scan_result(
                Some(records),
                tables,
                None,
            )->Ok_0[i]).firewall_status == StatusView::Unknown,
{
    let raw = raw_endpoints(tables);
    let tied = annotated_all(raw, inode_map(records), info_map(records));
    let list = assembled(tied);
    lemma_assembled(tied);
    assert(with_statuses(list, None) =~= list);
    assert forall|i: int| 0 <= i < list.len() implies (#[trigger] list[i]).firewall_status
        == StatusView::Unknown by {
        assert(is_first(tied, list[i]));
        let j = choose|j: int| #[trigger] first_of_pair(tied, j) && tied[j] == list[i];
        lemma_raw_is_unknown(tables, j);
    }
}

/// A scan of the same readings gives the same list: the same endpoints in
/// the same order.
pub proof fn lemma_scan_repeats(
    records: Option<Seq<ProcessRecordView>>,
    tables: SocketTablesView,
    zones: Option<Seq<ZoneView>>,
    first: Result<Seq<EndpointView>, ScanError>,
    second: Result<Seq<EndpointView>, ScanError>,
)
    requires
        first == scan_result(records, tables, zones),
        second == scan_result(records, tables, zones),
    ensures
        first == second,
{
}

} // verus!

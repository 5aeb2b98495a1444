//! Correlation of sockets with the processes that hold them.
//!
//! A process holds a socket when one of its file descriptors links to
//! `socket:[inode]`. From what was read of each process, two maps are
//! built: socket inode to process id, and process id to name and command
//! line. Where two processes claim one inode, the later one is kept.

use vstd::prelude::*;
use std::collections::HashMap;
use crate::admin::network::{EndpointView, ListeningEndpoint};
use crate::numeric::{parse_digits, parse_digits_in};
use crate::split::{trim, trim_chars};
use crate::text::{chars_of, matches_at_index, opt_text, owned, starts_with, string_of, texts};

verus! {

/// What was read of one process: its id, the text of its `comm` and
/// `cmdline` files where they could be read, and the targets of the links
/// in its `fd` directory where that could be listed.
#[derive(Debug)]
pub struct ProcessRecord {
    pub pid: u32,
    pub comm: Option<String>,
    pub cmdline: Option<String>,
    pub socket_links: Option<Vec<String>>,
}

/// What a `ProcessRecord` holds, as plain values.
pub struct ProcessRecordView {
    pub pid: u32,
    pub comm: Option<Seq<char>>,
    pub cmdline: Option<Seq<char>>,
    pub socket_links: Option<Seq<Seq<char>>>,
}

impl View for ProcessRecord {
    type V = ProcessRecordView;

    open spec fn view(&self) -> ProcessRecordView {
        ProcessRecordView {
            pid: self.pid,
            comm: opt_text(self.comm),
            cmdline: opt_text(self.cmdline),
            socket_links: match self.socket_links {
                Some(links) => Some(texts(links@)),
                None => None,
            },
        }
    }
}

/// What a sequence of process records holds.
pub open spec fn record_views(s: Seq<ProcessRecord>) -> Seq<ProcessRecordView> {
    Seq::new(s.len(), |i: int| s[i]@)
}

/// The process id that a directory name of the process table stands for:
/// decimal digits that spell a 32-bit number.
pub open spec fn pid_of(name: Seq<char>) -> Option<u32> {
    match parse_digits(name, u32::MAX as nat) {
        Some(n) => Some(n as u32),
        None => None,
    }
}

/// The socket inode that a file descriptor's link target names:
/// `socket:[` , decimal digits that spell a 64-bit number, `]`.
pub open spec fn socket_inode(link: Seq<char>) -> Option<u64> {
    let prefix = "socket:["@;
    if starts_with(link, prefix) && link.len() > prefix.len() && link.last() == ']' {
        match parse_digits(link.subrange(prefix.len() as int, link.len() - 1), u64::MAX as nat) {
            Some(n) => Some(n as u64),
            None => None,
        }
    } else {
        None
    }
}

/// `s` with a space in place of each NUL.
pub open spec fn nul_to_space(s: Seq<char>) -> Seq<char> {
    Seq::new(
        s.len(),
        |i: int|
            if s[i] == '\0' {
                ' '
            } else {
                s[i]
            },
    )
}

/// The name of a process: its `comm` text trimmed, `unknown` where that
/// could not be read.
pub open spec fn process_name(comm: Option<Seq<char>>) -> Seq<char> {
    match comm {
        Some(c) => trim(c),
        None => "unknown"@,
    }
}

/// The command line of a process: its `cmdline` text with spaces between
/// the arguments, trimmed; empty where that could not be read.
pub open spec fn command_line(cmdline: Option<Seq<char>>) -> Seq<char> {
    match cmdline {
        Some(c) => trim(nul_to_space(c)),
        None => Seq::empty(),
    }
}

/// The inode map after the links `links` of process `pid` have been
/// entered, each socket link overwriting what the map held for its inode.
pub open spec fn with_links(m: Map<u64, u32>, pid: u32, links: Seq<Seq<char>>) -> Map<u64, u32>
    decreases links.len(),
{
    if links.len() == 0 {
        m
    } else {
        let before = with_links(m, pid, links.drop_last());
        match socket_inode(links.last()) {
            Some(inode) => before.insert(inode, pid),
            None => before,
        }
    }
}

/// The inode map built from `records`: a record whose links could be
/// listed enters them, in order; any other adds nothing.
pub open spec fn inode_map(records: Seq<ProcessRecordView>) -> Map<u64, u32>
    decreases records.len(),
{
    if records.len() == 0 {
        Map::empty()
    } else {
        let before = inode_map(records.drop_last());
        match records.last().socket_links {
            Some(links) => with_links(before, records.last().pid, links),
            None => before,
        }
    }
}

/// The process map built from `records`: a record whose links could be
/// listed enters its name and command line under its id; any other adds
/// nothing.
pub open spec fn info_map(records: Seq<ProcessRecordView>) -> Map<u32, (Seq<char>, Seq<char>)>
    decreases records.len(),
{
    if records.len() == 0 {
        Map::empty()
    } else {
        let before = info_map(records.drop_last());
        let last = records.last();
        match last.socket_links {
            Some(_) => before.insert(last.pid, (process_name(last.comm), command_line(last.cmdline))),
            None => before,
        }
    }
}

/// The endpoint with what the maps know of its socket: the process id if
/// the inode is mapped, and the process's name and command line if the id
/// is mapped too.
pub open spec fn annotated(
    e: EndpointView,
    inodes: Map<u64, u32>,
    info: Map<u32, (Seq<char>, Seq<char>)>,
) -> EndpointView {
    if inodes.contains_key(e.inode) {
        let pid = inodes[e.inode];
        if info.contains_key(pid) {
            EndpointView {
                pid: Some(pid),
                process_name: Some(info[pid].0),
                cmdline: Some(info[pid].1),
                ..e
            }
        } else {
            EndpointView { pid: Some(pid), ..e }
        }
    } else {
        e
    }
}

/// Reads a directory name of the process table as a process id.
pub fn parse_pid(name: &str) -> (r: Option<u32>)
    ensures
        r == pid_of(name@),
{
    let chars = chars_of(name);
    assert(chars@.subrange(0, chars@.len() as int) == chars@);
    match parse_digits_in(&chars, 0, chars.len(), 0xFFFF_FFFF) {
        Some(n) => Some(n as u32),
        None => None,
    }
}

/// Reads the socket inode out of a file descriptor's link target.
pub fn parse_socket_link(link: &str) -> (r: Option<u64>)
    ensures
        r == socket_inode(link@),
{
    let chars = chars_of(link);
    let prefix = chars_of("socket:[");
    if !matches_at_index(&chars, &prefix, 0) {
        return None;
    }
    let n = chars.len();
    if n <= prefix.len() || chars[n - 1] != ']' {
        return None;
    }
    match parse_digits_in(&chars, prefix.len(), n - 1, u64::MAX) {
        Some(v) => Some(v),
        None => None,
    }
}

/// The name of a process from the text of its `comm` file.
pub fn render_comm(comm: &Option<String>) -> (r: String)
    ensures
        r@ == process_name(opt_text(*comm)),
{
    match comm {
        Some(c) => {
            let chars = chars_of(c.as_str());
            let trimmed = trim_chars(&chars);
            string_of(&trimmed)
        },
        None => owned("unknown"),
    }
}

/// The command line of a process from the text of its `cmdline` file.
pub fn render_cmdline(cmdline: &Option<String>) -> (r: String)
    ensures
        r@ == command_line(opt_text(*cmdline)),
{
    match cmdline {
        Some(c) => {
            let chars = chars_of(c.as_str());
            let mut spaced: Vec<char> = Vec::new();
            let mut i: usize = 0;
            while i < chars.len()
                invariant
                    i <= chars.len(),
                    spaced.len() == i,
                    forall|k: int| 0 <= k < i ==> spaced@[k] == nul_to_space(chars@)[k],
                decreases chars.len() - i,
            {
                let ch = chars[i];
                spaced.push(
                    if ch == '\0' {
                        ' '
                    } else {
                        ch
                    },
                );
                i += 1;
            }
            assert(spaced@ =~= nul_to_space(chars@));
            let trimmed = trim_chars(&spaced);
            string_of(&trimmed)
        },
        None => String::new(),
    }
}

/// What the process map holds, as plain values.
pub open spec fn info_texts(m: Map<u32, (String, String)>) -> Map<u32, (Seq<char>, Seq<char>)> {
    Map::new(|k: u32| m.contains_key(k), |k: u32| (m[k].0@, m[k].1@))
}

/// The two maps that tie sockets to processes.
pub struct ProcessMaps {
    /// Mapping from socket inode to process id.
    pub inode_to_pid: HashMap<u64, u32>,
    /// Mapping from process id to name and command line.
    pub pid_info: HashMap<u32, (String, String)>,
}

impl ProcessMaps {
    /// The inode map, as a plain value.
    pub open spec fn inodes(&self) -> Map<u64, u32> {
        self.inode_to_pid@
    }

    /// The process map, as a plain value.
    pub open spec fn info(&self) -> Map<u32, (Seq<char>, Seq<char>)> {
        info_texts(self.pid_info@)
    }

    /// Two empty maps.
    pub fn new() -> (r: Self)
        ensures
            r.inodes() == Map::<u64, u32>::empty(),
            r.info() == Map::<u32, (Seq<char>, Seq<char>)>::empty(),
    {
        let r = ProcessMaps { inode_to_pid: HashMap::new(), pid_info: HashMap::new() };
        assert(r.info() =~= Map::<u32, (Seq<char>, Seq<char>)>::empty());
        r
    }

    /// Rebuilds both maps from what was read of the processes.
    pub fn rebuild(&mut self, records: &Vec<ProcessRecord>)
        ensures
            final(self).inodes() == inode_map(record_views(records@)),
            final(self).info() == info_map(record_views(records@)),
    {
        broadcast use vstd::std_specs::hash::group_hash_axioms;

        self.inode_to_pid.clear();
        self.pid_info.clear();
        let ghost all = record_views(records@);
        assert(all.take(0) =~= Seq::empty());
        assert(self.info() =~= Map::<u32, (Seq<char>, Seq<char>)>::empty());
        let mut i: usize = 0;
        while i < records.len()
            invariant
                i <= records.len(),
                all == record_views(records@),
                self.inodes() == inode_map(all.take(i as int)),
                self.info() == info_map(all.take(i as int)),
            decreases records.len() - i,
        {
            let record = &records[i];
            proof {
                assert(all.take(i + 1).drop_last() =~= all.take(i as int));
                assert(all.take(i + 1).last() == record@);
            }
            match &record.socket_links {
                Some(links) => {
                    let name = render_comm(&record.comm);
                    let line = render_cmdline(&record.cmdline);
                    let ghost info_before = self.info();
                    self.pid_info.insert(record.pid, (name, line));
                    assert(self.info() =~= info_before.insert(record.pid, (name@, line@)));
                    let ghost start = self.inodes();
                    let ghost link_texts = texts(links@);
                    let mut k: usize = 0;
                    assert(link_texts.take(0) =~= Seq::empty());
                    while k < links.len()
                        invariant
                            k <= links.len(),
                            link_texts == texts(links@),
                            self.inodes() == with_links(start, record.pid, link_texts.take(k as int)),
                            self.info() == info_map(all.take(i + 1)),
                        decreases links.len() - k,
                    {
                        proof {
                            assert(link_texts.take(k + 1).drop_last() =~= link_texts.take(k as int));
                            assert(link_texts.take(k + 1).last() == links@[k as int]@);
                        }
                        match parse_socket_link(links[k].as_str()) {
                            Some(inode) => {
                                self.inode_to_pid.insert(inode, record.pid);
                            },
                            None => {},
                        }
                        k += 1;
                    }
                    assert(link_texts.take(links@.len() as int) =~= link_texts);
                },
                None => {},
            }
            i += 1;
        }
        assert(all.take(records@.len() as int) =~= all);
    }

    /// Enters what the maps know of the endpoint's socket.
    pub fn annotate(&self, endpoint: &mut ListeningEndpoint)
        ensures
            final(endpoint)@ == annotated(old(endpoint)@, self.inodes(), self.info()),
    {
        broadcast use vstd::std_specs::hash::group_hash_axioms;

        match self.inode_to_pid.get(&endpoint.inode) {
            Some(pid) => {
                endpoint.pid = Some(*pid);
                match self.pid_info.get(pid) {
                    Some(pair) => {
                        endpoint.process_name = Some(pair.0.clone());
                        endpoint.cmdline = Some(pair.1.clone());
                    },
                    None => {},
                }
            },
            None => {},
        }
    }
}

} // verus!

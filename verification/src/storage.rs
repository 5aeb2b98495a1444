//! Storage for port metadata.
//!
//! The metadata live in memory here, under keys that occur once each, in
//! the order in which they were first set. Reading them from their file and
//! writing them back is the caller's part: it hands what it read to
//! `ensure_loaded`, and where `is_dirty` says so after a change it stores
//! `get_all` under `keys` and calls `mark_saved`.

use vstd::prelude::*;
use crate::numeric::{decimal, decimal_chars};
use crate::text::{owned, push_char, push_chars, push_str, str_eq};

verus! {

/// Metadata about a port rule.
#[derive(Debug)]
pub struct PortMetadata {
    pub name: String,
    pub description: String,
    pub created_at: String,
    /// "allow", "deny", or "".
    pub incoming_action: String,
    /// "allow", "deny", or "".
    pub outgoing_action: String,
    pub zone: String,
    pub protocol: String,
    pub port: u16,
}

/// What a `PortMetadata` holds, as plain values.
pub struct PortMetadataView {
    pub name: Seq<char>,
    pub description: Seq<char>,
    pub created_at: Seq<char>,
    pub incoming_action: Seq<char>,
    pub outgoing_action: Seq<char>,
    pub zone: Seq<char>,
    pub protocol: Seq<char>,
    pub port: u16,
}

impl View for PortMetadata {
    type V = PortMetadataView;

    open spec fn view(&self) -> PortMetadataView {
        PortMetadataView {
            name: self.name@,
            description: self.description@,
            created_at: self.created_at@,
            incoming_action: self.incoming_action@,
            outgoing_action: self.outgoing_action@,
            zone: self.zone@,
            protocol: self.protocol@,
            port: self.port,
        }
    }
}

/// The local date and time, as `YYYY-MM-DD HH:MM:SS`.
///
/// Trusted: calls `chrono::Local::now` and formats what it gives. Nothing
/// is claimed of the result, which the clock alone decides.
#[verifier::external_body]
fn local_timestamp() -> String {
    chrono::Local::now().format("%Y-%m-%d %H:%M:%S").to_string()
}

/// Whether a rule's metadata deny in one direction.
pub open spec fn denies(m: PortMetadataView) -> bool {
    m.incoming_action == "deny"@ || m.outgoing_action == "deny"@
}

impl Clone for PortMetadata {
    fn clone(&self) -> (r: Self)
        ensures
            r@ == self@,
    {
        PortMetadata {
            name: self.name.clone(),
            description: self.description.clone(),
            created_at: self.created_at.clone(),
            incoming_action: self.incoming_action.clone(),
            outgoing_action: self.outgoing_action.clone(),
            zone: self.zone.clone(),
            protocol: self.protocol.clone(),
            port: self.port,
        }
    }
}

impl Default for PortMetadata {
    fn default() -> (r: Self)
        ensures
            r@ == (PortMetadataView {
                name: Seq::empty(),
                description: Seq::empty(),
                created_at: Seq::empty(),
                incoming_action: Seq::empty(),
                outgoing_action: Seq::empty(),
                zone: Seq::empty(),
                protocol: Seq::empty(),
                port: 0,
            }),
    {
        PortMetadata {
            name: String::new(),
            description: String::new(),
            created_at: String::new(),
            incoming_action: String::new(),
            outgoing_action: String::new(),
            zone: String::new(),
            protocol: String::new(),
            port: 0,
        }
    }
}

impl PortMetadata {
    /// Metadata of the given name and description, created at the given
    /// time, with nothing else set.
    pub fn created(name: &str, description: &str, created_at: String) -> (r: Self)
        ensures
            r@ == (PortMetadataView {
                name: name@,
                description: description@,
                created_at: created_at@,
                incoming_action: Seq::empty(),
                outgoing_action: Seq::empty(),
                zone: Seq::empty(),
                protocol: Seq::empty(),
                port: 0,
            }),
    {
        PortMetadata {
            name: owned(name),
            description: owned(description),
            created_at,
            incoming_action: String::new(),
            outgoing_action: String::new(),
            zone: String::new(),
            protocol: String::new(),
            port: 0,
        }
    }

    /// Metadata of a rule that denies, created at the given time.
    pub fn deny_rule_created(
        port: u16,
        protocol: &str,
        zone: &str,
        incoming: &str,
        outgoing: &str,
        name: &str,
        created_at: String,
    ) -> (r: Self)
        ensures
            r@ == (PortMetadataView {
                name: name@,
                description: Seq::empty(),
                created_at: created_at@,
                incoming_action: incoming@,
                outgoing_action: outgoing@,
                zone: zone@,
                protocol: protocol@,
                port,
            }),
    {
        PortMetadata {
            name: owned(name),
            description: String::new(),
            created_at,
            incoming_action: owned(incoming),
            outgoing_action: owned(outgoing),
            zone: owned(zone),
            protocol: owned(protocol),
            port,
        }
    }

    /// Metadata of the given name, created now.
    pub fn new(name: &str) -> (r: Self)
        ensures
            r@ == (PortMetadataView {
                name: name@,
                description: Seq::empty(),
                created_at: r@.created_at,
                incoming_action: Seq::empty(),
                outgoing_action: Seq::empty(),
                zone: Seq::empty(),
                protocol: Seq::empty(),
                port: 0,
            }),
    {
        proof {
            reveal_strlit("");
            assert(""@ =~= Seq::<char>::empty());
        }
        PortMetadata::created(name, "", local_timestamp())
    }

    /// Metadata of the given name and description, created now.
    pub fn with_description(name: &str, description: &str) -> (r: Self)
        ensures
            r@ == (PortMetadataView {
                name: name@,
                description: description@,
                created_at: r@.created_at,
                incoming_action: Seq::empty(),
                outgoing_action: Seq::empty(),
                zone: Seq::empty(),
                protocol: Seq::empty(),
                port: 0,
            }),
    {
        PortMetadata::created(name, description, local_timestamp())
    }

    /// Metadata of a rule that denies, created now.
    pub fn deny_rule(
        port: u16,
        protocol: &str,
        zone: &str,
        incoming: &str,
        outgoing: &str,
        name: &str,
    ) -> (r: Self)
        ensures
            r@ == (PortMetadataView {
                name: name@,
                description: Seq::empty(),
                created_at: r@.created_at,
                incoming_action: incoming@,
                outgoing_action: outgoing@,
                zone: zone@,
                protocol: protocol@,
                port,
            }),
    {
        PortMetadata::deny_rule_created(port, protocol, zone, incoming, outgoing, name, local_timestamp())
    }
}

/// What a sequence of keyed metadata holds.
pub open spec fn entry_views(s: Seq<(String, PortMetadata)>) -> Seq<(Seq<char>, PortMetadataView)> {
    Seq::new(s.len(), |i: int| (s[i].0@, s[i].1@))
}

/// Whether no key occurs twice.
pub open spec fn distinct_keys(s: Seq<(Seq<char>, PortMetadataView)>) -> bool {
    forall|i: int, j: int| 0 <= i < j < s.len() ==> (#[trigger] s[i]).0 != (#[trigger] s[j]).0
}

/// The index of the entry with the given key, from `i` on.
pub open spec fn key_index_from(s: Seq<(Seq<char>, PortMetadataView)>, key: Seq<char>, i: int) -> Option<
    int,
>
    decreases s.len() - i,
{
    if i < 0 || i >= s.len() {
        None
    } else if s[i].0 == key {
        Some(i)
    } else {
        key_index_from(s, key, i + 1)
    }
}

/// The index of the entry with the given key.
pub open spec fn key_index(s: Seq<(Seq<char>, PortMetadataView)>, key: Seq<char>) -> Option<int> {
    key_index_from(s, key, 0)
}

/// The entries after `key` has been set to `m`: in the place of the old
/// entry where the key was there, at the end where it was not.
pub open spec fn with_entry(
    s: Seq<(Seq<char>, PortMetadataView)>,
    key: Seq<char>,
    m: PortMetadataView,
) -> Seq<(Seq<char>, PortMetadataView)> {
    match key_index(s, key) {
        Some(i) => s.update(i, (key, m)),
        None => s.push((key, m)),
    }
}

/// The entries without that of `key`.
pub open spec fn without_entry(s: Seq<(Seq<char>, PortMetadataView)>, key: Seq<char>) -> Seq<
    (Seq<char>, PortMetadataView),
> {
    match key_index(s, key) {
        Some(i) => s.remove(i),
        None => s,
    }
}

/// The entries after those of `stored` have been set one after another.
pub open spec fn with_entries(
    s: Seq<(Seq<char>, PortMetadataView)>,
    stored: Seq<(Seq<char>, PortMetadataView)>,
) -> Seq<(Seq<char>, PortMetadataView)>
    decreases stored.len(),
{
    if stored.len() == 0 {
        s
    } else {
        with_entry(with_entries(s, stored.drop_last()), stored.last().0, stored.last().1)
    }
}

/// The metadata among `s` that deny, in order.
pub open spec fn deny_rules(s: Seq<(Seq<char>, PortMetadataView)>) -> Seq<PortMetadataView>
    decreases s.len(),
{
    if s.len() == 0 {
        seq![]
    } else if denies(s.last().1) {
        deny_rules(s.drop_last()).push(s.last().1)
    } else {
        deny_rules(s.drop_last())
    }
}

/// What a sequence of metadata holds.
pub open spec fn metadata_views(s: Seq<PortMetadata>) -> Seq<PortMetadataView> {
    Seq::new(s.len(), |i: int| s[i]@)
}

/// `key_index_from` finds the first entry of the key from `i` on, and none
/// only where there is none.
pub proof fn lemma_key_index_from(s: Seq<(Seq<char>, PortMetadataView)>, key: Seq<char>, i: int)
    requires
        0 <= i,
    ensures
        match key_index_from(s, key, i) {
            Some(k) => i <= k < s.len() && s[k].0 == key,
            None => forall|k: int| i <= k < s.len() ==> (#[trigger] s[k]).0 != key,
        },
    decreases s.len() - i,
{
    if i < s.len() && s[i].0 != key {
        lemma_key_index_from(s, key, i + 1);
    }
}

/// Setting a key leaves every key there once.
pub proof fn lemma_with_entry_distinct(
    s: Seq<(Seq<char>, PortMetadataView)>,
    key: Seq<char>,
    m: PortMetadataView,
)
    requires
        distinct_keys(s),
    ensures
        distinct_keys(with_entry(s, key, m)),
{
    lemma_key_index_from(s, key, 0);
    let out = with_entry(s, key, m);
    assert forall|i: int, j: int| 0 <= i < j < out.len() implies (#[trigger] out[i]).0 != (
    #[trigger] out[j]).0 by {
        match key_index(s, key) {
            Some(k) => {
                assert(out[i].0 == s[i].0 && out[j].0 == s[j].0);
            },
            None => {
                if j < s.len() {
                    assert(out[i] == s[i] && out[j] == s[j]);
                } else {
                    assert(out[i] == s[i]);
                }
            },
        }
    }
}

/// Removing a key leaves every key there once.
pub proof fn lemma_without_entry_distinct(s: Seq<(Seq<char>, PortMetadataView)>, key: Seq<char>)
    requires
        distinct_keys(s),
    ensures
        distinct_keys(without_entry(s, key)),
{
    lemma_key_index_from(s, key, 0);
    let out = without_entry(s, key);
    match key_index(s, key) {
        Some(k) => {
            assert forall|i: int, j: int| 0 <= i < j < out.len() implies (#[trigger] out[i]).0 != (
            #[trigger] out[j]).0 by {
                let a = if i < k {
                    i
                } else {
                    i + 1
                };
                let b = if j < k {
                    j
                } else {
                    j + 1
                };
                assert(out[i] == s[a] && out[j] == s[b]);
            }
        },
        None => {},
    }
}

/// Appends copies of the entries `src[from..to]` to `dst`.
fn append_entries(
    dst: &mut Vec<(String, PortMetadata)>,
    src: &Vec<(String, PortMetadata)>,
    from: usize,
    to: usize,
)
    requires
        from <= to <= src.len(),
    ensures
        entry_views(final(dst)@) == entry_views(old(dst)@) + entry_views(src@).subrange(
            from as int,
            to as int,
        ),
{
    let ghost head = entry_views(dst@);
    let ghost all = entry_views(src@);
    let mut k: usize = from;
    assert(entry_views(dst@) =~= head + all.subrange(from as int, k as int));
    while k < to
        invariant
            from <= k <= to <= src.len(),
            all == entry_views(src@),
            entry_views(dst@) == head + all.subrange(from as int, k as int),
        decreases to - k,
    {
        let ghost before = entry_views(dst@);
        let copy = (src[k].0.clone(), src[k].1.clone());
        dst.push(copy);
        assert(entry_views(dst@) =~= before.push(all[k as int]));
        assert(head + all.subrange(from as int, k + 1) =~= before.push(all[k as int]));
        k += 1;
    }
}

/// Storage for port metadata.
#[derive(Debug)]
pub struct PortStorage {
    data: Vec<(String, PortMetadata)>,
    loaded: bool,
    dirty: bool,
}

impl PortStorage {
    /// No key occurs twice.
    #[verifier::type_invariant]
    spec fn keys_occur_once(&self) -> bool {
        distinct_keys(entry_views(self.data@))
    }

    /// The keys and their metadata, in the order in which the keys were
    /// first set.
    pub closed spec fn entries(&self) -> Seq<(Seq<char>, PortMetadataView)> {
        entry_views(self.data@)
    }

    /// Whether what was stored has been taken in.
    pub closed spec fn loaded(&self) -> bool {
        self.loaded
    }

    /// Whether there is a change that has not been stored.
    pub closed spec fn dirty(&self) -> bool {
        self.dirty
    }

    /// An empty storage that has taken in nothing yet.
    pub fn new() -> (r: Self)
        ensures
            r.entries() == Seq::<(Seq<char>, PortMetadataView)>::empty(),
            !r.loaded(),
            !r.dirty(),
    {
        let r = PortStorage { data: Vec::new(), loaded: false, dirty: false };
        assert(entry_views(r.data@) =~= Seq::empty());
        r
    }

    /// Whether what was stored has been taken in.
    pub fn is_loaded(&self) -> (r: bool)
        ensures
            r == self.loaded(),
    {
        self.loaded
    }

    /// Whether there is a change that has not been stored.
    pub fn is_dirty(&self) -> (r: bool)
        ensures
            r == self.dirty(),
    {
        self.dirty
    }

    /// Notes that the entries have been stored.
    pub fn mark_saved(&mut self)
        ensures
            final(self).entries() == old(self).entries(),
            final(self).loaded() == old(self).loaded(),
            !final(self).dirty(),
    {
        proof {
            use_type_invariant(&*self);
        }
        self.dirty = false;
    }

    /// The index of the entry with the given key.
    fn find(&self, key: &str) -> (r: Option<usize>)
        ensures
            match r {
                Some(i) => key_index(self.entries(), key@) == Some(i as int) && i < self.data.len(),
                None => key_index(self.entries(), key@) is None,
            },
    {
        let ghost all = entry_views(self.data@);
        let mut i: usize = 0;
        while i < self.data.len()
            invariant
                i <= self.data.len(),
                all == entry_views(self.data@),
                key_index(all, key@) == key_index_from(all, key@, i as int),
            decreases self.data.len() - i,
        {
            assert(all[i as int].0 == self.data@[i as int].0@);
            if str_eq(self.data[i].0.as_str(), key) {
                return Some(i);
            }
            i += 1;
        }
        None
    }

    /// Sets `key` to `metadata` without noting a change.
    fn put(&mut self, key: String, metadata: PortMetadata)
        ensures
            final(self).entries() == with_entry(old(self).entries(), key@, metadata@),
            final(self).loaded() == old(self).loaded(),
            final(self).dirty() == old(self).dirty(),
    {
        proof {
            use_type_invariant(&*self);
            lemma_with_entry_distinct(self.entries(), key@, metadata@);
        }
        let ghost before = self.entries();
        let found = self.find(key.as_str());
        let n = self.data.len();
        let mut data: Vec<(String, PortMetadata)> = Vec::new();
        assert(entry_views(data@) =~= Seq::empty());
        match found {
            Some(i) => {
                append_entries(&mut data, &self.data, 0, i);
                let ghost head = entry_views(data@);
                data.push((key, metadata));
                assert(entry_views(data@) =~= head.push((key@, metadata@)));
                append_entries(&mut data, &self.data, i + 1, n);
                assert(entry_views(data@) =~= before.update(i as int, (key@, metadata@)));
            },
            None => {
                append_entries(&mut data, &self.data, 0, n);
                let ghost head = entry_views(data@);
                data.push((key, metadata));
                assert(entry_views(data@) =~= head.push((key@, metadata@)));
                assert(entry_views(data@) =~= before.push((key@, metadata@)));
            },
        }
        self.data = data;
    }

    /// Takes in what was stored, once: the first call enters the stored
    /// entries, a later key overwriting an earlier one; every other call
    /// changes nothing. `None` stands for a file that is missing or cannot
    /// be read.
    pub fn ensure_loaded(&mut self, stored: Option<Vec<(String, PortMetadata)>>)
        ensures
            final(self).loaded(),
            old(self).loaded() ==> final(self).entries() == old(self).entries(),
            old(self).loaded() ==> final(self).dirty() == old(self).dirty(),
            !old(self).loaded() ==> !final(self).dirty(),
            !old(self).loaded() ==> final(self).entries() == with_entries(
                old(self).entries(),
                match stored {
                    Some(v) => entry_views(v@),
                    None => Seq::empty(),
                },
            ),
    {
        proof {
            use_type_invariant(&*self);
        }
        if self.loaded {
            return ;
        }
        let ghost before = self.entries();
        match stored {
            Some(v) => {
                let ghost all = entry_views(v@);
                let mut i: usize = 0;
                assert(all.take(0) =~= Seq::empty());
                while i < v.len()
                    invariant
                        i <= v.len(),
                        all == entry_views(v@),
                        self.entries() == with_entries(before, all.take(i as int)),
                        !self.loaded(),
                    decreases v.len() - i,
                {
                    proof {
                        assert(all.take(i + 1).drop_last() =~= all.take(i as int));
                        assert(all.take(i + 1).last() == (v@[i as int].0@, v@[i as int].1@));
                    }
                    self.put(v[i].0.clone(), v[i].1.clone());
                    i += 1;
                }
                assert(all.take(v@.len() as int) =~= all);
            },
            None => {},
        }
        proof {
            use_type_invariant(&*self);
        }
        self.dirty = false;
        self.loaded = true;
    }

    /// The metadata of `key`, if it has any.
    pub fn get(&self, key: &str) -> (r: Option<PortMetadata>)
        ensures
            match r {
                Some(m) => key_index(self.entries(), key@) matches Some(i) && self.entries()[i].1
                    == m@,
                None => key_index(self.entries(), key@) is None,
            },
    {
        match self.find(key) {
            Some(i) => {
                assert(self.entries()[i as int].1 == self.data@[i as int].1@);
                Some(self.data[i].1.clone())
            },
            None => None,
        }
    }

    /// Sets the metadata of `key` and notes the change.
    pub fn set(&mut self, key: String, metadata: PortMetadata)
        ensures
            final(self).entries() == with_entry(old(self).entries(), key@, metadata@),
            final(self).dirty(),
            final(self).loaded() == old(self).loaded(),
    {
        self.put(key, metadata);
        proof {
            use_type_invariant(&*self);
        }
        self.dirty = true;
    }

    /// Removes the metadata of `key`, and notes the change if there were
    /// any.
    pub fn remove(&mut self, key: &str)
        ensures
            final(self).entries() == without_entry(old(self).entries(), key@),
            final(self).dirty() == (old(self).dirty() || key_index(old(self).entries(), key@) is Some),
            final(self).loaded() == old(self).loaded(),
    {
        proof {
            use_type_invariant(&*self);
            lemma_without_entry_distinct(self.entries(), key@);
        }
        let ghost before = self.entries();
        match self.find(key) {
            Some(i) => {
                let n = self.data.len();
                let mut data: Vec<(String, PortMetadata)> = Vec::new();
                assert(entry_views(data@) =~= Seq::empty());
                append_entries(&mut data, &self.data, 0, i);
                append_entries(&mut data, &self.data, i + 1, n);
                assert(entry_views(data@) =~= before.remove(i as int));
                self.data = data;
                self.dirty = true;
            },
            None => {},
        }
    }

    /// Whether `key` has metadata.
    pub fn has(&self, key: &str) -> (r: bool)
        ensures
            r == (key_index(self.entries(), key@) is Some),
    {
        self.find(key).is_some()
    }

    /// The keys, in the order in which they were first set; none occurs
    /// twice.
    pub fn keys(&self) -> (r: Vec<String>)
        ensures
            r.len() == self.entries().len(),
            forall|i: int| 0 <= i < r.len() ==> (#[trigger] r@[i])@ == self.entries()[i].0,
            distinct_keys(self.entries()),
    {
        proof {
            use_type_invariant(self);
        }
        let mut out: Vec<String> = Vec::new();
        let mut i: usize = 0;
        while i < self.data.len()
            invariant
                i <= self.data.len(),
                out.len() == i,
                forall|k: int| 0 <= k < i ==> (#[trigger] out@[k])@ == self.data@[k].0@,
            decreases self.data.len() - i,
        {
            out.push(self.data[i].0.clone());
            i += 1;
        }
        out
    }

    /// The metadata that deny in one direction, in the order of their
    /// keys.
    pub fn get_deny_rules(&self) -> (r: Vec<PortMetadata>)
        ensures
            metadata_views(r@) == deny_rules(self.entries()),
    {
        let ghost all = entry_views(self.data@);
        let mut out: Vec<PortMetadata> = Vec::new();
        let mut i: usize = 0;
        assert(all.take(0) =~= Seq::empty());
        assert(metadata_views(out@) =~= Seq::empty());
        while i < self.data.len()
            invariant
                i <= self.data.len(),
                all == entry_views(self.data@),
                metadata_views(out@) == deny_rules(all.take(i as int)),
            decreases self.data.len() - i,
        {
            proof {
                assert(all.take(i + 1).drop_last() =~= all.take(i as int));
                assert(all.take(i + 1).last() == (self.data@[i as int].0@, self.data@[i as int].1@));
            }
            let m = &self.data[i].1;
            if str_eq(m.incoming_action.as_str(), "deny") || str_eq(m.outgoing_action.as_str(), "deny") {
                let ghost before = out@;
                let copy = m.clone();
                out.push(copy);
                assert(metadata_views(out@) =~= metadata_views(before).push(copy@));
            }
            i += 1;
        }
        assert(all.take(self.data@.len() as int) =~= all);
        out
    }

    /// All metadata, in the order of their keys.
    pub fn get_all(&self) -> (r: Vec<PortMetadata>)
        ensures
            r.len() == self.entries().len(),
            forall|i: int| 0 <= i < r.len() ==> (#[trigger] r@[i])@ == self.entries()[i].1,
    {
        let mut out: Vec<PortMetadata> = Vec::new();
        let mut i: usize = 0;
        while i < self.data.len()
            invariant
                i <= self.data.len(),
                out.len() == i,
                forall|k: int| 0 <= k < i ==> (#[trigger] out@[k])@ == self.data@[k].1@,
            decreases self.data.len() - i,
        {
            out.push(self.data[i].1.clone());
            i += 1;
        }
        out
    }

    /// The key of a rule in a zone: `port/protocol/zone`.
    pub fn make_key(port: u16, protocol: &str, zone: &str) -> (r: String)
        ensures
            r@ == decimal(port as nat) + seq!['/'] + protocol@ + seq!['/'] + zone@,
    {
        let digits = decimal_chars(port as u64);
        let mut r = String::new();
        push_chars(&mut r, &digits);
        push_char(&mut r, '/');
        push_str(&mut r, protocol);
        push_char(&mut r, '/');
        push_str(&mut r, zone);
        assert(r@ =~= decimal(port as nat) + seq!['/'] + protocol@ + seq!['/'] + zone@);
        r
    }

    /// The key of a rule in no zone: `port/protocol`.
    pub fn make_simple_key(port: u16, protocol: &str) -> (r: String)
        ensures
            r@ == decimal(port as nat) + seq!['/'] + protocol@,
    {
        let digits = decimal_chars(port as u64);
        let mut r = String::new();
        push_chars(&mut r, &digits);
        push_char(&mut r, '/');
        push_str(&mut r, protocol);
        assert(r@ =~= decimal(port as nat) + seq!['/'] + protocol@);
        r
    }
}

impl Default for PortStorage {
    fn default() -> (r: Self)
        ensures
            r.entries() == Seq::<(Seq<char>, PortMetadataView)>::empty(),
            !r.loaded(),
            !r.dirty(),
    {
        PortStorage::new()
    }
}

} // verus!

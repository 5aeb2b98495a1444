//! System services as systemd describes them.
//!
//! Asking systemd is the caller's part; what its answers mean is said here.

use vstd::prelude::*;
use crate::lexical::lex_lt;
use crate::numeric::{decimal, decimal_chars};
use crate::split::chars_range;
use crate::text::{chars_of, ends_with, matches_at_index, opt_text, owned, push_chars, push_str,
    str_eq, string_of};

verus! {

/// Service state enumeration.
#[derive(Debug, Clone, Copy, PartialEq, Eq, Structural)]
pub enum ServiceState {
    Running,
    Stopped,
    Failed,
    Unknown,
}

/// The state that systemd's sub-state word stands for.
pub open spec fn state_of(word: Seq<char>) -> ServiceState {
    if word == "running"@ {
        ServiceState::Running
    } else if word == "exited"@ || word == "dead"@ || word == "inactive"@ {
        ServiceState::Stopped
    } else if word == "failed"@ {
        ServiceState::Failed
    } else {
        ServiceState::Unknown
    }
}

/// The style class that shows a state.
pub open spec fn state_class(state: ServiceState) -> Seq<char> {
    match state {
        ServiceState::Running => "success"@,
        ServiceState::Stopped => "dim-label"@,
        ServiceState::Failed => "error"@,
        ServiceState::Unknown => "warning"@,
    }
}

impl ServiceState {
    /// The state that systemd's sub-state word stands for.
    pub fn from_str(s: &str) -> (r: Self)
        ensures
            r == state_of(s@),
    {
        if str_eq(s, "running") {
            ServiceState::Running
        } else if str_eq(s, "exited") || str_eq(s, "dead") || str_eq(s, "inactive") {
            ServiceState::Stopped
        } else if str_eq(s, "failed") {
            ServiceState::Failed
        } else {
            ServiceState::Unknown
        }
    }

    /// The style class that shows the state.
    pub fn css_class(&self) -> (r: &'static str)
        ensures
            r@ == state_class(*self),
    {
        match self {
            ServiceState::Running => "success",
            ServiceState::Stopped => "dim-label",
            ServiceState::Failed => "error",
            ServiceState::Unknown => "warning",
        }
    }

    /// The rank of the state in listings: running first, then failed,
    /// stopped, unknown.
    pub open spec fn rank(self) -> int {
        match self {
            ServiceState::Running => 0,
            ServiceState::Failed => 1,
            ServiceState::Stopped => 2,
            ServiceState::Unknown => 3,
        }
    }

    /// The rank of the state in listings.
    pub fn listing_rank(&self) -> (r: u8)
        ensures
            r == self.rank(),
    {
        match self {
            ServiceState::Running => 0,
            ServiceState::Failed => 1,
            ServiceState::Stopped => 2,
            ServiceState::Unknown => 3,
        }
    }
}

/// Information about a systemd service.
#[derive(Debug)]
pub struct ServiceInfo {
    pub name: String,
    pub display_name: String,
    pub description: String,
    pub state: ServiceState,
    pub is_enabled: bool,
    pub unit_path: String,
    pub main_pid: u32,
    pub memory_current: Option<u64>,
}

/// What a `ServiceInfo` holds, as plain values.
pub struct ServiceInfoView {
    pub name: Seq<char>,
    pub display_name: Seq<char>,
    pub description: Seq<char>,
    pub state: ServiceState,
    pub is_enabled: bool,
    pub unit_path: Seq<char>,
    pub main_pid: u32,
    pub memory_current: Option<u64>,
}

impl View for ServiceInfo {
    type V = ServiceInfoView;

    open spec fn view(&self) -> ServiceInfoView {
        ServiceInfoView {
            name: self.name@,
            display_name: self.display_name@,
            description: self.description@,
            state: self.state,
            is_enabled: self.is_enabled,
            unit_path: self.unit_path@,
            main_pid: self.main_pid,
            memory_current: self.memory_current,
        }
    }
}

/// `s` without the suffix `suffix`, taken off as often as `s` ends with
/// it.
pub open spec fn without_suffix(s: Seq<char>, suffix: Seq<char>) -> Seq<char>
    decreases s.len(),
{
    if suffix.len() > 0 && ends_with(s, suffix) {
        without_suffix(s.take(s.len() - suffix.len()), suffix)
    } else {
        s
    }
}

/// What is known of a service by its unit name alone.
pub open spec fn named_service(name: Seq<char>) -> ServiceInfoView {
    ServiceInfoView {
        name,
        display_name: without_suffix(name, ".service"@),
        description: Seq::empty(),
        state: ServiceState::Unknown,
        is_enabled: false,
        unit_path: Seq::empty(),
        main_pid: 0,
        memory_current: None,
    }
}

/// Whether a unit file state means that the service starts by itself.
pub open spec fn enabled_word(word: Seq<char>) -> bool {
    word == "enabled"@ || word == "static"@
}

/// What is known of a service from systemd's answers; an answer that was
/// not given (`None`) leaves what the name alone tells. The process id and
/// the memory count only for a running service, the memory only where
/// systemd gives a number other than the highest, which stands for none.
pub open spec fn described_service(
    name: Seq<char>,
    unit_path: Seq<char>,
    description: Option<Seq<char>>,
    sub_state: Option<Seq<char>>,
    unit_file_state: Option<Seq<char>>,
    main_pid: Option<u32>,
    memory: Option<u64>,
) -> ServiceInfoView {
    let state = match sub_state {
        Some(w) => state_of(w),
        None => ServiceState::Unknown,
    };
    let running = state == ServiceState::Running;
    ServiceInfoView {
        name,
        display_name: without_suffix(name, ".service"@),
        description: match description {
            Some(d) => d,
            None => Seq::empty(),
        },
        state,
        is_enabled: match unit_file_state {
            Some(w) => enabled_word(w),
            None => false,
        },
        unit_path,
        main_pid: match main_pid {
            Some(p) if running => p,
            _ => 0,
        },
        memory_current: match memory {
            Some(m) if running && m != u64::MAX => Some(m),
            _ => None,
        },
    }
}

/// The quotient of `n` by `d`, rounded to the nearest whole number, a half
/// to the even one.
pub open spec fn rounded_quotient(n: nat, d: nat) -> nat {
    let q = n / d;
    let r = n % d;
    if 2 * r > d || (2 * r == d && q % 2 == 1) {
        q + 1
    } else {
        q
    }
}

/// The power of two in whose multiples a 64-bit floating-point number
/// holds a value of the size of `bytes`: the least one, from `unit` up,
/// that leaves at most 53 bits.
pub open spec fn float_unit(bytes: nat, unit: nat) -> nat
    decreases 4096 - unit,
{
    if 0 < unit < 2048 && bytes / unit >= 0x20_0000_0000_0000 {
        float_unit(bytes, unit * 2)
    } else {
        unit
    }
}

/// `bytes` as a 64-bit floating-point number holds it: itself below 2^53,
/// else the nearest number of 53 significant bits.
pub open spec fn as_float(bytes: nat) -> nat {
    rounded_quotient(bytes, float_unit(bytes, 1)) * float_unit(bytes, 1)
}

/// The number of tenths of `unit` in `bytes`, as floating-point
/// arithmetic and rounding to one decimal give it.
pub open spec fn tenths(bytes: nat, unit: nat) -> nat {
    rounded_quotient(as_float(bytes) * 10, unit)
}

/// A number of tenths written with one decimal.
pub open spec fn one_decimal(t: nat) -> Seq<char> {
    decimal(t / 10) + "."@ + decimal(t % 10)
}

/// A memory size for reading: in GB, MB or KB with one decimal from 1024
/// bytes on, in bytes below.
pub open spec fn memory_text(bytes: u64) -> Seq<char> {
    if bytes >= 0x4000_0000 {
        one_decimal(tenths(bytes as nat, 0x4000_0000)) + " GB"@
    } else if bytes >= 0x10_0000 {
        one_decimal(tenths(bytes as nat, 0x10_0000)) + " MB"@
    } else if bytes >= 1024 {
        one_decimal(tenths(bytes as nat, 1024)) + " KB"@
    } else {
        decimal(bytes as nat) + " B"@
    }
}

/// The quotient of `n` by `d`, rounded to the nearest whole number, a half
/// to the even one.
pub fn round_quotient(n: u128, d: u128) -> (r: u128)
    requires
        d > 0,
        n / d < u128::MAX,
        d <= u128::MAX / 2,
    ensures
        r == rounded_quotient(n as nat, d as nat),
{
    let q = n / d;
    let rest = n % d;
    if 2 * rest > d || (2 * rest == d && q % 2 == 1) {
        q + 1
    } else {
        q
    }
}

/// `bytes` as a 64-bit floating-point number holds it.
pub fn float_value(bytes: u64) -> (r: u128)
    ensures
        r == as_float(bytes as nat),
        r <= 0x1_0000_0000_0000_0000,
{
    let mut unit: u64 = 1;
    while unit < 2048 && bytes / unit >= 0x20_0000_0000_0000
        invariant
            0 < unit <= 2048,
            unit == 1 || unit == 2 || unit == 4 || unit == 8 || unit == 16 || unit == 32 || unit
                == 64 || unit == 128 || unit == 256 || unit == 512 || unit == 1024 || unit == 2048,
            float_unit(bytes as nat, 1) == float_unit(bytes as nat, unit as nat),
        decreases 4096 - unit,
    {
        unit = unit * 2;
    }
    assert(float_unit(bytes as nat, 1) == unit);
    let q = round_quotient(bytes as u128, unit as u128);
    let whole = bytes as u128 / (unit as u128);
    let wide = unit as u128;
    assert(q <= whole + 1);
    assert(whole * wide <= bytes) by (nonlinear_arith)
        requires
            whole == (bytes as u128) / wide,
            wide > 0,
    ;
    assert(unit < 2048 ==> whole < 0x20_0000_0000_0000);
    assert(q * wide <= 0x1_0000_0000_0000_0000) by (nonlinear_arith)
        requires
            q <= whole + 1,
            0 < wide <= 2048,
            whole * wide <= 0xFFFF_FFFF_FFFF_FFFF,
            wide < 2048 ==> whole < 0x20_0000_0000_0000,
    ;
    q * wide
}

/// Writes a size with one decimal and the unit's name.
fn scaled(bytes: u64, unit: u64, suffix: &str) -> (r: String)
    requires
        unit == 1024 || unit == 0x10_0000 || unit == 0x4000_0000,
    ensures
        r@ == one_decimal(tenths(bytes as nat, unit as nat)) + suffix@,
{
    let value = float_value(bytes);
    let t = round_quotient(value * 10, unit as u128);
    assert(t <= 0xFFFF_FFFF_FFFF_FFFF);
    let whole = decimal_chars((t / 10) as u64);
    let part = decimal_chars((t % 10) as u64);
    let mut r = String::new();
    push_chars(&mut r, &whole);
    push_str(&mut r, ".");
    push_chars(&mut r, &part);
    push_str(&mut r, suffix);
    r
}

impl Clone for ServiceInfo {
    fn clone(&self) -> (r: Self)
        ensures
            r@ == self@,
    {
        ServiceInfo {
            name: self.name.clone(),
            display_name: self.display_name.clone(),
            description: self.description.clone(),
            state: self.state,
            is_enabled: self.is_enabled,
            unit_path: self.unit_path.clone(),
            main_pid: self.main_pid,
            memory_current: self.memory_current,
        }
    }
}

/// `s` without the suffix `suffix`, taken off as often as `s` ends with
/// it.
pub fn strip_suffix_all(s: &Vec<char>, suffix: &Vec<char>) -> (r: Vec<char>)
    ensures
        r@ == without_suffix(s@, suffix@),
{
    let mut end: usize = s.len();
    if suffix.len() == 0 {
        let r = chars_range(s, 0, end);
        assert(s@.subrange(0, end as int) == s@);
        return r;
    }
    assert(s@.take(end as int) == s@);
    while end >= suffix.len() && matches_at_index(s, suffix, end - suffix.len())
        invariant
            end <= s.len(),
            suffix.len() > 0,
            without_suffix(s@, suffix@) == without_suffix(s@.take(end as int), suffix@),
        decreases end,
    {
        proof {
            let t = s@.take(end as int);
            assert(t.subrange(end - suffix@.len(), end as int) == s@.subrange(
                end - suffix@.len(),
                end as int,
            ));
            assert(ends_with(t, suffix@));
            assert(t.take(t.len() - suffix@.len()) == s@.take(end - suffix@.len()));
        }
        end = end - suffix.len();
    }
    proof {
        let t = s@.take(end as int);
        if end >= suffix.len() {
            assert(t.subrange(end - suffix@.len(), end as int) == s@.subrange(
                end - suffix@.len(),
                end as int,
            ));
        }
        assert(!ends_with(t, suffix@));
    }
    chars_range(s, 0, end)
}

impl ServiceInfo {
    /// What is known of a service by its unit name alone.
    pub fn new(name: &str) -> (r: Self)
        ensures
            r@ == named_service(name@),
    {
        let chars = chars_of(name);
        let suffix = chars_of(".service");
        let display = strip_suffix_all(&chars, &suffix);
        ServiceInfo {
            name: owned(name),
            display_name: string_of(&display),
            description: String::new(),
            state: ServiceState::Unknown,
            is_enabled: false,
            unit_path: String::new(),
            main_pid: 0,
            memory_current: None,
        }
    }

    /// What is known of a service from systemd's answers.
    pub fn from_properties(
        name: &str,
        unit_path: &str,
        description: Option<String>,
        sub_state: Option<String>,
        unit_file_state: Option<String>,
        main_pid: Option<u32>,
        memory: Option<u64>,
    ) -> (r: Self)
        ensures
            r@ == described_service(
                name@,
                unit_path@,
                opt_text(description),
                opt_text(sub_state),
                opt_text(unit_file_state),
                main_pid,
                memory,
            ),
    {
        let mut info = ServiceInfo::new(name);
        info.unit_path = owned(unit_path);
        match description {
            Some(d) => {
                info.description = d;
            },
            None => {},
        }
        match sub_state {
            Some(w) => {
                info.state = ServiceState::from_str(w.as_str());
            },
            None => {},
        }
        match unit_file_state {
            Some(w) => {
                info.is_enabled = str_eq(w.as_str(), "enabled") || str_eq(w.as_str(), "static");
            },
            None => {},
        }
        if info.state == ServiceState::Running {
            match main_pid {
                Some(p) => {
                    info.main_pid = p;
                },
                None => {},
            }
            match memory {
                Some(m) => {
                    if m != u64::MAX {
                        info.memory_current = Some(m);
                    }
                },
                None => {},
            }
        }
        info
    }

    /// Format memory as human-readable string.
    pub fn memory_display(&self) -> (r: Option<String>)
        ensures
            opt_text(r) == match self.memory_current {
                Some(bytes) => Some(memory_text(bytes)),
                None => None,
            },
    {
        match self.memory_current {
            Some(bytes) => {
                if bytes >= 0x4000_0000 {
                    Some(scaled(bytes, 0x4000_0000, " GB"))
                } else if bytes >= 0x10_0000 {
                    Some(scaled(bytes, 0x10_0000, " MB"))
                } else if bytes >= 1024 {
                    Some(scaled(bytes, 1024, " KB"))
                } else {
                    let digits = decimal_chars(bytes);
                    let mut r = String::new();
                    push_chars(&mut r, &digits);
                    push_str(&mut r, " B");
                    Some(r)
                }
            },
            None => None,
        }
    }
}

/// The units whose state bears on the system's security.
pub open spec fn security_units() -> Seq<Seq<char>> {
    seq![
        "firewalld.service"@,
        "sshd.service"@,
        "fail2ban.service"@,
        "ufw.service"@,
        "apparmor.service"@,
        "selinux-autorelabel.service"@,
        "auditd.service"@,
        "cups.service"@,
        "bluetooth.service"@,
        "avahi-daemon.service"@,
        "NetworkManager.service"@,
        "wpa_supplicant.service"@,
        "gdm.service"@,
        "lightdm.service"@,
        "sddm.service"@,
        "docker.service"@,
        "containerd.service"@,
        "libvirtd.service"@,
        "named.service"@,
        "httpd.service"@,
        "nginx.service"@,
        "apache2.service"@,
        "mariadb.service"@,
        "mysql.service"@,
        "postgresql.service"@,
        "redis.service"@,
        "mongodb.service"@,
        "smb.service"@,
        "nfs-server.service"@,
        "chronyd.service"@,
        "ntpd.service"@,
        "systemd-resolved.service"@,
        "polkit.service"@,
        "dbus.service"@,
    ]
}

/// The units whose state bears on the system's security, in the order in
/// which systemd is asked for them.
pub fn security_service_names() -> (r: Vec<&'static str>)
    ensures
        r.len() == security_units().len(),
        forall|i: int| 0 <= i < r.len() ==> (#[trigger] r@[i])@ == security_units()[i],
{
    let mut r: Vec<&'static str> = Vec::new();
    r.push("firewalld.service");
    r.push("sshd.service");
    r.push("fail2ban.service");
    r.push("ufw.service");
    r.push("apparmor.service");
    r.push("selinux-autorelabel.service");
    r.push("auditd.service");
    r.push("cups.service");
    r.push("bluetooth.service");
    r.push("avahi-daemon.service");
    r.push("NetworkManager.service");
    r.push("wpa_supplicant.service");
    r.push("gdm.service");
    r.push("lightdm.service");
    r.push("sddm.service");
    r.push("docker.service");
    r.push("containerd.service");
    r.push("libvirtd.service");
    r.push("named.service");
    r.push("httpd.service");
    r.push("nginx.service");
    r.push("apache2.service");
    r.push("mariadb.service");
    r.push("mysql.service");
    r.push("postgresql.service");
    r.push("redis.service");
    r.push("mongodb.service");
    r.push("smb.service");
    r.push("nfs-server.service");
    r.push("chronyd.service");
    r.push("ntpd.service");
    r.push("systemd-resolved.service");
    r.push("polkit.service");
    r.push("dbus.service");
    r
}

/// What a sequence of services holds.
pub open spec fn service_views(s: Seq<ServiceInfo>) -> Seq<ServiceInfoView> {
    Seq::new(s.len(), |i: int| s[i]@)
}

/// Whether `a` is listed before `b`: by the rank of its state, then by its
/// display name in alphabetical order.
pub open spec fn listed_before(a: ServiceInfoView, b: ServiceInfoView) -> bool {
    a.state.rank() < b.state.rank() || (a.state.rank() == b.state.rank() && lex_lt(
        a.display_name,
        b.display_name,
    ))
}

/// The index, from `i` on, of the first service of `list` that `x` is
/// listed before, or the length of `list`.
pub open spec fn slot_from(list: Seq<ServiceInfoView>, x: ServiceInfoView, i: int) -> int
    decreases list.len() - i,
{
    if 0 <= i < list.len() && !listed_before(x, list[i]) {
        slot_from(list, x, i + 1)
    } else {
        i
    }
}

/// The services in the order of a listing: each placed before the first
/// that it is listed before, so that services of one state and name keep
/// their order.
pub open spec fn listing(s: Seq<ServiceInfoView>) -> Seq<ServiceInfoView>
    decreases s.len(),
{
    if s.len() == 0 {
        seq![]
    } else {
        let before = listing(s.drop_last());
        before.insert(slot_from(before, s.last(), 0), s.last())
    }
}

/// Whether no service stands after one that it is listed before.
pub open spec fn in_listing_order(list: Seq<ServiceInfoView>) -> bool {
    forall|i: int, j: int|
        0 <= i < j < list.len() ==> !listed_before(#[trigger] list[j], #[trigger] list[i])
}

/// `slot_from` stays within the list, passes only services that `x` is not
/// listed before, and stops at one that it is.
pub proof fn lemma_slot_from(list: Seq<ServiceInfoView>, x: ServiceInfoView, i: int)
    requires
        0 <= i <= list.len(),
    ensures
        i <= slot_from(list, x, i) <= list.len(),
        forall|k: int| i <= k < slot_from(list, x, i) ==> !listed_before(x, #[trigger] list[k]),
        slot_from(list, x, i) < list.len() ==> listed_before(x, list[slot_from(list, x, i)]),
    decreases list.len() - i,
{
    if i < list.len() && !listed_before(x, list[i]) {
        lemma_slot_from(list, x, i + 1);
    }
}

/// Being listed before is transitive.
pub proof fn lemma_listed_before_transitive(a: ServiceInfoView, b: ServiceInfoView, c: ServiceInfoView)
    requires
        listed_before(a, b),
        listed_before(b, c),
    ensures
        listed_before(a, c),
{
    if a.state.rank() == b.state.rank() && b.state.rank() == c.state.rank() {
        crate::lexical::lemma_lex_transitive(a.display_name, b.display_name, c.display_name);
    }
}

/// A listing is in order.
pub proof fn lemma_listing_in_order(s: Seq<ServiceInfoView>)
    ensures
        in_listing_order(listing(s)),
        listing(s).len() == s.len(),
    decreases s.len(),
{
    if s.len() > 0 {
        lemma_listing_in_order(s.drop_last());
        let before = listing(s.drop_last());
        let x = s.last();
        lemma_slot_from(before, x, 0);
        let p = slot_from(before, x, 0);
        let out = before.insert(p, x);
        assert forall|i: int, j: int| 0 <= i < j < out.len() implies !listed_before(
            #[trigger] out[j],
            #[trigger] out[i],
        ) by {
            if i == p {
                let y = before[j - 1];
                assert(out[j] == y);
                if listed_before(y, x) {
                    lemma_listed_before_transitive(y, x, before[p]);
                    assert(!listed_before(before[j - 1], before[p]) || j - 1 == p);
                    if j - 1 == p {
                        lemma_listed_before_transitive(y, x, y);
                        lemma_not_before_itself(y);
                    }
                }
            } else if j == p {
                assert(out[i] == before[i]);
            } else {
                let a = if i < p {
                    i
                } else {
                    i - 1
                };
                let b = if j < p {
                    j
                } else {
                    j - 1
                };
                assert(out[i] == before[a] && out[j] == before[b]);
            }
        }
    }
}

/// No service is listed before itself.
pub proof fn lemma_not_before_itself(a: ServiceInfoView)
    ensures
        !listed_before(a, a),
{
    crate::lexical::lemma_lex_irreflexive(a.display_name);
}

/// Whether `a` is listed before `b`.
pub fn is_listed_before(a: &ServiceInfo, b: &ServiceInfo) -> (r: bool)
    ensures
        r == listed_before(a@, b@),
{
    let x = a.state.listing_rank();
    let y = b.state.listing_rank();
    if x < y {
        true
    } else if x > y {
        false
    } else {
        let m = chars_of(a.display_name.as_str());
        let n = chars_of(b.display_name.as_str());
        crate::lexical::chars_lt(&m, &n)
    }
}

/// The services in the order of a listing: running first, then failed,
/// stopped and unknown, those of one state by display name.
pub fn sort_services(services: &Vec<ServiceInfo>) -> (r: Vec<ServiceInfo>)
    ensures
        service_views(r@) == listing(service_views(services@)),
        in_listing_order(service_views(r@)),
{
    let ghost all = service_views(services@);
    let mut out: Vec<ServiceInfo> = Vec::new();
    let mut i: usize = 0;
    assert(all.take(0) =~= Seq::empty());
    assert(service_views(out@) =~= Seq::empty());
    while i < services.len()
        invariant
            i <= services.len(),
            all == service_views(services@),
            service_views(out@) == listing(all.take(i as int)),
        decreases services.len() - i,
    {
        proof {
            assert(all.take(i + 1).drop_last() =~= all.take(i as int));
            assert(all.take(i + 1).last() == services@[i as int]@);
        }
        let x = &services[i];
        let ghost before = service_views(out@);
        let mut p: usize = 0;
        while p < out.len() && !is_listed_before(x, &out[p])
            invariant
                p <= out.len(),
                before == service_views(out@),
                slot_from(before, x@, 0) == slot_from(before, x@, p as int),
            decreases out.len() - p,
        {
            assert(before[p as int] == out@[p as int]@);
            p += 1;
        }
        assert(p < out.len() ==> before[p as int] == out@[p as int]@);
        out.insert(p, x.clone());
        assert(service_views(out@) =~= before.insert(p as int, x@));
        i += 1;
    }
    proof {
        assert(all.take(services@.len() as int) =~= all);
        lemma_listing_in_order(all);
    }
    out
}

} // verus!

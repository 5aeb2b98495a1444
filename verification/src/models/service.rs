//! Firewall service model.

use vstd::prelude::*;
use crate::numeric::{decimal, decimal_chars};
use crate::text::{owned, push_char, push_chars, push_str, str_eq};

verus! {

/// A firewall service definition.
#[derive(Debug)]
pub struct Service {
    pub name: String,
    pub description: String,
    /// Pairs of port and protocol.
    pub ports: Vec<(String, String)>,
    pub is_enabled: bool,
}

/// What a `Service` holds, as plain values.
pub struct ServiceView {
    pub name: Seq<char>,
    pub description: Seq<char>,
    pub ports: Seq<(Seq<char>, Seq<char>)>,
    pub is_enabled: bool,
}

/// What a sequence of port and protocol pairs holds.
pub open spec fn pair_texts(pairs: Seq<(String, String)>) -> Seq<(Seq<char>, Seq<char>)> {
    Seq::new(pairs.len(), |i: int| (pairs[i].0@, pairs[i].1@))
}

impl View for Service {
    type V = ServiceView;

    open spec fn view(&self) -> ServiceView {
        ServiceView {
            name: self.name@,
            description: self.description@,
            ports: pair_texts(self.ports@),
            is_enabled: self.is_enabled,
        }
    }
}

/// The risk of running a service of the given name.
pub open spec fn service_risk(name: Seq<char>) -> Seq<char> {
    if name == "ssh"@ || name == "cockpit"@ || name == "vnc-server"@ {
        "medium"@
    } else if name == "ftp"@ || name == "telnet"@ || name == "rsh"@ || name == "rlogin"@ {
        "high"@
    } else {
        "low"@
    }
}

/// What a service of the given name does.
pub open spec fn service_purpose(name: Seq<char>) -> Seq<char> {
    if name == "ssh"@ {
        "Secure Shell remote access"@
    } else if name == "http"@ {
        "Web server (unencrypted)"@
    } else if name == "https"@ {
        "Web server (encrypted)"@
    } else if name == "dns"@ {
        "Domain Name System"@
    } else if name == "dhcp"@ {
        "Dynamic Host Configuration Protocol"@
    } else if name == "ftp"@ {
        "File Transfer Protocol"@
    } else if name == "smtp"@ {
        "Email sending"@
    } else if name == "imap"@ || name == "imaps"@ {
        "Email retrieval"@
    } else if name == "samba"@ {
        "Windows file sharing"@
    } else if name == "nfs"@ {
        "Network File System"@
    } else if name == "cockpit"@ {
        "Web-based server management"@
    } else {
        "Network service"@
    }
}

/// The description of a service: its own if it has one, else what a service
/// of its name does.
pub open spec fn described(s: ServiceView) -> Seq<char> {
    if s.description.len() > 0 {
        s.description
    } else {
        service_purpose(s.name)
    }
}

/// The first `n` pairs as `port/protocol`, separated by a comma and a
/// space.
pub open spec fn listed(pairs: Seq<(Seq<char>, Seq<char>)>, n: int) -> Seq<char>
    decreases n,
{
    if n <= 0 || n > pairs.len() {
        Seq::empty()
    } else if n == 1 {
        pairs[0].0 + seq!['/'] + pairs[0].1
    } else {
        listed(pairs, n - 1) + ", "@ + pairs[n - 1].0 + seq!['/'] + pairs[n - 1].1
    }
}

/// The summary of a service's ports: the first three, and the number of
/// those left out after ` +`.
pub open spec fn summary(pairs: Seq<(Seq<char>, Seq<char>)>) -> Seq<char> {
    if pairs.len() > 3 {
        listed(pairs, 3) + " +"@ + decimal((pairs.len() - 3) as nat)
    } else {
        listed(pairs, pairs.len() as int)
    }
}

impl Clone for Service {
    fn clone(&self) -> (r: Self)
        ensures
            r@ == self@,
    {
        let mut ports: Vec<(String, String)> = Vec::new();
        let mut i: usize = 0;
        while i < self.ports.len()
            invariant
                i <= self.ports.len(),
                ports.len() == i,
                forall|k: int|
                    0 <= k < i ==> ports@[k].0@ == self.ports@[k].0@ && ports@[k].1@
                        == self.ports@[k].1@,
            decreases self.ports.len() - i,
        {
            ports.push((self.ports[i].0.clone(), self.ports[i].1.clone()));
            i += 1;
        }
        assert(pair_texts(ports@) =~= pair_texts(self.ports@));
        Service {
            name: self.name.clone(),
            description: self.description.clone(),
            ports,
            is_enabled: self.is_enabled,
        }
    }
}

impl Default for Service {
    fn default() -> (r: Self)
        ensures
            r@ == (ServiceView {
                name: Seq::empty(),
                description: Seq::empty(),
                ports: Seq::empty(),
                is_enabled: false,
            }),
    {
        proof {
            reveal_strlit("");
            assert(""@ =~= Seq::<char>::empty());
        }
        Service::new("")
    }
}

impl Service {
    /// Create a new service.
    pub fn new(name: &str) -> (r: Self)
        ensures
            r@ == (ServiceView {
                name: name@,
                description: Seq::empty(),
                ports: Seq::empty(),
                is_enabled: false,
            }),
    {
        let r = Service {
            name: owned(name),
            description: String::new(),
            ports: Vec::new(),
            is_enabled: false,
        };
        assert(pair_texts(r.ports@) =~= Seq::empty());
        r
    }

    /// Get the risk level of the service.
    pub fn risk_level(&self) -> (r: &'static str)
        ensures
            r@ == service_risk(self.name@),
    {
        let name = self.name.as_str();
        if str_eq(name, "ssh") || str_eq(name, "cockpit") || str_eq(name, "vnc-server") {
            "medium"
        } else if str_eq(name, "ftp") || str_eq(name, "telnet") || str_eq(name, "rsh") || str_eq(
            name,
            "rlogin",
        ) {
            "high"
        } else {
            "low"
        }
    }

    /// Get a human-readable description.
    pub fn human_description(&self) -> (r: &str)
        ensures
            r@ == described(self@),
    {
        let name = self.name.as_str();
        if !self.description.as_str().is_empty() {
            self.description.as_str()
        } else if str_eq(name, "ssh") {
            "Secure Shell remote access"
        } else if str_eq(name, "http") {
            "Web server (unencrypted)"
        } else if str_eq(name, "https") {
            "Web server (encrypted)"
        } else if str_eq(name, "dns") {
            "Domain Name System"
        } else if str_eq(name, "dhcp") {
            "Dynamic Host Configuration Protocol"
        } else if str_eq(name, "ftp") {
            "File Transfer Protocol"
        } else if str_eq(name, "smtp") {
            "Email sending"
        } else if str_eq(name, "imap") || str_eq(name, "imaps") {
            "Email retrieval"
        } else if str_eq(name, "samba") {
            "Windows file sharing"
        } else if str_eq(name, "nfs") {
            "Network File System"
        } else if str_eq(name, "cockpit") {
            "Web-based server management"
        } else {
            "Network service"
        }
    }

    /// Get a summary of the ports used by this service.
    pub fn ports_summary(&self) -> (r: String)
        ensures
            r@ == summary(self@.ports),
    {
        let total = self.ports.len();
        let shown: usize = if total > 3 {
            3
        } else {
            total
        };
        let ghost pairs = self@.ports;
        let mut r = String::new();
        let mut i: usize = 0;
        while i < shown
            invariant
                i <= shown <= self.ports.len(),
                pairs == pair_texts(self.ports@),
                r@ == listed(pairs, i as int),
            decreases shown - i,
        {
            if i > 0 {
                push_str(&mut r, ", ");
            }
            push_str(&mut r, self.ports[i].0.as_str());
            push_char(&mut r, '/');
            push_str(&mut r, self.ports[i].1.as_str());
            assert(r@ =~= listed(pairs, i + 1));
            i += 1;
        }
        if total > 3 {
            push_str(&mut r, " +");
            let digits = decimal_chars((total - 3) as u64);
            push_chars(&mut r, &digits);
        }
        r
    }
}

} // verus!

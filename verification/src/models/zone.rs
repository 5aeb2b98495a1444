//! Firewall zone model.

use vstd::prelude::*;
use crate::text::{clone_texts, owned, str_eq, texts};

verus! {

/// A firewall zone.
#[derive(Debug)]
pub struct Zone {
    pub name: String,
    pub description: String,
    pub target: String,
    pub is_active: bool,
    pub is_default: bool,
    pub services: Vec<String>,
    pub ports: Vec<String>,
    pub interfaces: Vec<String>,
    pub sources: Vec<String>,
    pub rich_rules: Vec<String>,
    pub masquerade: bool,
    pub forward: bool,
}

/// What a `Zone` holds, as plain values.
pub struct ZoneView {
    pub name: Seq<char>,
    pub description: Seq<char>,
    pub target: Seq<char>,
    pub is_active: bool,
    pub is_default: bool,
    pub services: Seq<Seq<char>>,
    pub ports: Seq<Seq<char>>,
    pub interfaces: Seq<Seq<char>>,
    pub sources: Seq<Seq<char>>,
    pub rich_rules: Seq<Seq<char>>,
    pub masquerade: bool,
    pub forward: bool,
}

impl View for Zone {
    type V = ZoneView;

    open spec fn view(&self) -> ZoneView {
        ZoneView {
            name: self.name@,
            description: self.description@,
            target: self.target@,
            is_active: self.is_active,
            is_default: self.is_default,
            services: texts(self.services@),
            ports: texts(self.ports@),
            interfaces: texts(self.interfaces@),
            sources: texts(self.sources@),
            rich_rules: texts(self.rich_rules@),
            masquerade: self.masquerade,
            forward: self.forward,
        }
    }
}

/// A zone of the given name with nothing else set.
pub open spec fn empty_zone(name: Seq<char>) -> ZoneView {
    ZoneView {
        name,
        description: Seq::empty(),
        target: Seq::empty(),
        is_active: false,
        is_default: false,
        services: Seq::empty(),
        ports: Seq::empty(),
        interfaces: Seq::empty(),
        sources: Seq::empty(),
        rich_rules: Seq::empty(),
        masquerade: false,
        forward: false,
    }
}

/// The trust level of a zone by its name, from 0 for `drop` to 8 for
/// `trusted`; 5 for a zone of another name.
pub open spec fn zone_trust(name: Seq<char>) -> int {
    if name == "drop"@ {
        0
    } else if name == "block"@ {
        1
    } else if name == "public"@ {
        2
    } else if name == "external"@ {
        3
    } else if name == "dmz"@ {
        4
    } else if name == "work"@ {
        5
    } else if name == "home"@ {
        6
    } else if name == "internal"@ {
        7
    } else if name == "trusted"@ {
        8
    } else {
        5
    }
}

/// What a zone of the given name is for.
pub open spec fn zone_purpose(name: Seq<char>) -> Seq<char> {
    if name == "drop"@ {
        "Drops all incoming connections silently"@
    } else if name == "block"@ {
        "Rejects incoming connections with ICMP messages"@
    } else if name == "public"@ {
        "For use in public areas, only selected services allowed"@
    } else if name == "external"@ {
        "For external networks with masquerading"@
    } else if name == "dmz"@ {
        "Demilitarized zone for publicly accessible services"@
    } else if name == "work"@ {
        "For work environment, trusts most computers"@
    } else if name == "home"@ {
        "For home use, trusts other computers"@
    } else if name == "internal"@ {
        "For internal networks, high trust level"@
    } else if name == "trusted"@ {
        "All connections are accepted"@
    } else {
        "Custom zone"@
    }
}

impl Clone for Zone {
    fn clone(&self) -> (r: Self)
        ensures
            r@ == self@,
    {
        Zone {
            name: self.name.clone(),
            description: self.description.clone(),
            target: self.target.clone(),
            is_active: self.is_active,
            is_default: self.is_default,
            services: clone_texts(&self.services),
            ports: clone_texts(&self.ports),
            interfaces: clone_texts(&self.interfaces),
            sources: clone_texts(&self.sources),
            rich_rules: clone_texts(&self.rich_rules),
            masquerade: self.masquerade,
            forward: self.forward,
        }
    }
}

impl Default for Zone {
    fn default() -> (r: Self)
        ensures
            r@ == empty_zone(Seq::empty()),
    {
        proof {
            reveal_strlit("");
            assert(""@ =~= Seq::<char>::empty());
        }
        Zone::new("")
    }
}

impl Zone {
    /// Create a new zone.
    pub fn new(name: &str) -> (r: Self)
        ensures
            r@ == empty_zone(name@),
    {
        let r = Zone {
            name: owned(name),
            description: String::new(),
            target: String::new(),
            is_active: false,
            is_default: false,
            services: Vec::new(),
            ports: Vec::new(),
            interfaces: Vec::new(),
            sources: Vec::new(),
            rich_rules: Vec::new(),
            masquerade: false,
            forward: false,
        };
        assert(texts(Seq::<String>::empty()) =~= Seq::<Seq<char>>::empty());
        r
    }

    /// Get the trust level of the zone (for sorting/display).
    pub fn trust_level(&self) -> (r: i32)
        ensures
            r == zone_trust(self.name@),
    {
        let name = self.name.as_str();
        if str_eq(name, "drop") {
            0
        } else if str_eq(name, "block") {
            1
        } else if str_eq(name, "public") {
            2
        } else if str_eq(name, "external") {
            3
        } else if str_eq(name, "dmz") {
            4
        } else if str_eq(name, "work") {
            5
        } else if str_eq(name, "home") {
            6
        } else if str_eq(name, "internal") {
            7
        } else if str_eq(name, "trusted") {
            8
        } else {
            5
        }
    }

    /// Get a human-readable description of the zone's purpose.
    pub fn purpose(&self) -> (r: &'static str)
        ensures
            r@ == zone_purpose(self.name@),
    {
        let name = self.name.as_str();
        if str_eq(name, "drop") {
            "Drops all incoming connections silently"
        } else if str_eq(name, "block") {
            "Rejects incoming connections with ICMP messages"
        } else if str_eq(name, "public") {
            "For use in public areas, only selected services allowed"
        } else if str_eq(name, "external") {
            "For external networks with masquerading"
        } else if str_eq(name, "dmz") {
            "Demilitarized zone for publicly accessible services"
        } else if str_eq(name, "work") {
            "For work environment, trusts most computers"
        } else if str_eq(name, "home") {
            "For home use, trusts other computers"
        } else if str_eq(name, "internal") {
            "For internal networks, high trust level"
        } else if str_eq(name, "trusted") {
            "All connections are accepted"
        } else {
            "Custom zone"
        }
    }
}

} // verus!

//! Network interface model.

use vstd::prelude::*;
use crate::text::{owned, starts_with, str_eq, str_starts_with};

verus! {

/// A network interface.
#[derive(Debug)]
pub struct Interface {
    pub name: String,
    pub zone: String,
    pub is_active: bool,
}

/// What an `Interface` holds, as plain values.
pub struct InterfaceView {
    pub name: Seq<char>,
    pub zone: Seq<char>,
    pub is_active: bool,
}

impl View for Interface {
    type V = InterfaceView;

    open spec fn view(&self) -> InterfaceView {
        InterfaceView { name: self.name@, zone: self.zone@, is_active: self.is_active }
    }
}

/// The kind of an interface, told by how its name begins.
pub open spec fn interface_kind(name: Seq<char>) -> Seq<char> {
    if starts_with(name, "eth"@) || starts_with(name, "en"@) {
        "Ethernet"@
    } else if starts_with(name, "wl"@) || starts_with(name, "wlan"@) {
        "Wireless"@
    } else if starts_with(name, "br"@) {
        "Bridge"@
    } else if starts_with(name, "veth"@) || starts_with(name, "docker"@) {
        "Virtual (Container)"@
    } else if starts_with(name, "virbr"@) {
        "Virtual (Libvirt)"@
    } else if starts_with(name, "tun"@) || starts_with(name, "tap"@) {
        "Tunnel"@
    } else if name == "lo"@ {
        "Loopback"@
    } else {
        "Unknown"@
    }
}

impl Clone for Interface {
    fn clone(&self) -> (r: Self)
        ensures
            r@ == self@,
    {
        Interface {
            name: self.name.clone(),
            zone: self.zone.clone(),
            is_active: self.is_active,
        }
    }
}

impl Default for Interface {
    fn default() -> (r: Self)
        ensures
            r@ == (InterfaceView { name: Seq::empty(), zone: Seq::empty(), is_active: false }),
    {
        Interface { name: String::new(), zone: String::new(), is_active: false }
    }
}

impl Interface {
    /// Create a new interface.
    pub fn new(name: &str) -> (r: Self)
        ensures
            r@ == (InterfaceView { name: name@, zone: Seq::empty(), is_active: false }),
    {
        Interface { name: owned(name), zone: String::new(), is_active: false }
    }

    /// Get a human-readable type for the interface.
    pub fn interface_type(&self) -> (r: &'static str)
        ensures
            r@ == interface_kind(self.name@),
    {
        let name = self.name.as_str();
        if str_starts_with(name, "eth") || str_starts_with(name, "en") {
            "Ethernet"
        } else if str_starts_with(name, "wl") || str_starts_with(name, "wlan") {
            "Wireless"
        } else if str_starts_with(name, "br") {
            "Bridge"
        } else if str_starts_with(name, "veth") || str_starts_with(name, "docker") {
            "Virtual (Container)"
        } else if str_starts_with(name, "virbr") {
            "Virtual (Libvirt)"
        } else if str_starts_with(name, "tun") || str_starts_with(name, "tap") {
            "Tunnel"
        } else if str_eq(name, "lo") {
            "Loopback"
        } else {
            "Unknown"
        }
    }
}

} // verus!

//! Names of the firewall service, and what its answers are made into.

pub mod client;
pub mod interfaces;
pub mod paths;

use vstd::prelude::*;
use crate::text::str_eq;

pub use client::FirewallEvent;

verus! {

/// D-Bus bus name for firewalld.
pub const BUS_NAME: &'static str = "org.fedoraproject.FirewallD1";

/// The description of a zone of the given name.
pub open spec fn zone_description_text(name: Seq<char>) -> Seq<char> {
    if name == "drop"@ {
        "Drops all incoming network packets with no reply. Only outgoing connections are possible."@
    } else if name == "block"@ {
        "Incoming connections are rejected with an icmp-host-prohibited message. Only outgoing connections are possible."@
    } else if name == "public"@ {
        "For use in public areas. You do not trust other computers. Only selected connections are accepted."@
    } else if name == "external"@ {
        "For use on external networks with masquerading enabled. Only selected connections are accepted."@
    } else if name == "dmz"@ {
        "For computers in your demilitarized zone that are publicly accessible. Only selected connections are accepted."@
    } else if name == "work"@ {
        "For use in work areas. You mostly trust other computers. Only selected connections are accepted."@
    } else if name == "home"@ {
        "For use at home. You mostly trust other computers. Only selected connections are accepted."@
    } else if name == "internal"@ {
        "For use on internal networks. You mostly trust other computers. Only selected connections are accepted."@
    } else if name == "trusted"@ {
        "All network connections are accepted."@
    } else {
        "Custom zone"@
    }
}

/// Get a description for a zone name.
pub fn zone_description(name: &str) -> (r: &'static str)
    ensures
        r@ == zone_description_text(name@),
{
    if str_eq(name, "drop") {
        "Drops all incoming network packets with no reply. Only outgoing connections are possible."
    } else if str_eq(name, "block") {
        "Incoming connections are rejected with an icmp-host-prohibited message. Only outgoing connections are possible."
    } else if str_eq(name, "public") {
        "For use in public areas. You do not trust other computers. Only selected connections are accepted."
    } else if str_eq(name, "external") {
        "For use on external networks with masquerading enabled. Only selected connections are accepted."
    } else if str_eq(name, "dmz") {
        "For computers in your demilitarized zone that are publicly accessible. Only selected connections are accepted."
    } else if str_eq(name, "work") {
        "For use in work areas. You mostly trust other computers. Only selected connections are accepted."
    } else if str_eq(name, "home") {
        "For use at home. You mostly trust other computers. Only selected connections are accepted."
    } else if str_eq(name, "internal") {
        "For use on internal networks. You mostly trust other computers. Only selected connections are accepted."
    } else if str_eq(name, "trusted") {
        "All network connections are accepted."
    } else {
        "Custom zone"
    }
}

} // verus!

//! D-Bus object paths of firewalld.

use vstd::prelude::*;

verus! {

/// The object that answers for the running firewall.
pub const ROOT: &'static str = "/org/fedoraproject/FirewallD1";

/// The object that answers for the permanent configuration.
pub const CONFIG: &'static str = "/org/fedoraproject/FirewallD1/config";

} // verus!

//! D-Bus interface names of firewalld.

use vstd::prelude::*;

verus! {

/// Main firewalld interface (default zone, reload, panic mode).
pub const MAIN: &'static str = "org.fedoraproject.FirewallD1";

/// Zone interface (zone-specific operations).
pub const ZONE: &'static str = "org.fedoraproject.FirewallD1.zone";

/// Configuration interface (permanent settings).
pub const CONFIG: &'static str = "org.fedoraproject.FirewallD1.config";

/// Interface of a zone's permanent configuration.
pub const CONFIG_ZONE: &'static str = "org.fedoraproject.FirewallD1.config.zone";

/// The standard properties interface.
pub const PROPERTIES: &'static str = "org.freedesktop.DBus.Properties";

} // verus!

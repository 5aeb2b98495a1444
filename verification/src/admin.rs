//! Inspection of the host: listening sockets, the processes that own them,
//! and how the firewall treats them; and the administrative actions.

pub mod actions;
pub mod assembly;
pub mod correlate;
pub mod decode;
pub mod exposure;
pub mod network;
pub mod process;
pub mod scanner;

pub use actions::{quick_actions, ActionCategory, AdminAction, AdminActionResult};
pub use assembly::assemble;
pub use correlate::update_firewall_status;
pub use decode::{parse_ipv4_hex, parse_ipv6_hex, parse_port_hex, IpAddress};
pub use exposure::{NetworkExposure, ScanError, SocketTables};
pub use network::{get_service_name, FirewallStatus, ListeningEndpoint, Protocol};
pub use process::{parse_pid, parse_socket_link, ProcessRecord};
pub use scanner::{parse_proc_net, parse_proc_net_line};

//! Data models for firewall entities.

pub mod consolidated_port;
pub mod consolidation_laws;
pub mod interface;
pub mod port;
pub mod service;
pub mod zone;

pub use consolidated_port::ConsolidatedPort;
pub use interface::Interface;
pub use port::Port;
pub use service::Service;
pub use zone::Zone;

//! Network exposure inspection and firewall correlation for a Linux host.

pub mod admin;
pub mod autostart;
pub mod casing;
pub mod config;
pub mod firewall;
pub mod lexical;
pub mod models;
pub mod numeric;
pub mod port_edit;
pub mod rich_rule;
pub mod split;
pub mod stats;
pub mod storage;
pub mod summary;
pub mod systemd;
pub mod text;
pub mod version_check;

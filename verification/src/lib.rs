//! Core of a tunnel process supervisor: the configuration serializer, the
//! tunnel state machine with its publish discipline, the status-menu model,
//! and the small decision functions around launching, stopping and
//! installing the external VPN client process.

pub mod config;
pub mod installer;
pub mod launch;
pub mod menu;
pub mod state;
pub mod text;
pub mod tunnel;

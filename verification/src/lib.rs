//! Bluetooth SPP to PTY session bridge: configuration, session bookkeeping,
//! command rendering and forwarding decisions, with verified contracts.

pub mod text;
pub mod config;
pub mod session;
pub mod bluez;
pub mod app;

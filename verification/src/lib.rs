//! Verified core of a lightweight per-process bandwidth monitor.

pub mod capture;
pub mod cli;
pub mod clock;
pub mod config;
pub mod demo;
pub mod dns;
pub mod net;
pub mod paths;
pub mod store;
pub mod text;

//! A Linux memory watchdog: configuration, `/proc` parsing, target choice,
//! the termination sequence and the monitoring steps, each with a contract.
pub mod text;
pub mod config;
pub mod sysinfo;
pub mod process;
pub mod notifier;
pub mod terminator;
pub mod watchdog;

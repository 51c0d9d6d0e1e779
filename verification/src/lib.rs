//! A process-integrity enforcer: one executable, identified by its path and
//! the fingerprint of its content, is the only trusted identity; every other
//! running process whose executable does not match it is terminated.
//!
//! The library holds the decisions. Reading files, listing processes,
//! sending signals and sleeping are left to the program around it.

pub mod views;
pub mod hexcode;
pub mod fingerprint;
pub mod signature;
pub mod notice;
pub mod identity;
pub mod config;
pub mod audit;
pub mod engine;
pub mod cycle;

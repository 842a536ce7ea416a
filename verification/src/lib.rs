//! Control surface of a Lightning node operator tool: the decisions behind
//! the operator commands, stated and proved.
//!
//! The crate decides what to ask the Lightning engine to do and keeps the
//! ledger of payment attempts. It performs no I/O itself: callers hand in
//! plain values, carry out the actions it returns and report the outcomes.

pub mod bindings;
pub mod close_channel;
pub mod command;
pub mod decimal;
pub mod dispatch;
pub mod hex_utils;
pub mod invoice;
pub mod ledger;
pub mod open_channel;
pub mod payment;
pub mod peer;
pub mod report;
pub mod wire;
pub mod wire_read;
pub mod words;

//! Core of a device-event polling client: normalizes raw SMS, call-log,
//! battery and SIM readings, derives stable identifiers for discrete events,
//! tracks which identifiers were already reported in a dedup store, detects
//! battery/SIM state transitions, and decides which notifications one poll
//! cycle emits under a cooperative shutdown protocol.

pub mod battery;
pub mod config;
pub mod call_log;
pub mod device_info;
pub mod dispatch;
pub mod engine;
pub mod fault;
pub mod identify;
pub mod numfmt;
pub mod sms;
pub mod store;
pub mod timeparse;

//! Wire protocol, sensor validation and fusion, moisture sensing and
//! desired-state reconciliation for a two-node garden control network: a
//! field unit that senses and drives a pump and a valve, and a base station
//! that relays its radio link to operators.

pub mod flags;
pub mod readings;
pub mod environment;
pub mod protocol;
pub mod codec;
pub mod moisture;
pub mod field;
pub mod base;
pub mod ceiling;
pub mod fusion;
pub mod panel;

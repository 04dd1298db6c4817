//! Bringing a wireless station interface up without blocking forever.
//!
//! The crate holds the decisions of a station connection manager: which
//! credentials are acceptable, how often a condition is probed before giving
//! up, and in which order the radio controller and the network interface are
//! driven. It performs no hardware access itself. The caller carries out each
//! command on its driver and reports the answer back as an event.

pub mod bring_up;
pub mod credentials;
pub mod error;
pub mod handler;
pub mod poll;

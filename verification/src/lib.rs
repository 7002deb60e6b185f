//! A verified core for a UDP time beacon.
//!
//! The library covers the two pure parts of the beacon: resolving startup
//! arguments into a validated configuration, and deciding, from a clock
//! reading, what each iteration of the broadcast loop does and which
//! 8-byte payload it transmits.

pub mod beacon;
pub mod codec;
pub mod config;
pub mod ip;
pub mod text;

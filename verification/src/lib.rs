//! Core logic of a dynamic-DNS updater: discovery of the machine's public
//! IPv4 address through an ordered, deduplicated list of provider endpoints,
//! and reconciliation of a remote DNS address record against that address.

pub mod args;
pub mod discovery;
pub mod dns;
pub mod ipv4;
pub mod urls;

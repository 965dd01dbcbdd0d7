//! A dynamic-DNS update agent, verified with Verus.
//!
//! The crate models one hostname kept in sync with the host's current
//! public IPv4 address and routable IPv6 address.  The verified core is
//! the change-detection and update state machine: resolving candidate
//! addresses, comparing them with the last confirmed values, building
//! the provider request, interpreting the provider response, and
//! committing new values only on confirmed success.  Network and file
//! I/O happen outside the library; the library receives plain values
//! (the response status and body, the bytes of a cache file, the
//! addresses of an interface) and decides everything about them.

pub mod addr;
pub mod api;
pub mod config;
pub mod dyndns;
pub mod error;
pub mod requests;
pub mod text;
pub mod update;
pub mod util;

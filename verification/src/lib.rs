//! Keep a DNS "A" record in step with the IPv4 address bound to one named
//! network interface.
//!
//! The crate holds the verified core of a dynamic-DNS daemon: the decoder
//! that turns kernel interface-address notifications into a filtered event
//! sequence, the classifier behind the one-shot interface address query, and
//! the reconciliation state machine that decides exactly when the published
//! record must be created or updated. Socket, HTTP and configuration-file
//! plumbing live outside the library and hand it plain values.

pub mod addr;
pub mod config;
pub mod gandi;
pub mod netlink;
pub mod reconcile;

pub use addr::Ipv4Address;

//! Leasing of pod subnets out of a cluster network, with the leases kept in an
//! etcd-compatible key-value store.
//!
//! The crate holds the decisions: which subnet a node takes, which requests go to
//! the store and in which order, how the answers are read, and how a watch on the
//! leases proceeds. The program around it performs the requests and hands the
//! answers back.
pub mod allocate;
pub mod config;
pub mod cursor;
pub mod error;
pub mod ip;
pub mod lease;
pub mod manager;
pub mod registry;
pub mod text;
pub mod time;
pub mod watch;
pub mod laws;

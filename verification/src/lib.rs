//! Tracking of TCP conversations seen on the wire, relative to one local host.
//!
//! Every datagram is resolved to a flow identity that is the same for both
//! directions of a conversation, and the per-flow state (byte totals, last
//! sequence and acknowledgment numbers, SYN counters) is kept in a flow table.
//!
//! - `address`, `datagram`, `flow`, `connection`: the records and how one
//!   datagram changes the state of its flow.
//! - `entries`, `tcp_db`, `bounded`: the flow table, as a mathematical object
//!   and as the data structure that implements it, without and with a limit
//!   on its size.
//! - `processor`: one step of ingestion.
//! - `tcpdb`, `store_model`: the same table kept in a network-attached
//!   key-value store, and a model of that store.
//! - `laws`: what holds over whole runs of operations.
//! - `wire`, `discovery`, `ip_info`, `text`: decoding, finding the local
//!   address, lookups, and plain text helpers.

pub mod address;
pub mod bounded;
pub mod connection;
pub mod datagram;
pub mod discovery;
pub mod entries;
pub mod flow;
pub mod ip_info;
pub mod laws;
pub mod processor;
pub mod store_model;
pub mod tcp_db;
pub mod tcpdb;
pub mod text;
pub mod wire;

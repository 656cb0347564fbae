//! A peer-to-peer marketplace node's network core.
//!
//! The network actor is the single owner of the overlay state: every command
//! and every transport event goes through [`actor::EventLoop`], which decides
//! what the transport is asked to do and which waiting caller is answered.
//! The transport itself (sockets, the Kademlia DHT) is driven by the host
//! program; this crate holds the decisions and proves them.
pub mod actor;
pub mod bytes;
pub mod distance;
pub mod node;
pub mod pending;
pub mod record;
pub mod message;
pub mod profile;
pub mod laws;

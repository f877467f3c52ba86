//! Peer replication core for a Dat-style append-only log.
//!
//! Two peers that hold partial copies of the same log exchange availability
//! information and block requests over a multiplexed channel. This crate holds
//! the per-channel session: the handlers are functions from the session's state
//! and an inbound message to the next state and the messages to send, and the
//! surrounding program performs the sending and the storage access.

pub mod audit;
pub mod client;
pub mod error;
pub mod handshake;
pub mod message;
pub mod remote;
pub mod rle;
pub mod session;
pub mod storage;

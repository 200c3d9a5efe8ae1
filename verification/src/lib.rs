//! Inter-peer command protocol of a decentralized backup swarm.
//!
//! Peers exchange commands over a reliable transport. Time is a count of
//! milliseconds handed in by the caller; a command's ttl is the number of
//! milliseconds it stays valid, counted from the moment it is issued or
//! received. Command ids are allocated from a per-session counter.
//!
//! Beside the protocol stand what the processes around it decide: the report
//! of the monitoring process on its configuration, and the answers of the
//! filesystem surface that presents backed-up content.

pub mod command;
pub mod codec;
pub mod pending;
pub mod dispatch;
pub mod session;
pub mod registry;
pub mod text;
pub mod config;
pub mod watched_fs;

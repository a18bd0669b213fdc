//! The decision logic of a small cluster-membership node: the cluster
//! table and its synchronisation rules, command-line handling, the leader
//! heartbeat watch, and the text helpers they rely on.
pub mod outside;
pub mod text;
pub mod config;
pub mod cluster;
pub mod sync;
pub mod state;
pub mod utils;
pub mod command;
pub mod raft;
pub mod server;

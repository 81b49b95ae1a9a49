//! Request routing and node orchestration for a coordinator of managed nodes.
//!
//! The library holds the decisions of the coordinator: which requests are
//! served locally and which are forwarded, how a node is admitted into the
//! configuration, what arguments a node process is started with, how the
//! status of a node is assembled from its resource registry, and the text
//! form in which the configuration is stored and read back.

pub mod text;
pub mod transport;
pub mod resources;
pub mod identity;
pub mod base;
pub mod api;
pub mod config;
pub mod overseer;
pub mod lifecycle;
pub mod registry;
pub mod node_manager;
pub mod cli;
pub mod store;

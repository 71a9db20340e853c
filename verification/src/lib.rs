//! Verified core of a small UDP cluster: servers that share load, elect a
//! server to take down by a ring election, and clients whose middleware
//! spreads requests over the servers round robin.

pub mod config;
pub mod text;
pub mod message;
pub mod election;
pub mod states;
pub mod server;
pub mod server_log;
pub mod client;
pub mod stats;
pub mod middleware;
mod environment;

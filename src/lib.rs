//! Non-blocking JSON-RPC 2.0 transport over TCP, as a verified core.
//!
//! The core never touches a socket. Each type carries its socket as an
//! opaque value and tells its driver what to do next: write the queued
//! bytes, re-register readiness interest, release the socket. The driver
//! performs that work on a readiness reactor and reports the outcome back.
pub mod client;
pub mod connection;
pub mod node;
pub mod protocol;
pub mod server;

pub use client::RpcClient;
pub use connection::{Connection, ConnectionState};
pub use node::PeerId;
pub use server::{From, RpcServer};

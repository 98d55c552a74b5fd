//! Verified core of a WebRTC signaling service: wire frames and their JSON
//! document codec, token extraction, the per-node room registry, the
//! cluster-aware router decisions, and the per-connection handler logic.
//!
//! Everything that touches a socket, the shared store or the clock is left to
//! the caller: the registry and the router return the frames to deliver and
//! the store commands to run, and take the results of store reads as
//! arguments.
pub mod auth;
pub mod cluster;
pub mod codec;
pub mod messages;
pub mod room;
pub mod server;
pub mod wire;

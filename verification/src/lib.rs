//! Tracks the weight that parachain blocks consume and the clients that follow it.
//!
//! Everything here is decided on plain values: what was fetched from a node comes in as an
//! argument, what has to be done next goes out as a value. Talking to nodes, locking and
//! sleeping are left to the caller.

pub mod clients;
pub mod feed;
pub mod in_order;
pub mod query;
pub mod retry;
pub mod subscription;
pub mod text;
pub mod tracker;
pub mod types;
pub mod websocket;
pub mod weights;

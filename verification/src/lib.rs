//! Verified core of a telemetry gateway.
//!
//! The gateway accepts sensor-event messages over two transports — a
//! password-gated TCP socket and a publish/subscribe broker session — and
//! turns each inbound message into an operation against a record store,
//! returning the result over the originating transport.  This crate holds
//! the verified logic of that pipeline: the authentication decision, the
//! message classifier and dispatcher, the record-store semantics, the
//! size-bounded chunked-publish protocol, the broker session state machine,
//! and the cluster read/write selection policy.  The unverifiable edges
//! (sockets, the broker client, the graph database driver) live outside and
//! hand this crate plain values.

pub mod auth;
pub mod chunk;
pub mod cluster;
pub mod dispatch;
pub mod inbound;
pub mod num;
pub mod render;
pub mod session;
pub mod store;
pub mod text;
pub mod topics;

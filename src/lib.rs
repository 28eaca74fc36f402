//! A node of a self-organising broadcast tree: the wire codec, the
//! connection registry, and the topology protocol that keeps the tree
//! connected when a parent disappears.
//!
//! The node itself does no I/O. Each event (a connection accepted, an
//! envelope received, a connection closed, a line typed locally) is handed
//! to [`node::ChatNode`], which updates its state and answers with the
//! actions that the event loop has to perform.
//!
//! - [`wire`]: the envelope, its byte layout, and a reader that frames a
//!   byte stream into envelopes.
//! - [`node`]: the node's state and its reaction to each event.
//! - [`command`]: splitting a locally typed line into command and argument.
//! - [`laws`]: properties of the protocol across steps and states.

pub mod wire;
pub mod node;
pub mod command;
pub mod laws;

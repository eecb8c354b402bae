//! A user-space TCP endpoint core: wraparound-safe sequence-space arithmetic,
//! per-connection protocol state machines, and a connection table that routes
//! each inbound segment to the flow it belongs to.
//!
//! Raw packet I/O with the network device stays outside this crate; header
//! parsing and serialization are done by `etherparse` behind narrow trusted
//! boundaries, and everything the protocol decides is verified here.

pub mod codec;
pub mod conn;
pub mod dispatch;
pub mod segment;
pub mod seq_space;
pub mod table;

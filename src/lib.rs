//! A user-space TCP endpoint over a tunnel device: header codec, connection
//! identity, per-connection state machine, connection table and frame
//! processing, each with its contract.

pub mod checksum;
pub mod codec;
pub mod quad;
pub mod tcp;
pub mod table;
pub mod frame;

//! Core logic of a peer-to-peer messaging layer over QUIC: the framed wire
//! protocol, the decisions of the per-connection stream demultiplexer, the
//! pseudo-bidirectional stream handshake, the connection pool and the retry
//! classification. Everything here is pure: the transport itself is driven by
//! the caller, which feeds events in and performs the actions handed back.

pub mod address;
pub mod connection;
pub mod demux;
pub mod error;
pub mod payload;
pub mod pool;
pub mod pseudo_bi;
pub mod retry;
pub mod stream;
pub mod varint;
pub mod wire_msg;

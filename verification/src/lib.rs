//! Building blocks of a replica-side client for a Redis-compatible master:
//! wire framing, snapshot decoding and the replication session's decisions.

pub mod bytes;
pub mod control;
pub mod handler;
pub mod handshake;
pub mod heartbeat;
pub mod intset;
pub mod listener;
pub mod listpack;
pub mod lzf;
pub mod packed;
pub mod rdb;
pub mod reader;
pub mod resp;
pub mod text;
pub mod vocabulary;
pub mod ziplist;
pub mod zipmap;

//! Client-side core of a live-streaming push protocol: a length-framed binary
//! packet codec with a recursive decompression cascade, the session handshake
//! and pipeline decisions, and the connection lifecycle state machine.

pub mod connector;
pub mod packet;
pub mod room;
pub mod text;

pub use packet::{Auth, Data, DispatchAction, EventParseError, Operation, RawPacket};


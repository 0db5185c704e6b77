//! Hiverra Portal: a peer-to-peer file and directory transfer library.
//!
//! The library holds the verified core of the transfer protocol: the
//! length-prefixed binary framing, the wire codec for every structured
//! message, peer discovery matching, the handshake identity check, the
//! receiver's per-item session state machine, and the sender's stream
//! builder. Network and disk I/O live outside the library and hand it
//! plain values.

use vstd::prelude::*;

pub mod archive;
pub mod codec;
pub mod commands;
pub mod config;
pub mod discovery;
pub mod errors;
pub mod frame;
pub mod handshake;
pub mod metadata;
pub mod receiver;
pub mod sender;
pub mod session;
pub mod text;

verus! {

} // verus!

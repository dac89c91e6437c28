//! Per-venue protocol adapters: the frame grammar, handshake state machines
//! and store-routing rules of each venue's wire protocol.  The network loops
//! that feed them live outside the library.

pub mod bitbank;
pub mod gmo;
pub mod hyperliquid;
pub mod kraken;

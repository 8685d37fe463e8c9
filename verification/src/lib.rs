//! Binary framing codec for a tree-structured network link that moves data
//! in fixed 32-byte frames: a nibble-packed hierarchical address prelude,
//! a two-byte frame-count field, and payload chunking across frames.

pub mod address;
pub mod packet;
pub mod payload;

pub use address::{Address, LocalAddress};
pub use packet::{Frame, Pack, PackError, Packet, Unpack};

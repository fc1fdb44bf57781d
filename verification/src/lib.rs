//! A dynamically-growable, contiguous byte buffer for I/O-facing code.
//!
//! `WaterBuffer` replaces general-purpose allocation with a purpose-built
//! container that grows geometrically to amortize reallocation, supports
//! zero-copy `advance` consumption of a read cursor, and can optionally run
//! as a fixed-capacity ring that silently discards the oldest bytes once
//! full. Every operation carries a contract over the buffer's logical
//! contents, a sequence of bytes, and is verified against it.

pub mod buffer;
pub mod growth;
pub mod iter;
pub mod laws;
pub mod model;
pub mod write;

pub use iter::WaterBufferIter;
pub use iter::WaterBufferIterMut;
pub use iter::WaterBufferOwnedIter;

pub use buffer::BufferMode;
pub use buffer::WaterBuffer;

//! Deterministic byte normalization for hashing.
//!
//! A default `core::hash::Hasher`-style sink sees platform-dependent bytes:
//! multi-byte primitives arrive in native byte order, and platform-width
//! integers arrive at the native word size. The [`DeterministicHasher`]
//! wrapper of this crate intercepts every primitive write, re-encodes the
//! value as little-endian bytes of a fixed width (platform-width integers are
//! widened to 64 bits), and forwards only those canonical bytes to the inner
//! sink. The same logical value therefore contributes the same bytes to the
//! digest on every architecture.

pub mod crc32;
pub mod encoding;
pub mod hasher;
pub mod sink;

pub use crc32::Crc32Sink;
pub use encoding::le_bytes_vec;
pub use hasher::DeterministicHasher;
pub use sink::RecordingSink;
pub use sink::Sink;

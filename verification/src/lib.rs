//! SHA-1 digests of byte sequences, held in memory or streamed from a
//! source of known length.
//!
//! The algorithm is written twice. [`model`] states it as mathematical
//! functions over sequences of bytes: the message schedule, the eighty
//! rounds, the compression of a block, the framing of a message and the
//! digest of the whole. The other modules hold the code that runs, each
//! function with a contract over the model:
//!
//! - [`digest`]: the digest state [`SHA1`], the block compressor, hashing a
//!   message in memory, and rendering in hexadecimal;
//! - [`framing`]: the closing blocks of a message, and the laws of their
//!   length;
//! - [`stream`]: hashing piece by piece, as a state machine that tells its
//!   caller what to read, and the law that this gives the same digest;
//! - [`message`]: the trait [`HashSHA1`] for strings, slices and vectors;
//! - [`bits`] and [`hex`]: word-level helpers.
pub mod bits;
pub mod model;
pub mod digest;
pub mod framing;
pub mod hex;
pub mod message;
pub mod stream;

pub use crate::digest::SHA1;
pub use crate::message::HashSHA1;

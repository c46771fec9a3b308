//! A single-value decoder for a compact, self-describing binary
//! serialization format (MessagePack-style tags).
//!
//! The decoder consumes a contiguous byte buffer and extracts exactly one
//! logical value without copying payload bytes, reporting either success,
//! end of stream, a permanently invalid encoding, or that more bytes are
//! needed before the value can be decoded.

pub mod bytes;
pub mod encode;
pub mod props;
pub mod slice_reader;

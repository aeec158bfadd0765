//! Codec for the wire protocol of an early block-game server: a closed set
//! of message kinds, each introduced by a single identifier byte and followed
//! by a fixed sequence of big-endian fields, with strings carried as
//! length-prefixed UTF-16 code units. Decoding is bounds-checked throughout
//! and reports truncated or malformed input as typed errors; encoding and
//! decoding are proved to be exact inverses, tolerant of trailing bytes.

pub mod error;
pub mod packet;
pub mod session;
pub mod text;
pub mod wire;

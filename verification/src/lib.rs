//! A verified Base64 decoder.
//!
//! The decoder accepts both the standard alphabet (`+`, `/`) and the
//! URL-safe alphabet (`-`, `_`) at once, processes its input in 4-symbol
//! groups of 6-bit values, and repacks them into 3 output bytes per group.
//! Classification of a byte against the alphabet ranges is branch-free,
//! by unsigned wraparound comparison, and the per-range candidate values
//! are merged with bitwise OR; the ranges are mutually exclusive, so the
//! OR selects the one matching candidate.

pub mod alphabet;
pub mod decode;
pub mod encoding;
pub mod pack;

pub use decode::b64_decode;
pub use decode::b64_decode_prune;

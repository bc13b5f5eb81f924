//! Repeating-key XOR obfuscation of UTF-8 text, carried as standard base64.
//!
//! This is obfuscation, not encryption: a repeating-key XOR offers no secrecy
//! against anyone who cares to look.
//!
//! - `xor`: the byte-level transform and its algebra.
//! - `codec`: encoding text to base64 and decoding it back, with the
//!   byte-order mark handled as a prefix of the plain bytes.
//! - `laws`: what holds across calls (round trip, whitespace tolerance,
//!   rejection of malformed input).
//! - `b64`, `text`: the base64 crate and the parts of std that the codec calls.

pub mod b64;
pub mod codec;
pub mod laws;
pub mod text;
pub mod xor;

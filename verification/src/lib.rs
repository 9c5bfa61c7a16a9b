//! HTML entity encoding and decoding.
//!
//! The decoder is a single-pass state machine that recognizes named
//! (`&name;`), decimal (`&#NNN;`) and hexadecimal (`&#xHHH;`) character
//! references embedded in literal text, with a strict mode that reports the
//! first malformed reference and a sloppy mode that recovers from most of
//! them. The encoders escape the characters that break out of HTML text and
//! attribute contexts.

pub mod decode;
pub mod encode;
pub mod entity_table;
pub mod laws;
pub mod numeric;
mod text;

pub use decode::DecodeErr;
pub use decode::DecodeErrKind;
pub use decode::decode_html;
pub use decode::decode_html_sloppy;
pub use encode::encode_attribute;
pub use encode::encode_attribute_w;
pub use encode::encode_minimal;
pub use encode::encode_minimal_w;

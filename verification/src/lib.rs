//! Turns a document's embedded text into a normalized, word-tokenized
//! payload for a one-word-at-a-time reading display. Decoding the document's
//! binary structure is delegated to an external decoder invoked at the host
//! boundary; everything downstream of its outcome is verified here: map a
//! decode failure to the local error taxonomy, split decoded text into
//! tokens, and accept it only when enough tokens were recovered to indicate
//! a usable text layer.

pub mod classify;
pub mod pdf;
pub mod tokenize;
pub mod types;

pub use classify::has_text_layer;
pub use classify::parse_text;
pub use pdf::decode;
pub use pdf::parse_decoded;
pub use tokenize::tokenize;
pub use types::ParseError;
pub use types::ParseResult;
pub use types::READABILITY_THRESHOLD;

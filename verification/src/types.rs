//! Data model: the parse result and the error taxonomy.

use vstd::prelude::*;

verus! {

/// Readability threshold: a document whose decoded text yields fewer than
/// this many tokens is classified as lacking a usable text layer.
pub const READABILITY_THRESHOLD: usize = 10;

/// The views of a sequence of strings, token by token.
pub open spec fn views_of(words: Seq<String>) -> Seq<Seq<char>> {
    words.map_values(|w: String| w@)
}

/// Result returned from a document parse operation.
/// `words`: tokenized word sequence, in document reading order.
/// `title`: extracted document title, if available.
#[derive(Debug)]
pub struct ParseResult {
    pub words: Vec<String>,
    pub title: Option<String>,
}

impl ParseResult {
    /// A well-formed result holds at least the threshold number of words,
    /// none of them empty.
    pub open spec fn wf(&self) -> bool {
        &&& self.words@.len() >= READABILITY_THRESHOLD
        &&& forall|i: int| 0 <= i < self.words@.len() ==> self.words@[i]@.len() > 0
    }

    /// Assembles the result from an accepted token sequence and any available
    /// title; performs no further validation.
    pub fn new(words: Vec<String>, title: Option<String>) -> (r: ParseResult)
        requires
            words@.len() >= READABILITY_THRESHOLD,
            forall|i: int| 0 <= i < words@.len() ==> words@[i]@.len() > 0,
        ensures
            r.words == words,
            r.title == title,
            r.wf(),
    {
        ParseResult { words, title }
    }
}

/// Everything that can go wrong while turning document bytes into words.
pub enum ParseError {
    /// The byte buffer could not be decoded into text; carries a
    /// human-readable summary of the decoder's failure.
    DecodeError(String),
    /// Decoding succeeded but too few tokens were recovered: the document has
    /// no usable text layer (typical of a scanned, image-only document).
    ScannedDocumentError,
}

impl ParseError {
    /// The human-readable message surfaced to the caller.
    pub fn message(&self) -> (r: String)
        ensures
            self matches ParseError::DecodeError(m) ==> r@ == m@,
            self is ScannedDocumentError ==> r@ == (
            "No readable text found. This PDF may be scanned or image-based. Try a different PDF or paste the text instead."
            )@,
    {
        match self {
            ParseError::DecodeError(m) => m.clone(),
            ParseError::ScannedDocumentError => String::from_str(
                "No readable text found. This PDF may be scanned or image-based. Try a different PDF or paste the text instead.",
            ),
        }
    }
}

} // verus!

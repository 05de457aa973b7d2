//! Readability classifier and the text half of the pipeline: tokenize decoded
//! plain text and accept it only when it carries enough tokens to indicate a
//! usable text layer.

use vstd::prelude::*;
use crate::tokenize::tokenize;
use crate::tokenize::tokens_of;
use crate::types::ParseError;
use crate::types::ParseResult;
use crate::types::views_of;
use crate::types::READABILITY_THRESHOLD;

verus! {

/// Whether a token sequence of this many tokens indicates a usable text
/// layer: fewer than the threshold is rejected as scanned or image-only.
pub fn has_text_layer(words: &Vec<String>) -> (r: bool)
    ensures
        r == (words@.len() >= READABILITY_THRESHOLD),
{
    words.len() >= READABILITY_THRESHOLD
}

/// Tokenizes decoded plain text and classifies it: at least
/// `READABILITY_THRESHOLD` tokens yield a result holding exactly those tokens
/// in order and no title; fewer yield `ScannedDocumentError`.
pub fn parse_text(text: &str) -> (r: Result<ParseResult, ParseError>)
    ensures
        tokens_of(text@).len() >= READABILITY_THRESHOLD ==> (r matches Ok(pr) && views_of(pr.words@)
            == tokens_of(text@) && pr.title is None && pr.wf()),
        tokens_of(text@).len() < READABILITY_THRESHOLD ==> (r matches Err(e)
            && e is ScannedDocumentError),
{
    let words = tokenize(text);
    if has_text_layer(&words) {
        Ok(ParseResult::new(words, None))
    } else {
        Err(ParseError::ScannedDocumentError)
    }
}

} // verus!

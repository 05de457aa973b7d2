//! Decoder adapter and the pipeline downstream of the external PDF decoder.
//!
//! Decoding the document's binary structure is delegated to an outside
//! decoder that can abort on hostile input, so the host boundary makes that
//! call behind a panic guard and hands its outcome here as plain values:
//! the decoded plain text, or an opaque human-readable failure summary.
//! Every decision taken on that outcome is verified.

use vstd::prelude::*;
use crate::classify::parse_text;
use crate::tokenize::tokens_of;
use crate::types::views_of;
use crate::types::ParseError;
use crate::types::ParseResult;
use crate::types::READABILITY_THRESHOLD;

verus! {

/// Decoder adapter: translates the external decoder's opaque failure into
/// the local error taxonomy, carrying its summary verbatim; decoded text
/// passes through unchanged.
pub fn decode(outcome: Result<String, String>) -> (r: Result<String, ParseError>)
    ensures
        outcome matches Ok(text) ==> (r matches Ok(t) && t@ == text@),
        outcome matches Err(summary) ==> (r matches Err(e) && e matches ParseError::DecodeError(m)
            && m@ == summary@),
{
    match outcome {
        Ok(text) => Ok(text),
        Err(summary) => Err(ParseError::DecodeError(summary)),
    }
}

/// The whole pipeline downstream of the external decoder: a decode failure
/// becomes `DecodeError` before any token is computed; decoded text is
/// split into tokens and accepted only when at least
/// `READABILITY_THRESHOLD` tokens were recovered.
pub fn parse_decoded(outcome: Result<String, String>) -> (r: Result<ParseResult, ParseError>)
    ensures
        outcome matches Err(summary) ==> (r matches Err(e) && e matches ParseError::DecodeError(m)
            && m@ == summary@),
        outcome matches Ok(text) ==> {
            &&& tokens_of(text@).len() >= READABILITY_THRESHOLD ==> (r matches Ok(pr) && views_of(
                pr.words@,
            ) == tokens_of(text@) && pr.title is None && pr.wf())
            &&& tokens_of(text@).len() < READABILITY_THRESHOLD ==> (r matches Err(e)
                && e is ScannedDocumentError)
        },
{
    match decode(outcome) {
        Ok(text) => parse_text(text.as_str()),
        Err(e) => Err(e),
    }
}

} // verus!

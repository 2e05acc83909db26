//! What every extractor decides once the payload is decoded: whether the
//! validated value goes on to the handler, and how a request is answered
//! when it does not and no handler of the application steps in.

use crate::error::{ExtractError, BAD_REQUEST};
use crate::flatten::{flat_counts_leaves, flatten_errors, leaf_count};
use crate::outcome::ValidationResult;
use vstd::prelude::*;

verus! {

/// The status that answers a path that could not be extracted.
pub const NOT_FOUND: u16 = 404;

/// Where an extractor reads from.
#[derive(Debug, Clone, Copy, PartialEq, Eq, Structural)]
pub enum Extractor {
    Form,
    Json,
    Path,
    Query,
    QsQuery,
}

/// Lets a decoded value pass unless validation found a violation. A result
/// that holds no violation, with or without fields, rejects nothing.
pub fn checked<T>(data: T, found: Result<(), ValidationResult>) -> (r: Result<T, ExtractError>)
    ensures
        match found {
            Ok(()) => r == Ok::<T, ExtractError>(data),
            Err(errors) => if leaf_count(errors@) == 0 {
                r == Ok::<T, ExtractError>(data)
            } else {
                r == Err::<T, ExtractError>(ExtractError::Validate(errors))
            },
        },
{
    match found {
        Ok(()) => Ok(data),
        Err(errors) => {
            let clean = {
                let entries = flatten_errors(&errors);
                proof {
                    flat_counts_leaves(errors@);
                }
                entries.len() == 0
            };
            if clean {
                Ok(data)
            } else {
                Err(ExtractError::Validate(errors))
            }
        },
    }
}

/// The answer to a rejected request when the application configured no
/// handler of its own: a path that does not fit is not found and answered
/// by the error's message; everything else is a bad request, answered by
/// the error's response body, which for broken validation rules is their
/// report.
pub fn default_rejection(extractor: Extractor, error: &ExtractError) -> (answer: (u16, String))
    ensures
        extractor is Path ==> answer.0 == NOT_FOUND && error.shown_as(answer.1@),
        !(extractor is Path) ==> answer.0 == BAD_REQUEST && error.answered_by(answer.1@),
{
    match extractor {
        Extractor::Path => (NOT_FOUND, error.message()),
        _ => (error.status_code(), error.response_body()),
    }
}

} // verus!

//! Error declaration.
//!
//! An [`ExtractError`] says why an extractor turned a request down: the payload
//! broke validation rules, or it could not be read into the target type at
//! all. The failures of the decoders are carried as they came; what this
//! module adds is the text that stands for each error and the body of the
//! response that answers it.

use crate::flatten::{flat, leaf_count};
use crate::outcome::ValidationResult;
use crate::render::{render, report, report_of_no_errors};
use vstd::prelude::*;
use vstd::string::*;

pub use crate::flatten::flatten_errors;

verus! {

/// `serde_json::Error`, the failure of the JSON decoder. Nothing is known
/// of a value but what its `Display` prints.
#[verifier::external_type_specification]
#[verifier::external_body]
pub struct ExJsonError(serde_json::Error);

/// `serde::de::value::Error`, the failure that `serde_urlencoded` and the
/// path deserializer report. Nothing is known of a value but what its
/// `Display` prints.
#[verifier::external_type_specification]
#[verifier::external_body]
pub struct ExValueError(serde::de::value::Error);

/// `actix_web::error::JsonPayloadError`, the failure of reading a JSON
/// body. Nothing is known of a value but what its `Display` prints.
#[verifier::external_type_specification]
#[verifier::external_body]
pub struct ExJsonPayloadError(actix_web::error::JsonPayloadError);

/// `actix_web::error::UrlencodedError`, the failure of reading a form body.
/// Nothing is known of a value but what its `Display` prints.
#[verifier::external_type_specification]
#[verifier::external_body]
pub struct ExUrlencodedError(actix_web::error::UrlencodedError);

/// `serde_qs::Error`, the failure of the bracketed query-string decoder.
/// Nothing is known of a value but what its `Display` prints.
#[verifier::external_type_specification]
#[verifier::external_body]
pub struct ExQsError(serde_qs::Error);

/// The request could not be read into the target type.
#[derive(Debug)]
pub enum DeserializeErrors {
    DeserializeQuery(serde_urlencoded::de::Error),
    DeserializeJson(serde_json::error::Error),
    DeserializePath(serde::de::value::Error),
}

/// Why an extractor turned a request down.
#[derive(Debug)]
pub enum ExtractError {
    Validate(ValidationResult),
    Deserialize(DeserializeErrors),
    JsonPayloadError(actix_web::error::JsonPayloadError),
    UrlEncodedError(actix_web::error::UrlencodedError),
    QsError(serde_qs::Error),
}

/// The status of the response that answers an [`ExtractError`].
pub const BAD_REQUEST: u16 = 400;

/// `text` is `label` followed by what `Display` prints for `cause`.
pub open spec fn labelled<T: core::fmt::Display>(label: Seq<char>, cause: &T, text: Seq<char>) -> bool {
    exists|shown: String| #[trigger]
        to_string_from_display_ensures::<T>(cause, shown) && text == label + shown@
}

/// Puts a label in front of a detail.
pub fn describe(label: &str, detail: &str) -> (text: String)
    ensures
        text@ == label@ + detail@,
{
    let mut text = String::from_str(label);
    text.append(detail);
    text
}

impl DeserializeErrors {
    /// `text` stands for this error.
    pub open spec fn shown_as(&self, text: Seq<char>) -> bool {
        match self {
            DeserializeErrors::DeserializeQuery(cause) => labelled(
                "Query deserialize error: "@,
                cause,
                text,
            ),
            DeserializeErrors::DeserializeJson(cause) => labelled(
                "Json deserialize error: "@,
                cause,
                text,
            ),
            DeserializeErrors::DeserializePath(cause) => labelled(
                "Path deserialize error: "@,
                cause,
                text,
            ),
        }
    }

    /// The text that stands for this error: which decoder failed, and what
    /// it said.
    pub fn message(&self) -> (text: String)
        ensures
            self.shown_as(text@),
    {
        match self {
            DeserializeErrors::DeserializeQuery(cause) => {
                let detail = cause.to_string();
                describe("Query deserialize error: ", detail.as_str())
            },
            DeserializeErrors::DeserializeJson(cause) => {
                let detail = cause.to_string();
                describe("Json deserialize error: ", detail.as_str())
            },
            DeserializeErrors::DeserializePath(cause) => {
                let detail = cause.to_string();
                describe("Path deserialize error: ", detail.as_str())
            },
        }
    }
}

impl ExtractError {
    /// `text` stands for this error.
    pub open spec fn shown_as(&self, text: Seq<char>) -> bool {
        match self {
            ExtractError::Validate(errors) => text == "Validation error: "@ + report(
                flat(errors@),
            ),
            ExtractError::Deserialize(cause) => cause.shown_as(text),
            ExtractError::JsonPayloadError(cause) => labelled("Payload error: "@, cause, text),
            ExtractError::UrlEncodedError(cause) => labelled("Url encoded error: "@, cause, text),
            ExtractError::QsError(cause) => labelled("Query error: "@, cause, text),
        }
    }

    /// `text` is the body of the response that answers this error.
    pub open spec fn answered_by(&self, text: Seq<char>) -> bool {
        match self {
            ExtractError::Validate(errors) => text == report(flat(errors@)),
            _ => self.shown_as(text),
        }
    }

    /// The text that stands for this error. For broken validation rules it
    /// is the report of the violations, one line `path: code` each.
    pub fn message(&self) -> (text: String)
        ensures
            self.shown_as(text@),
    {
        match self {
            ExtractError::Validate(errors) => {
                let lines = render(errors);
                describe("Validation error: ", lines.as_str())
            },
            ExtractError::Deserialize(cause) => cause.message(),
            ExtractError::JsonPayloadError(cause) => {
                let detail = cause.to_string();
                describe("Payload error: ", detail.as_str())
            },
            ExtractError::UrlEncodedError(cause) => {
                let detail = cause.to_string();
                describe("Url encoded error: ", detail.as_str())
            },
            ExtractError::QsError(cause) => {
                let detail = cause.to_string();
                describe("Query error: ", detail.as_str())
            },
        }
    }

    /// The body of the response that answers this error. Broken validation
    /// rules are answered by their report, one line `path: code` per
    /// violation and nothing else, so that a result without violations gives
    /// the empty body; every other error is answered by its message.
    pub fn response_body(&self) -> (text: String)
        ensures
            self.answered_by(text@),
    {
        match self {
            ExtractError::Validate(errors) => render(errors),
            _ => self.message(),
        }
    }

    /// The status of the response that answers this error.
    pub fn status_code(&self) -> (status: u16)
        ensures
            status == BAD_REQUEST,
    {
        BAD_REQUEST
    }
}

/// A validation error that holds no violation, whether its result has no
/// fields or only fields with nothing in them, is answered by the empty body.
pub proof fn no_errors_answered_by_nothing(errors: ValidationResult, text: Seq<char>)
    requires
        leaf_count(errors@) == 0,
        ExtractError::Validate(errors).answered_by(text),
    ensures
        text == Seq::<char>::empty(),
{
    report_of_no_errors(errors@);
}

impl From<ValidationResult> for ExtractError {
    fn from(errors: ValidationResult) -> (error: ExtractError) {
        ExtractError::Validate(errors)
    }
}

impl vstd::std_specs::convert::FromSpecImpl<ValidationResult> for ExtractError {
    open spec fn obeys_from_spec() -> bool {
        true
    }

    open spec fn from_spec(errors: ValidationResult) -> ExtractError {
        ExtractError::Validate(errors)
    }
}

impl From<DeserializeErrors> for ExtractError {
    fn from(cause: DeserializeErrors) -> (error: ExtractError) {
        ExtractError::Deserialize(cause)
    }
}

impl vstd::std_specs::convert::FromSpecImpl<DeserializeErrors> for ExtractError {
    open spec fn obeys_from_spec() -> bool {
        true
    }

    open spec fn from_spec(cause: DeserializeErrors) -> ExtractError {
        ExtractError::Deserialize(cause)
    }
}

impl From<serde_json::error::Error> for ExtractError {
    fn from(cause: serde_json::error::Error) -> (error: ExtractError) {
        ExtractError::Deserialize(DeserializeErrors::DeserializeJson(cause))
    }
}

impl vstd::std_specs::convert::FromSpecImpl<serde_json::error::Error> for ExtractError {
    open spec fn obeys_from_spec() -> bool {
        true
    }

    open spec fn from_spec(cause: serde_json::error::Error) -> ExtractError {
        ExtractError::Deserialize(DeserializeErrors::DeserializeJson(cause))
    }
}

impl From<serde_urlencoded::de::Error> for ExtractError {
    fn from(cause: serde_urlencoded::de::Error) -> (error: ExtractError) {
        ExtractError::Deserialize(DeserializeErrors::DeserializeQuery(cause))
    }
}

impl vstd::std_specs::convert::FromSpecImpl<serde_urlencoded::de::Error> for ExtractError {
    open spec fn obeys_from_spec() -> bool {
        true
    }

    open spec fn from_spec(cause: serde_urlencoded::de::Error) -> ExtractError {
        ExtractError::Deserialize(DeserializeErrors::DeserializeQuery(cause))
    }
}

impl From<actix_web::error::JsonPayloadError> for ExtractError {
    fn from(cause: actix_web::error::JsonPayloadError) -> (error: ExtractError) {
        ExtractError::JsonPayloadError(cause)
    }
}

impl vstd::std_specs::convert::FromSpecImpl<actix_web::error::JsonPayloadError> for ExtractError {
    open spec fn obeys_from_spec() -> bool {
        true
    }

    open spec fn from_spec(cause: actix_web::error::JsonPayloadError) -> ExtractError {
        ExtractError::JsonPayloadError(cause)
    }
}

impl From<actix_web::error::UrlencodedError> for ExtractError {
    fn from(cause: actix_web::error::UrlencodedError) -> (error: ExtractError) {
        ExtractError::UrlEncodedError(cause)
    }
}

impl vstd::std_specs::convert::FromSpecImpl<actix_web::error::UrlencodedError> for ExtractError {
    open spec fn obeys_from_spec() -> bool {
        true
    }

    open spec fn from_spec(cause: actix_web::error::UrlencodedError) -> ExtractError {
        ExtractError::UrlEncodedError(cause)
    }
}

impl From<serde_qs::Error> for ExtractError {
    fn from(cause: serde_qs::Error) -> (error: ExtractError) {
        ExtractError::QsError(cause)
    }
}

impl vstd::std_specs::convert::FromSpecImpl<serde_qs::Error> for ExtractError {
    open spec fn obeys_from_spec() -> bool {
        true
    }

    open spec fn from_spec(cause: serde_qs::Error) -> ExtractError {
        ExtractError::QsError(cause)
    }
}

} // verus!

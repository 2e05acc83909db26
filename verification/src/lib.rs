//! Validation failures as data: a tree of per-field outcomes, its flattening
//! into path-qualified entries, the plain-text report built from them, and
//! the decisions of the extractors that validate what they decode.

pub mod decimal;
pub mod error;
pub mod extract;
pub mod flatten;
mod form;
mod json;
pub mod outcome;
mod path;
mod qsquery;
mod query;
pub mod render;

pub use error::ExtractError;
pub use form::{Form, DEFAULT_FORM_LIMIT};
pub use json::{Json, DEFAULT_JSON_LIMIT};
pub use path::Path;
pub use qsquery::QsQuery;
pub use query::Query;

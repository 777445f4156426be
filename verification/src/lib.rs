//! Client-side logic for an unofficial transit-route search service:
//! encoding structured search arguments into the provider's flat query
//! protocol, extracting the JSON document embedded in a search response,
//! and normalizing the untyped result tree into typed itineraries.

use vstd::prelude::*;

pub mod args;
pub mod datetime;
pub mod extract;
pub mod json;
pub mod parser;
pub mod places;
pub mod query;
pub mod text;

verus! {

/// A fatal error while turning a response body into a normalized result.
#[derive(Debug, Clone, Copy, PartialEq, Eq, Structural)]
pub enum TransitError {
    /// The response was HTML and no embedded data script was found.
    NextDataNotFound,
    /// The raw body or the extracted script text was not valid JSON.
    InvalidJson,
    /// The JSON tree lacks the top-level route feature list.
    FeatureListMissing,
}

impl TransitError {
    /// A short human-readable description of the error.
    pub fn as_str(&self) -> (r: &'static str)
        ensures
            *self is NextDataNotFound ==> r@ == "__NEXT_DATA__ not found in HTML"@,
            *self is InvalidJson ==> r@ == "invalid JSON"@,
            *self is FeatureListMissing ==> r@ == "featureInfoList missing"@,
    {
        match self {
            TransitError::NextDataNotFound => "__NEXT_DATA__ not found in HTML",
            TransitError::InvalidJson => "invalid JSON",
            TransitError::FeatureListMissing => "featureInfoList missing",
        }
    }
}

} // verus!

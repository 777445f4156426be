//! Typed records of the place-suggestion endpoint's response.

use vstd::prelude::*;

use crate::text::str_eq;

verus! {

/// The coded kind of a suggested place.
#[derive(Debug, Clone, Copy, PartialEq, Eq, Structural, Hash)]
pub enum YxhooPlaceKind {
    /// Code `st`.
    Station,
    /// Code `bu`.
    BusStation,
    /// Code `la`.
    Facility,
    /// Any unrecognized code.
    Other,
}

impl YxhooPlaceKind {
    /// The kind for a provider code: `st`, `bu`, `la`, or anything else.
    pub open spec fn spec_from_code(code: Seq<char>) -> YxhooPlaceKind {
        if code == "st"@ {
            YxhooPlaceKind::Station
        } else if code == "bu"@ {
            YxhooPlaceKind::BusStation
        } else if code == "la"@ {
            YxhooPlaceKind::Facility
        } else {
            YxhooPlaceKind::Other
        }
    }

    /// Decodes a provider place-kind code; unrecognized codes fall back to
    /// `Other`.
    pub fn from_code(code: &str) -> (r: YxhooPlaceKind)
        ensures
            r == YxhooPlaceKind::spec_from_code(code@),
    {
        if str_eq(code, "st") {
            YxhooPlaceKind::Station
        } else if str_eq(code, "bu") {
            YxhooPlaceKind::BusStation
        } else if str_eq(code, "la") {
            YxhooPlaceKind::Facility
        } else {
            YxhooPlaceKind::Other
        }
    }
}

/// One suggested place.
#[derive(Debug, Clone)]
pub struct YxhooPlace {
    /// Display name.
    pub suggest: String,
    /// Phonetic reading.
    pub yomi: String,
    /// Latitude, as the provider's decimal string.
    pub lat: String,
    /// Longitude, as the provider's decimal string.
    pub lon: String,
    /// Address text.
    pub address: String,
    /// Coded place kind.
    pub kind: YxhooPlaceKind,
}

/// The response of the place-suggestion endpoint.
#[derive(Debug, Clone)]
pub struct YxhooSuggestResponse {
    /// The echoed query.
    pub query: String,
    /// The provider's total result count.
    pub total_results: u32,
    /// The suggested places.
    pub results: Vec<YxhooPlace>,
}

} // verus!

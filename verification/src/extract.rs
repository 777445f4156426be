//! Locating and parsing the JSON document embedded in a search response:
//! a body that starts with `{` is parsed as JSON directly; any other body is
//! treated as HTML and the first `script#__NEXT_DATA__` element's content is
//! parsed instead.

use vstd::prelude::*;

use crate::TransitError;
use crate::json::Json;
use crate::text::{is_space_c, is_space, lemma_trim_start_count, to_chars, trim_start_count};

verus! {

#[verifier::external_type_specification]
#[verifier::external_body]
pub struct ExValue(serde_json::Value);

/// The JSON tree encoded by the characters `s`, if they are a valid JSON
/// document; what `serde_json::from_str` accepts and returns, written in the
/// library's own tree type.
pub uninterp spec fn json_of(s: Seq<char>) -> Option<Json>;

/// Relies on the variant accessors of `serde_json::Value`: each arm moves
/// one variant of the parsed tree into the library's own tree type. Numbers
/// carry nothing the normalizer reads and become `Json::Other`.
#[verifier::external_body]
fn value_to_json(v: &serde_json::Value) -> Json {
    match v {
        serde_json::Value::Null => Json::Null,
        serde_json::Value::Bool(b) => Json::Bool(*b),
        serde_json::Value::Number(_) => Json::Other,
        serde_json::Value::String(s) => Json::Str(s.clone()),
        serde_json::Value::Array(a) => Json::Arr(a.iter().map(value_to_json).collect()),
        serde_json::Value::Object(o) => Json::Obj(
            o.iter().map(|(k, x)| (k.clone(), value_to_json(x))).collect(),
        ),
    }
}

/// Relies on `serde_json::from_str::<serde_json::Value>`: it succeeds
/// exactly on valid JSON documents and its result is a function of the
/// input characters alone, here named `json_of`.
#[verifier::external_body]
fn parse_json_text(s: &str) -> (r: Option<Json>)
    ensures
        r == json_of(s@),
{
    match serde_json::from_str::<serde_json::Value>(s) {
        Ok(v) => Some(value_to_json(&v)),
        Err(_) => None,
    }
}

/// The inner content of the first `script#__NEXT_DATA__` element of `s`
/// read as an HTML document, if such an element exists; a function of the
/// input characters alone.
pub uninterp spec fn next_data_script(s: Seq<char>) -> Option<Seq<char>>;

/// Relies on `scraper::Html::parse_document`, `scraper::Selector::parse` and
/// `ElementRef::inner_html`: parsing the body as HTML and taking the inner
/// content of the first element matching `script#__NEXT_DATA__` is
/// deterministic in the body text, here named `next_data_script`.
/// `Selector::parse` cannot fail on this fixed, valid selector.
#[verifier::external_body]
fn extract_next_data(body: &str) -> (r: Option<String>)
    ensures
        match r {
            Some(t) => next_data_script(body@) == Some(t@),
            None => next_data_script(body@) is None,
        },
{
    let doc = scraper::Html::parse_document(body);
    let sel = scraper::Selector::parse(r#"script#__NEXT_DATA__"#).unwrap();
    doc.select(&sel).next().map(|el| el.inner_html())
}

/// What `load_next_data` returns on the characters `s`: the body parsed as
/// JSON when its first non-space character is `{`, else the embedded data
/// script parsed as JSON.
pub open spec fn spec_load_next_data(s: Seq<char>) -> Result<Json, TransitError> {
    let a = trim_start_count(s);
    if a < s.len() && s[a] == '{' {
        match json_of(s) {
            Some(j) => Ok(j),
            None => Err(TransitError::InvalidJson),
        }
    } else {
        match next_data_script(s) {
            Some(txt) => match json_of(txt) {
                Some(j) => Ok(j),
                None => Err(TransitError::InvalidJson),
            },
            None => Err(TransitError::NextDataNotFound),
        }
    }
}

/// Extracts the embedded JSON document from a response body; see
/// `spec_load_next_data`.
pub fn load_next_data(input: &str) -> (r: Result<Json, TransitError>)
    ensures
        r == spec_load_next_data(input@),
{
    let v = to_chars(input);
    let n = v.len();
    let mut a: usize = 0;
    while a < n && is_space_c(v[a])
        invariant
            a <= n,
            n == v@.len(),
            forall|j: int| 0 <= j < a ==> is_space(#[trigger] v@[j]),
        decreases n - a,
    {
        a = a + 1;
    }
    proof {
        lemma_trim_start_count(v@);
        let ta = trim_start_count(v@);
        if ta < a {
            assert(is_space(v@[ta]));
        } else if ta > a {
            assert(is_space(v@[a as int]));
        }
    }
    if a < n && v[a] == '{' {
        match parse_json_text(input) {
            Some(j) => Ok(j),
            None => Err(TransitError::InvalidJson),
        }
    } else {
        match extract_next_data(input) {
            Some(txt) => match parse_json_text(txt.as_str()) {
                Some(j) => Ok(j),
                None => Err(TransitError::InvalidJson),
            },
            None => Err(TransitError::NextDataNotFound),
        }
    }
}

} // verus!

//! The library's own JSON tree: what the response normalizer reads from the
//! provider's untyped payload. Navigation returns absence instead of failing
//! on any missing key or wrong shape.

use vstd::prelude::*;

use crate::text::str_eq;

verus! {

/// An untyped JSON value. Numbers are not read by any of the normalizer's
/// rules, so they are kept only as `Other` (present, but of no readable
/// shape).
#[derive(Debug)]
pub enum Json {
    Null,
    Bool(bool),
    Str(String),
    Arr(Vec<Json>),
    Obj(Vec<(String, Json)>),
    /// A value of a shape the normalizer never reads (a number).
    Other,
}

/// The first value under `key` in an ordered field list.
pub open spec fn spec_fields_get(fields: Seq<(String, Json)>, key: Seq<char>) -> Option<Json>
    decreases fields.len(),
{
    if fields.len() == 0 {
        None
    } else if fields[0].0@ == key {
        Some(fields[0].1)
    } else {
        spec_fields_get(fields.drop_first(), key)
    }
}

impl Json {
    /// The value under `key`, when `self` is an object that has it.
    pub open spec fn spec_get(self, key: Seq<char>) -> Option<Json> {
        match self {
            Json::Obj(fields) => spec_fields_get(fields@, key),
            _ => None,
        }
    }

    /// The elements, when `self` is an array.
    pub open spec fn spec_arr(self) -> Option<Seq<Json>> {
        match self {
            Json::Arr(items) => Some(items@),
            _ => None,
        }
    }

    /// The characters, when `self` is a string.
    pub open spec fn spec_str(self) -> Option<Seq<char>> {
        match self {
            Json::Str(s) => Some(s@),
            _ => None,
        }
    }

    /// The value, when `self` is a boolean.
    pub open spec fn spec_bool(self) -> Option<bool> {
        match self {
            Json::Bool(b) => Some(b),
            _ => None,
        }
    }

    /// The value under `key`, when `self` is an object that has it.
    pub fn get<'a>(&'a self, key: &str) -> (r: Option<&'a Json>)
        ensures
            match r {
                Some(v) => self.spec_get(key@) == Some(*v),
                None => self.spec_get(key@) is None,
            },
    {
        match self {
            Json::Obj(fields) => {
                proof {
                    assert(fields@.skip(0) =~= fields@);
                }
                let mut i: usize = 0;
                while i < fields.len()
                    invariant
                        i <= fields@.len(),
                        self.spec_get(key@) == spec_fields_get(fields@, key@),
                        spec_fields_get(fields@, key@) == spec_fields_get(
                            fields@.skip(i as int),
                            key@,
                        ),
                    decreases fields@.len() - i,
                {
                    proof {
                        assert(fields@.skip(i as int).len() > 0);
                        assert(fields@.skip(i as int)[0] == fields@[i as int]);
                        assert(fields@.skip(i as int).drop_first() =~= fields@.skip(i as int + 1));
                    }
                    let p = &fields[i];
                    if str_eq(p.0.as_str(), key) {
                        proof {
                            assert(fields@.skip(i as int)[0].0@ == key@);
                            assert(spec_fields_get(fields@.skip(i as int), key@) == Some(
                                fields@[i as int].1,
                            ));
                        }
                        return Some(&p.1);
                    }
                    i = i + 1;
                }
                None
            },
            _ => None,
        }
    }

    /// The elements, when `self` is an array.
    pub fn as_array(&self) -> (r: Option<&Vec<Json>>)
        ensures
            match r {
                Some(v) => self.spec_arr() == Some(v@),
                None => self.spec_arr() is None,
            },
    {
        match self {
            Json::Arr(items) => Some(items),
            _ => None,
        }
    }

    /// The string, when `self` is one.
    pub fn as_str(&self) -> (r: Option<&String>)
        ensures
            match r {
                Some(s) => self.spec_str() == Some(s@),
                None => self.spec_str() is None,
            },
    {
        match self {
            Json::Str(s) => Some(s),
            _ => None,
        }
    }

    /// The boolean, when `self` is one.
    pub fn as_bool(&self) -> (r: Option<bool>)
        ensures
            r == self.spec_bool(),
    {
        match self {
            Json::Bool(b) => Some(*b),
            _ => None,
        }
    }
}

} // verus!

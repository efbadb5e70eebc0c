//! A JSON document tree and the typed reading of its values.
use crate::link::same_text;
use crate::numeric::{parse_bounded, parse_unsigned};
use vstd::prelude::*;

verus! {

/// A JSON number: a non-negative integer, a negative integer, or any other
/// number, kept as its text.
#[derive(Clone, Debug, PartialEq, Eq)]
pub enum JsonNumber {
    Unsigned(u64),
    Negative(i64),
    Fraction(String),
}

/// A JSON value. An object keeps its members in order.
#[derive(Debug)]
pub enum Json {
    Null,
    Bool(bool),
    Number(JsonNumber),
    Str(String),
    Array(Vec<Json>),
    Object(Vec<(String, Json)>),
}

/// A value that does not have the shape that its schema asks for.
#[derive(Clone, Copy, Debug, PartialEq, Eq, Structural)]
pub enum DecodeError {
    UnexpectedShape,
}

/// The value of the last member named `name`.
pub open spec fn member(entries: Seq<(String, Json)>, name: Seq<char>) -> Option<Json>
    decreases entries.len(),
{
    if entries.len() == 0 {
        None
    } else if entries.last().0@ == name {
        Some(entries.last().1)
    } else {
        member(entries.drop_last(), name)
    }
}

/// The value behind an optional reference.
pub open spec fn present(j: Option<&Json>) -> Option<Json> {
    match j {
        Some(x) => Some(*x),
        None => None,
    }
}

/// The members of an object, or nothing for any other value.
pub open spec fn members(j: Json) -> Option<Seq<(String, Json)>> {
    match j {
        Json::Object(es) => Some(es@),
        _ => None,
    }
}

/// The text of a present string value.
pub open spec fn text_of(j: Option<Json>) -> Option<Seq<char>> {
    match j {
        Some(Json::Str(s)) => Some(s@),
        _ => None,
    }
}

/// Whether an optional string field is absent, null or a string.
pub open spec fn optional_text_ok(j: Option<Json>) -> bool {
    match j {
        None => true,
        Some(Json::Null) => true,
        Some(Json::Str(_)) => true,
        _ => false,
    }
}

/// The text of an optional string field.
pub open spec fn optional_text_of(j: Option<Json>) -> Option<Seq<char>> {
    match j {
        Some(Json::Str(s)) => Some(s@),
        _ => None,
    }
}

/// The value of a present boolean.
pub open spec fn bool_of(j: Option<Json>) -> Option<bool> {
    match j {
        Some(Json::Bool(b)) => Some(b),
        _ => None,
    }
}

/// The value of a present non-negative integer number no larger than `max`.
pub open spec fn unsigned_of(j: Option<Json>, max: u64) -> Option<u64> {
    match j {
        Some(Json::Number(JsonNumber::Unsigned(u))) => if u <= max {
            Some(u)
        } else {
            None
        },
        _ => None,
    }
}

/// The value of an unsigned 64-bit integer given either as a number or as a
/// string of decimal digits.
pub open spec fn loose_unsigned_of(j: Option<Json>) -> Option<u64> {
    match j {
        Some(Json::Number(JsonNumber::Unsigned(u))) => Some(u),
        Some(Json::Str(s)) => match parse_unsigned(s@, u64::MAX as nat) {
            Some(v) => Some(v as u64),
            None => None,
        },
        _ => None,
    }
}

/// The value of the last member named `name`.
pub fn get_member<'a>(entries: &'a Vec<(String, Json)>, name: &str) -> (r: Option<&'a Json>)
    ensures
        match r {
            Some(j) => member(entries@, name@) == Some(*j),
            None => member(entries@, name@) is None,
        },
{
    let mut found: Option<&'a Json> = None;
    let mut i: usize = 0;
    while i < entries.len()
        invariant
            i <= entries@.len(),
            match found {
                Some(j) => member(entries@.subrange(0, i as int), name@) == Some(*j),
                None => member(entries@.subrange(0, i as int), name@) is None,
            },
        decreases entries@.len() - i,
    {
        let ghost next = entries@.subrange(0, i + 1);
        assert(next.drop_last() =~= entries@.subrange(0, i as int));
        if same_text(entries[i].0.as_str(), name) {
            found = Some(&entries[i].1);
        }
        i = i + 1;
    }
    assert(entries@.subrange(0, entries@.len() as int) =~= entries@);
    found
}

/// A present string value.
pub fn required_text(j: Option<&Json>) -> (r: Result<String, DecodeError>)
    ensures
        match r {
            Ok(s) => text_of(present(j)) == Some(s@),
            Err(_) => text_of(present(j)) is None,
        },
{
    match j {
        Some(Json::Str(s)) => Ok(s.clone()),
        _ => Err(DecodeError::UnexpectedShape),
    }
}

/// An optional string field: absent or null is `None`.
pub fn optional_text(j: Option<&Json>) -> (r: Result<Option<String>, DecodeError>)
    ensures
        match r {
            Ok(s) => optional_text_ok(present(j)) && s.deep_view() == optional_text_of(
                present(j),
            ),
            Err(_) => !optional_text_ok(present(j)),
        },
{
    match j {
        None => Ok(None),
        Some(Json::Null) => Ok(None),
        Some(Json::Str(s)) => Ok(Some(s.clone())),
        _ => Err(DecodeError::UnexpectedShape),
    }
}

/// A present boolean.
pub fn required_bool(j: Option<&Json>) -> (r: Result<bool, DecodeError>)
    ensures
        match r {
            Ok(b) => bool_of(present(j)) == Some(b),
            Err(_) => bool_of(present(j)) is None,
        },
{
    match j {
        Some(Json::Bool(b)) => Ok(*b),
        _ => Err(DecodeError::UnexpectedShape),
    }
}

/// A present non-negative integer number no larger than `max`.
pub fn required_unsigned(j: Option<&Json>, max: u64) -> (r: Result<u64, DecodeError>)
    ensures
        match r {
            Ok(v) => unsigned_of(present(j), max) == Some(v),
            Err(_) => unsigned_of(present(j), max) is None,
        },
{
    match j {
        Some(Json::Number(JsonNumber::Unsigned(u))) => {
            if *u <= max {
                Ok(*u)
            } else {
                Err(DecodeError::UnexpectedShape)
            }
        },
        _ => Err(DecodeError::UnexpectedShape),
    }
}

/// An unsigned 64-bit integer given either as a number or as a decimal string.
pub fn loose_unsigned(j: Option<&Json>) -> (r: Result<u64, DecodeError>)
    ensures
        match r {
            Ok(v) => loose_unsigned_of(present(j)) == Some(v),
            Err(_) => loose_unsigned_of(present(j)) is None,
        },
{
    match j {
        Some(Json::Number(JsonNumber::Unsigned(u))) => Ok(*u),
        Some(Json::Str(s)) => match parse_bounded(s.as_str(), u64::MAX) {
            Some(v) => Ok(v),
            None => Err(DecodeError::UnexpectedShape),
        },
        _ => Err(DecodeError::UnexpectedShape),
    }
}

/// Whether an optional number field is absent, null or a non-negative integer
/// no larger than `max`.
pub open spec fn optional_unsigned_ok(j: Option<Json>, max: u64) -> bool {
    match j {
        None => true,
        Some(Json::Null) => true,
        Some(Json::Number(JsonNumber::Unsigned(u))) => u <= max,
        _ => false,
    }
}

/// The value of an optional number field.
pub open spec fn optional_unsigned_of(j: Option<Json>) -> Option<u64> {
    match j {
        Some(Json::Number(JsonNumber::Unsigned(u))) => Some(u),
        _ => None,
    }
}

/// Whether an optional list of strings is absent, null or an array of strings.
pub open spec fn optional_text_list_ok(j: Option<Json>) -> bool {
    match j {
        None => true,
        Some(Json::Null) => true,
        Some(Json::Array(items)) => forall|i: int|
            0 <= i < items@.len() ==> (#[trigger] items@[i]) is Str,
        _ => false,
    }
}

/// Whether `v` is the optional list of strings that a field describes.
pub open spec fn optional_text_list_matches(j: Option<Json>, v: Option<Vec<String>>) -> bool {
    match v {
        None => j is None || j == Some(Json::Null),
        Some(xs) => match j {
            Some(Json::Array(items)) => items@.len() == xs@.len() && forall|i: int|
                0 <= i < xs@.len() ==> text_of(Some(#[trigger] items@[i])) == Some(xs@[i]@),
            _ => false,
        },
    }
}

/// An optional non-negative integer no larger than `max`: absent or null is
/// `None`.
pub fn optional_unsigned(j: Option<&Json>, max: u64) -> (r: Result<Option<u64>, DecodeError>)
    ensures
        match r {
            Ok(v) => optional_unsigned_ok(present(j), max) && v == optional_unsigned_of(present(j)),
            Err(_) => !optional_unsigned_ok(present(j), max),
        },
{
    match j {
        None => Ok(None),
        Some(Json::Null) => Ok(None),
        Some(Json::Number(JsonNumber::Unsigned(u))) => {
            if *u <= max {
                Ok(Some(*u))
            } else {
                Err(DecodeError::UnexpectedShape)
            }
        },
        _ => Err(DecodeError::UnexpectedShape),
    }
}

/// An optional list of strings: absent or null is `None`.
pub fn optional_text_list(j: Option<&Json>) -> (r: Result<Option<Vec<String>>, DecodeError>)
    ensures
        match r {
            Ok(v) => optional_text_list_ok(present(j)) && optional_text_list_matches(present(j), v),
            Err(_) => !optional_text_list_ok(present(j)),
        },
{
    let items = match j {
        None => return Ok(None),
        Some(Json::Null) => return Ok(None),
        Some(Json::Array(items)) => items,
        _ => return Err(DecodeError::UnexpectedShape),
    };
    let mut out: Vec<String> = Vec::new();
    let mut i: usize = 0;
    while i < items.len()
        invariant
            present(j) == Some(Json::Array(*items)),
            i <= items@.len(),
            out@.len() == i,
            forall|k: int| 0 <= k < i ==> (#[trigger] items@[k]) is Str,
            forall|k: int| 0 <= k < i ==> text_of(Some(#[trigger] items@[k])) == Some(out@[k]@),
        decreases items@.len() - i,
    {
        match &items[i] {
            Json::Str(s) => {
                out.push(s.clone());
            },
            _ => {
                let ghost arr = Json::Array(*items);
                assert(!optional_text_list_ok(Some(arr)));
                return Err(DecodeError::UnexpectedShape);
            },
        }
        i = i + 1;
    }
    Ok(Some(out))
}

} // verus!

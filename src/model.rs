//! The API's response model: a page of records with an optional cursor, or a
//! reported failure.
use crate::json::{
    bool_of, get_member, member, members, optional_text, optional_text_list,
    optional_text_list_matches, optional_text_list_ok, optional_text_of, optional_text_ok,
    optional_unsigned, optional_unsigned_of, optional_unsigned_ok, present, required_bool,
    required_text, required_unsigned, text_of, unsigned_of, DecodeError, Json,
};
use crate::link::same_text;
use chrono::Datelike;
use crate::model::attributes::{
    all_integer_strs, decode_integer_str, decode_optional_integer_str_array, integer_str_of,
};
use vstd::prelude::*;

pub mod attributes;
pub mod library;

verus! {

/// The cursor that continues a paginated result.
#[derive(Clone, Debug, PartialEq, Eq)]
pub struct Cursors {
    pub after: String,
}

/// Where a paginated result continues: its cursor and the URL of the next page.
#[derive(Clone, Debug, PartialEq, Eq)]
pub struct Paging {
    pub cursors: Cursors,
    pub next: String,
}

/// The kind of a reported failure.
#[derive(Clone, Copy, Debug, PartialEq, Eq, Structural)]
pub enum ErrorType {
    OAuthException,
}

/// A failure that the API reports.
#[derive(Clone, Debug, PartialEq, Eq)]
pub struct ResponseError {
    pub message: String,
    pub error_type: ErrorType,
    pub code: u32,
    pub fbtrace_id: String,
}

/// A page of records and where the result continues, if it does.
#[derive(Debug)]
pub struct ResponseSuccess<D> {
    pub data: Vec<D>,
    pub paging: Option<Paging>,
}

/// What the API answers: a page of records, or a failure. A failure never
/// carries paging.
#[derive(Debug)]
pub enum Response<D> {
    Success(ResponseSuccess<D>),
    Failure { error: ResponseError },
}

impl<D> Response<D> {
    /// Where the result continues: the paging of a success, if any.
    pub fn paging(&self) -> (r: Option<&Paging>)
        ensures
            match self {
                Response::Success(s) => match s.paging {
                    Some(p) => r == Some(&p),
                    None => r is None,
                },
                Response::Failure { .. } => r is None,
            },
    {
        match self {
            Response::Success(s) => match &s.paging {
                Some(p) => Some(p),
                None => None,
            },
            Response::Failure { .. } => None,
        }
    }

    /// The records of a success, or the failure.
    pub fn result(&self) -> (r: Result<&Vec<D>, &ResponseError>)
        ensures
            match self {
                Response::Success(s) => r == Ok::<&Vec<D>, &ResponseError>(&s.data),
                Response::Failure { error } => r == Err::<&Vec<D>, &ResponseError>(&error),
            },
    {
        match self {
            Response::Success(s) => Ok(&s.data),
            Response::Failure { error } => Err(error),
        }
    }
}

/// Whether every member of an object is named in `allowed`.
pub open spec fn only_members(es: Seq<(String, Json)>, allowed: Seq<Seq<char>>) -> bool {
    forall|i: int| 0 <= i < es.len() ==> allowed.contains(#[trigger] es[i].0@)
}

/// The cursor and next URL of a paging object, which has exactly the members
/// `cursors` (an object whose only member is the string `after`) and `next`
/// (a string).
pub open spec fn paging_of(j: Json) -> Option<(Seq<char>, Seq<char>)> {
    match members(j) {
        Some(es) => {
            let after = match member(es, "cursors"@) {
                Some(c) => match members(c) {
                    Some(cs) => if only_members(cs, seq!["after"@]) {
                        text_of(member(cs, "after"@))
                    } else {
                        None
                    },
                    None => None,
                },
                None => None,
            };
            let next = text_of(member(es, "next"@));
            if only_members(es, seq!["cursors"@, "next"@]) && after is Some && next is Some {
                Some((after->0, next->0))
            } else {
                None
            }
        },
        None => None,
    }
}

/// Whether an optional paging member is absent, null or a paging object.
pub open spec fn optional_paging_ok(j: Option<Json>) -> bool {
    match j {
        None => true,
        Some(Json::Null) => true,
        Some(p) => paging_of(p) is Some,
    }
}

/// Whether a value has the shape of a success: an object with a `data` array
/// and an optional paging.
pub open spec fn success_ok(j: Json) -> bool {
    match members(j) {
        Some(es) => (member(es, "data"@) matches Some(Json::Array(_))) && optional_paging_ok(
            member(es, "paging"@),
        ),
        None => false,
    }
}

/// The fields of a failure object: message, kind, code and trace identifier.
pub open spec fn error_fields_ok(j: Json) -> bool {
    match members(j) {
        Some(es) => {
            &&& text_of(member(es, "message"@)) is Some
            &&& text_of(member(es, "type"@)) == Some("OAuthException"@)
            &&& crate::json::unsigned_of(member(es, "code"@), u32::MAX as u64) is Some
            &&& text_of(member(es, "fbtrace_id"@)) is Some
        },
        None => false,
    }
}

/// Whether a value has the shape of a failure: an object whose only member is
/// `error`.
pub open spec fn failure_ok(j: Json) -> bool {
    match members(j) {
        Some(es) => only_members(es, seq!["error"@]) && member(es, "error"@) is Some
            && error_fields_ok(member(es, "error"@)->0),
        None => false,
    }
}

/// Whether `p` is the paging that a paging member describes.
pub open spec fn paging_matches(j: Option<Json>, p: Option<Paging>) -> bool {
    match p {
        None => j is None || j == Some(Json::Null),
        Some(p) => j is Some && paging_of(j->0) == Some((p.cursors.after@, p.next@)),
    }
}

/// Whether `e` is the failure that an error object describes.
pub open spec fn error_matches(j: Json, e: ResponseError) -> bool {
    let es = members(j)->0;
    &&& text_of(member(es, "message"@)) == Some(e.message@)
    &&& crate::json::unsigned_of(member(es, "code"@), u32::MAX as u64) == Some(e.code as u64)
    &&& text_of(member(es, "fbtrace_id"@)) == Some(e.fbtrace_id@)
}

/// Whether `r` is the response that a value describes: a success when it has
/// the shape of one, else a failure.
pub open spec fn response_matches(j: Json, r: Response<Json>) -> bool {
    match r {
        Response::Success(s) => {
            let es = members(j)->0;
            &&& success_ok(j)
            &&& member(es, "data"@) == Some(Json::Array(s.data))
            &&& paging_matches(member(es, "paging"@), s.paging)
        },
        Response::Failure { error } => !success_ok(j) && failure_ok(j) && error_matches(
            member(members(j)->0, "error"@)->0,
            error,
        ),
    }
}

/// Whether every member is named in `allowed`.
fn has_only_members(es: &Vec<(String, Json)>, allowed: &Vec<&str>) -> (r: bool)
    ensures
        r == only_members(es@, allowed@.map_values(|a: &str| a@)),
{
    let ghost names = allowed@.map_values(|a: &str| a@);
    let mut i: usize = 0;
    while i < es.len()
        invariant
            i <= es@.len(),
            names == allowed@.map_values(|a: &str| a@),
            forall|k: int| 0 <= k < i ==> names.contains(#[trigger] es@[k].0@),
        decreases es@.len() - i,
    {
        let mut j: usize = 0;
        let mut hit = false;
        while j < allowed.len()
            invariant
                j <= allowed@.len(),
                i < es@.len(),
                names == allowed@.map_values(|a: &str| a@),
                hit ==> names.contains(es@[i as int].0@),
                !hit ==> forall|k: int| 0 <= k < j ==> names[k] != es@[i as int].0@,
            decreases allowed@.len() - j,
        {
            if same_text(es[i].0.as_str(), allowed[j]) {
                hit = true;
                assert(names[j as int] == es@[i as int].0@);
            }
            j = j + 1;
        }
        if !hit {
            assert(!names.contains(es@[i as int].0@));
            return false;
        }
        i = i + 1;
    }
    true
}

impl Paging {
    /// Reads a paging object.
    pub fn decode(j: &Json) -> (r: Result<Paging, DecodeError>)
        ensures
            match r {
                Ok(p) => paging_of(*j) == Some((p.cursors.after@, p.next@)),
                Err(_) => paging_of(*j) is None,
            },
    {
        proof {
            reveal_strlit("cursors");
            reveal_strlit("next");
            reveal_strlit("after");
        }
        let es = match j {
            Json::Object(es) => es,
            _ => return Err(DecodeError::UnexpectedShape),
        };
        let allowed = vec!["cursors", "next"];
        assert(allowed@.map_values(|a: &str| a@) =~= seq!["cursors"@, "next"@]);
        if !has_only_members(es, &allowed) {
            return Err(DecodeError::UnexpectedShape);
        }
        let cs = match get_member(es, "cursors") {
            Some(Json::Object(cs)) => cs,
            _ => return Err(DecodeError::UnexpectedShape),
        };
        let only_after = vec!["after"];
        assert(only_after@.map_values(|a: &str| a@) =~= seq!["after"@]);
        if !has_only_members(cs, &only_after) {
            return Err(DecodeError::UnexpectedShape);
        }
        let after = required_text(get_member(cs, "after"))?;
        let next = required_text(get_member(es, "next"))?;
        Ok(Paging { cursors: Cursors { after }, next })
    }
}

impl ResponseError {
    /// Reads the fields of a failure object.
    pub fn decode(j: &Json) -> (r: Result<ResponseError, DecodeError>)
        ensures
            match r {
                Ok(e) => error_fields_ok(*j) && error_matches(*j, e),
                Err(_) => !error_fields_ok(*j),
            },
    {
        let es = match j {
            Json::Object(es) => es,
            _ => return Err(DecodeError::UnexpectedShape),
        };
        let message = required_text(get_member(es, "message"))?;
        let kind = required_text(get_member(es, "type"))?;
        if !same_text(kind.as_str(), "OAuthException") {
            return Err(DecodeError::UnexpectedShape);
        }
        let code = required_unsigned(get_member(es, "code"), u32::MAX as u64)?;
        let fbtrace_id = required_text(get_member(es, "fbtrace_id"))?;
        Ok(ResponseError { message, error_type: ErrorType::OAuthException, code: code as u32, fbtrace_id })
    }
}

/// The position of the last member named `name`.
fn last_member_index(es: &Vec<(String, Json)>, name: &str) -> (r: Option<usize>)
    ensures
        match r {
            Some(k) => k < es@.len() && member(es@, name@) == Some(es@[k as int].1) && es@[k as int].0@
                == name@,
            None => member(es@, name@) is None,
        },
{
    let mut found: Option<usize> = None;
    let mut i: usize = 0;
    while i < es.len()
        invariant
            i <= es@.len(),
            match found {
                Some(k) => k < i && member(es@.subrange(0, i as int), name@) == Some(es@[k as int].1)
                    && es@[k as int].0@ == name@,
                None => member(es@.subrange(0, i as int), name@) is None,
            },
        decreases es@.len() - i,
    {
        let ghost next = es@.subrange(0, i + 1);
        assert(next.drop_last() =~= es@.subrange(0, i as int));
        if same_text(es[i].0.as_str(), name) {
            found = Some(i);
        }
        i = i + 1;
    }
    assert(es@.subrange(0, es@.len() as int) =~= es@);
    found
}

impl Response<Json> {
    /// Reads a response, keeping its records as JSON values: a success when
    /// the value has the shape of one, else a failure.
    pub fn decode(j: Json) -> (r: Result<Response<Json>, DecodeError>)
        ensures
            match r {
                Ok(resp) => response_matches(j, resp),
                Err(_) => !success_ok(j) && !failure_ok(j),
            },
    {
        proof {
            reveal_strlit("error");
        }
        let ghost whole = j;
        let mut es = match j {
            Json::Object(es) => es,
            _ => return Err(DecodeError::UnexpectedShape),
        };
        assert(members(whole) == Some(es@));
        let data_is_array = match get_member(&es, "data") {
            Some(Json::Array(_)) => true,
            _ => false,
        };
        let paging: Result<Option<Paging>, DecodeError> = match get_member(&es, "paging") {
            None => Ok(None),
            Some(Json::Null) => Ok(None),
            Some(p) => match Paging::decode(p) {
                Ok(p) => Ok(Some(p)),
                Err(e) => Err(e),
            },
        };
        if data_is_array {
            if let Ok(paging) = paging {
                let k = match last_member_index(&es, "data") {
                    Some(k) => k,
                    None => return Err(DecodeError::UnexpectedShape),
                };
                let ghost before = es@;
                let (_, value) = es.remove(k);
                assert(value == before[k as int].1);
                let data = match value {
                    Json::Array(items) => items,
                    _ => return Err(DecodeError::UnexpectedShape),
                };
                return Ok(Response::Success(ResponseSuccess { data, paging }));
            }
        }
        assert(!success_ok(whole));
        let only_error = vec!["error"];
        assert(only_error@.map_values(|a: &str| a@) =~= seq!["error"@]);
        if !has_only_members(&es, &only_error) {
            return Err(DecodeError::UnexpectedShape);
        }
        let error = match get_member(&es, "error") {
            Some(e) => ResponseError::decode(e)?,
            None => return Err(DecodeError::UnexpectedShape),
        };
        Ok(Response::Failure { error })
    }
}

/// A range of values, its upper end open when absent.
#[derive(Clone, Copy, Debug, PartialEq, Eq, Structural)]
pub struct Bounds {
    pub lower_bound: usize,
    pub upper_bound: Option<usize>,
}

/// An integer string that fits in `usize`.
pub open spec fn usize_str_of(j: Option<Json>) -> Option<u64> {
    match j {
        Some(v) => match integer_str_of(v) {
            Some(n) => if n <= usize::MAX as u64 {
                Some(n)
            } else {
                None
            },
            None => None,
        },
        None => None,
    }
}

/// The bounds that a value describes: an object with only `lower_bound` (an
/// integer string) and an optional `upper_bound` (an integer string or null).
pub open spec fn bounds_of(j: Json) -> Option<Bounds> {
    match members(j) {
        Some(es) => {
            let upper = member(es, "upper_bound"@);
            let upper_ok = upper is None || upper == Some(Json::Null) || usize_str_of(upper) is Some;
            if only_members(es, seq!["lower_bound"@, "upper_bound"@]) && usize_str_of(
                member(es, "lower_bound"@),
            ) is Some && upper_ok {
                Some(
                    Bounds {
                        lower_bound: usize_str_of(member(es, "lower_bound"@))->0 as usize,
                        upper_bound: match usize_str_of(upper) {
                            Some(n) => Some(n as usize),
                            None => None,
                        },
                    },
                )
            } else {
                None
            }
        },
        None => None,
    }
}

/// An integer string that fits in `usize`.
fn decode_usize_str(j: Option<&Json>) -> (r: Result<usize, DecodeError>)
    ensures
        match r {
            Ok(n) => usize_str_of(present(j)) == Some(n as u64),
            Err(_) => usize_str_of(present(j)) is None,
        },
{
    match j {
        Some(v) => match decode_integer_str(v) {
            Ok(n) => {
                if n <= usize::MAX as u64 {
                    Ok(n as usize)
                } else {
                    Err(DecodeError::UnexpectedShape)
                }
            },
            Err(_) => Err(DecodeError::UnexpectedShape),
        },
        None => Err(DecodeError::UnexpectedShape),
    }
}

impl Bounds {
    /// Reads bounds.
    pub fn decode(j: &Json) -> (r: Result<Bounds, DecodeError>)
        ensures
            match r {
                Ok(b) => bounds_of(*j) == Some(b),
                Err(_) => bounds_of(*j) is None,
            },
    {
        let es = match j {
            Json::Object(es) => es,
            _ => return Err(DecodeError::UnexpectedShape),
        };
        let allowed = vec!["lower_bound", "upper_bound"];
        assert(allowed@.map_values(|a: &str| a@) =~= seq!["lower_bound"@, "upper_bound"@]);
        if !has_only_members(es, &allowed) {
            return Err(DecodeError::UnexpectedShape);
        }
        let lower_bound = decode_usize_str(get_member(es, "lower_bound"))?;
        let upper_bound = match get_member(es, "upper_bound") {
            None => None,
            Some(Json::Null) => None,
            Some(v) => Some(decode_usize_str(Some(v))?),
        };
        Ok(Bounds { lower_bound, upper_bound })
    }
}

/// An age range of an audience breakdown.
#[derive(Clone, Copy, Debug, PartialEq, Eq, Structural, PartialOrd, Ord)]
pub enum AgeRange {
    Range13_17,
    Range18_24,
    Range25_34,
    Range35_44,
    Range45_54,
    Range55_64,
    Range65,
    Unknown,
}

/// The age range that the API names `t`.
pub open spec fn age_range_named(t: Seq<char>) -> Option<AgeRange> {
    if t == "13-17"@ {
        Some(AgeRange::Range13_17)
    } else if t == "18-24"@ {
        Some(AgeRange::Range18_24)
    } else if t == "25-34"@ {
        Some(AgeRange::Range25_34)
    } else if t == "35-44"@ {
        Some(AgeRange::Range35_44)
    } else if t == "45-54"@ {
        Some(AgeRange::Range45_54)
    } else if t == "55-64"@ {
        Some(AgeRange::Range55_64)
    } else if t == "65+"@ {
        Some(AgeRange::Range65)
    } else if t == "Unknown"@ {
        Some(AgeRange::Unknown)
    } else {
        None
    }
}

impl AgeRange {
    /// The age range of the given name.
    pub fn named(t: &str) -> (r: Option<AgeRange>)
        ensures
            r == age_range_named(t@),
    {
        if same_text(t, "13-17") {
            Some(AgeRange::Range13_17)
        } else if same_text(t, "18-24") {
            Some(AgeRange::Range18_24)
        } else if same_text(t, "25-34") {
            Some(AgeRange::Range25_34)
        } else if same_text(t, "35-44") {
            Some(AgeRange::Range35_44)
        } else if same_text(t, "45-54") {
            Some(AgeRange::Range45_54)
        } else if same_text(t, "55-64") {
            Some(AgeRange::Range55_64)
        } else if same_text(t, "65+") {
            Some(AgeRange::Range65)
        } else if same_text(t, "Unknown") {
            Some(AgeRange::Unknown)
        } else {
            None
        }
    }
}

/// Reach in one age range, by gender.
#[derive(Clone, Copy, Debug, PartialEq, Eq, Structural)]
pub struct AgeGenderBreakdown {
    pub age_range: AgeRange,
    pub female: Option<usize>,
    pub male: Option<usize>,
    pub unknown: Option<usize>,
}

/// An optional count: absent or null is `None`.
pub open spec fn count_of(j: Option<Json>) -> Option<usize> {
    match optional_unsigned_of(j) {
        Some(n) => Some(n as usize),
        None => None,
    }
}

/// The breakdown that a value describes.
pub open spec fn age_gender_breakdown_of(j: Json) -> Option<AgeGenderBreakdown> {
    match members(j) {
        Some(es) => {
            let range = match text_of(member(es, "age_range"@)) {
                Some(t) => age_range_named(t),
                None => None,
            };
            if only_members(es, seq!["age_range"@, "female"@, "male"@, "unknown"@]) && range is Some
                && optional_unsigned_ok(member(es, "female"@), usize::MAX as u64)
                && optional_unsigned_ok(member(es, "male"@), usize::MAX as u64)
                && optional_unsigned_ok(member(es, "unknown"@), usize::MAX as u64) {
                Some(
                    AgeGenderBreakdown {
                        age_range: range->0,
                        female: count_of(member(es, "female"@)),
                        male: count_of(member(es, "male"@)),
                        unknown: count_of(member(es, "unknown"@)),
                    },
                )
            } else {
                None
            }
        },
        None => None,
    }
}

/// An optional count no larger than `usize::MAX`.
fn decode_count(j: Option<&Json>) -> (r: Result<Option<usize>, DecodeError>)
    ensures
        match r {
            Ok(v) => optional_unsigned_ok(present(j), usize::MAX as u64) && v == count_of(present(j)),
            Err(_) => !optional_unsigned_ok(present(j), usize::MAX as u64),
        },
{
    match optional_unsigned(j, usize::MAX as u64)? {
        Some(n) => Ok(Some(n as usize)),
        None => Ok(None),
    }
}

impl AgeGenderBreakdown {
    /// Reads a breakdown.
    pub fn decode(j: &Json) -> (r: Result<AgeGenderBreakdown, DecodeError>)
        ensures
            match r {
                Ok(b) => age_gender_breakdown_of(*j) == Some(b),
                Err(_) => age_gender_breakdown_of(*j) is None,
            },
    {
        let es = match j {
            Json::Object(es) => es,
            _ => return Err(DecodeError::UnexpectedShape),
        };
        let allowed = vec!["age_range", "female", "male", "unknown"];
        assert(allowed@.map_values(|a: &str| a@) =~= seq![
            "age_range"@,
            "female"@,
            "male"@,
            "unknown"@,
        ]);
        if !has_only_members(es, &allowed) {
            return Err(DecodeError::UnexpectedShape);
        }
        let name = required_text(get_member(es, "age_range"))?;
        let age_range = match AgeRange::named(name.as_str()) {
            Some(a) => a,
            None => return Err(DecodeError::UnexpectedShape),
        };
        let female = decode_count(get_member(es, "female"))?;
        let male = decode_count(get_member(es, "male"))?;
        let unknown = decode_count(get_member(es, "unknown"))?;
        Ok(AgeGenderBreakdown { age_range, female, male, unknown })
    }
}

/// Whether a value is an array whose elements all satisfy `ok`.
pub open spec fn list_ok(j: Option<Json>, ok: spec_fn(Json) -> bool) -> bool {
    match j {
        Some(Json::Array(items)) => forall|i: int| 0 <= i < items@.len() ==> ok(#[trigger] items@[i]),
        _ => false,
    }
}

/// Whether `xs` are, element for element, what an array describes.
pub open spec fn list_matches<T>(j: Option<Json>, xs: Seq<T>, rel: spec_fn(Json, T) -> bool) -> bool {
    match j {
        Some(Json::Array(items)) => items@.len() == xs.len() && forall|i: int|
            0 <= i < xs.len() ==> rel(#[trigger] items@[i], xs[i]),
        _ => false,
    }
}

/// Whether an optional array field is absent, null, or an array whose
/// elements all satisfy `ok`.
pub open spec fn optional_list_ok(j: Option<Json>, ok: spec_fn(Json) -> bool) -> bool {
    j is None || j == Some(Json::Null) || list_ok(j, ok)
}

/// Whether `v` is what an optional array field describes.
pub open spec fn optional_list_matches<T>(
    j: Option<Json>,
    v: Option<Vec<T>>,
    rel: spec_fn(Json, T) -> bool,
) -> bool {
    match v {
        None => j is None || j == Some(Json::Null),
        Some(xs) => list_matches(j, xs@, rel),
    }
}

/// An array of age and gender breakdowns.
fn decode_breakdown_list(j: Option<&Json>) -> (r: Result<Vec<AgeGenderBreakdown>, DecodeError>)
    ensures
        match r {
            Ok(v) => list_ok(present(j), |v: Json| age_gender_breakdown_of(v) is Some) && list_matches(present(j), v@, |v: Json, x: AgeGenderBreakdown| age_gender_breakdown_of(v) == Some(x)),
            Err(_) => !list_ok(present(j), |v: Json| age_gender_breakdown_of(v) is Some),
        },
{
    let items = match j {
        Some(Json::Array(items)) => items,
        _ => return Err(DecodeError::UnexpectedShape),
    };
    let ghost okf = |v: Json| age_gender_breakdown_of(v) is Some;
    let ghost relf = |v: Json, x: AgeGenderBreakdown| age_gender_breakdown_of(v) == Some(x);
    let mut out: Vec<AgeGenderBreakdown> = Vec::new();
    let mut i: usize = 0;
    while i < items.len()
        invariant
            present(j) == Some(Json::Array(*items)),
            okf == (|v: Json| age_gender_breakdown_of(v) is Some),
            relf == (|v: Json, x: AgeGenderBreakdown| age_gender_breakdown_of(v) == Some(x)),
            i <= items@.len(),
            out@.len() == i,
            forall|k: int| 0 <= k < i ==> okf(#[trigger] items@[k]),
            forall|k: int| 0 <= k < i ==> relf(#[trigger] items@[k], out@[k]),
        decreases items@.len() - i,
    {
        match AgeGenderBreakdown::decode(&items[i]) {
            Ok(x) => {
                out.push(x);
            },
            Err(e) => {
                assert(!okf(items@[i as int]));
                let ghost arr = Json::Array(*items);
                assert(arr->Array_0 == *items);
                assert(list_ok(Some(arr), okf) ==> okf(items@[i as int]));
                assert(!list_ok(Some(arr), okf));
                return Err(e);
            },
        }
        i = i + 1;
    }
    Ok(out)
}

/// The reach breakdowns of one country.
#[derive(Clone, Debug, PartialEq, Eq)]
pub struct CountryAgeGenderBreakdowns {
    pub country: String,
    pub age_gender_breakdowns: Vec<AgeGenderBreakdown>,
}

/// Whether a value has the shape of a country's breakdowns.
pub open spec fn country_breakdowns_ok(j: Json) -> bool {
    match members(j) {
        Some(es) => only_members(es, seq!["country"@, "age_gender_breakdowns"@]) && text_of(
            member(es, "country"@),
        ) is Some && list_ok(
            member(es, "age_gender_breakdowns"@),
            |v: Json| age_gender_breakdown_of(v) is Some,
        ),
        None => false,
    }
}

/// Whether `x` is the country's breakdowns that a value describes.
pub open spec fn country_breakdowns_matches(j: Json, x: CountryAgeGenderBreakdowns) -> bool {
    let es = members(j)->0;
    text_of(member(es, "country"@)) == Some(x.country@) && list_matches(
        member(es, "age_gender_breakdowns"@),
        x.age_gender_breakdowns@,
        |v: Json, b: AgeGenderBreakdown| age_gender_breakdown_of(v) == Some(b),
    )
}

impl CountryAgeGenderBreakdowns {
    /// Reads a country's breakdowns.
    pub fn decode(j: &Json) -> (r: Result<CountryAgeGenderBreakdowns, DecodeError>)
        ensures
            match r {
                Ok(x) => country_breakdowns_ok(*j) && country_breakdowns_matches(*j, x),
                Err(_) => !country_breakdowns_ok(*j),
            },
    {
        let es = match j {
            Json::Object(es) => es,
            _ => return Err(DecodeError::UnexpectedShape),
        };
        let allowed = vec!["country", "age_gender_breakdowns"];
        assert(allowed@.map_values(|a: &str| a@) =~= seq!["country"@, "age_gender_breakdowns"@]);
        if !has_only_members(es, &allowed) {
            return Err(DecodeError::UnexpectedShape);
        }
        let country = required_text(get_member(es, "country"))?;
        let age_gender_breakdowns = decode_breakdown_list(get_member(es, "age_gender_breakdowns"))?;
        Ok(CountryAgeGenderBreakdowns { country, age_gender_breakdowns })
    }
}

/// Who benefits from an ad and who pays for it.
#[derive(Clone, Debug, PartialEq, Eq)]
pub struct BeneficiaryPayer {
    pub beneficiary: String,
    pub payer: String,
    pub current: bool,
}

/// Whether a value has the shape of a beneficiary and payer.
pub open spec fn beneficiary_payer_ok(j: Json) -> bool {
    match members(j) {
        Some(es) => only_members(es, seq!["beneficiary"@, "payer"@, "current"@]) && text_of(
            member(es, "beneficiary"@),
        ) is Some && text_of(member(es, "payer"@)) is Some && bool_of(member(es, "current"@)) is Some,
        None => false,
    }
}

/// Whether `x` is the beneficiary and payer that a value describes.
pub open spec fn beneficiary_payer_matches(j: Json, x: BeneficiaryPayer) -> bool {
    let es = members(j)->0;
    text_of(member(es, "beneficiary"@)) == Some(x.beneficiary@) && text_of(member(es, "payer"@))
        == Some(x.payer@) && bool_of(member(es, "current"@)) == Some(x.current)
}

impl BeneficiaryPayer {
    /// Reads a beneficiary and payer.
    pub fn decode(j: &Json) -> (r: Result<BeneficiaryPayer, DecodeError>)
        ensures
            match r {
                Ok(x) => beneficiary_payer_ok(*j) && beneficiary_payer_matches(*j, x),
                Err(_) => !beneficiary_payer_ok(*j),
            },
    {
        let es = match j {
            Json::Object(es) => es,
            _ => return Err(DecodeError::UnexpectedShape),
        };
        let allowed = vec!["beneficiary", "payer", "current"];
        assert(allowed@.map_values(|a: &str| a@) =~= seq!["beneficiary"@, "payer"@, "current"@]);
        if !has_only_members(es, &allowed) {
            return Err(DecodeError::UnexpectedShape);
        }
        let beneficiary = required_text(get_member(es, "beneficiary"))?;
        let payer = required_text(get_member(es, "payer"))?;
        let current = required_bool(get_member(es, "current"))?;
        Ok(BeneficiaryPayer { beneficiary, payer, current })
    }
}

/// A platform that shows ads.
#[derive(Clone, Copy, Debug, PartialEq, Eq, Structural, PartialOrd, Ord)]
pub enum PublisherPlatforms {
    AudienceNetwork,
    Facebook,
    Instagram,
    Messenger,
    Threads,
}

/// The platform that a value names.
pub open spec fn publisher_platform_of(j: Json) -> Option<PublisherPlatforms> {
    match text_of(Some(j)) {
        Some(t) => if t == "audience_network"@ {
            Some(PublisherPlatforms::AudienceNetwork)
        } else if t == "facebook"@ {
            Some(PublisherPlatforms::Facebook)
        } else if t == "instagram"@ {
            Some(PublisherPlatforms::Instagram)
        } else if t == "messenger"@ {
            Some(PublisherPlatforms::Messenger)
        } else if t == "threads"@ {
            Some(PublisherPlatforms::Threads)
        } else {
            None
        },
        None => None,
    }
}

impl PublisherPlatforms {
    /// Reads a platform.
    pub fn decode(j: &Json) -> (r: Result<PublisherPlatforms, DecodeError>)
        ensures
            match r {
                Ok(x) => publisher_platform_of(*j) == Some(x),
                Err(_) => publisher_platform_of(*j) is None,
            },
    {
        let t = required_text(Some(j))?;
        if same_text(t.as_str(), "audience_network") {
            Ok(PublisherPlatforms::AudienceNetwork)
        } else if same_text(t.as_str(), "facebook") {
            Ok(PublisherPlatforms::Facebook)
        } else if same_text(t.as_str(), "instagram") {
            Ok(PublisherPlatforms::Instagram)
        } else if same_text(t.as_str(), "messenger") {
            Ok(PublisherPlatforms::Messenger)
        } else if same_text(t.as_str(), "threads") {
            Ok(PublisherPlatforms::Threads)
        } else {
            Err(DecodeError::UnexpectedShape)
        }
    }
}

/// The gender that an ad targets.
#[derive(Clone, Copy, Debug, PartialEq, Eq, Structural, PartialOrd, Ord)]
pub enum TargetGender {
    Women,
    Men,
    All,
}

/// The target gender that a value names.
pub open spec fn target_gender_of(j: Json) -> Option<TargetGender> {
    match text_of(Some(j)) {
        Some(t) => if t == "Women"@ {
            Some(TargetGender::Women)
        } else if t == "Men"@ {
            Some(TargetGender::Men)
        } else if t == "All"@ {
            Some(TargetGender::All)
        } else {
            None
        },
        None => None,
    }
}

impl TargetGender {
    /// Reads a target gender.
    pub fn decode(j: &Json) -> (r: Result<TargetGender, DecodeError>)
        ensures
            match r {
                Ok(x) => target_gender_of(*j) == Some(x),
                Err(_) => target_gender_of(*j) is None,
            },
    {
        let t = required_text(Some(j))?;
        if same_text(t.as_str(), "Women") {
            Ok(TargetGender::Women)
        } else if same_text(t.as_str(), "Men") {
            Ok(TargetGender::Men)
        } else if same_text(t.as_str(), "All") {
            Ok(TargetGender::All)
        } else {
            Err(DecodeError::UnexpectedShape)
        }
    }
}

/// The kind of a targeted location; any kind not listed is `Unknown`.
#[derive(Clone, Copy, Debug, PartialEq, Eq, Structural, PartialOrd, Ord)]
pub enum LocationType {
    Countries,
    CountryGroups,
    Regions,
    MultiCity,
    County,
    City,
    Neighborhood,
    Unknown,
}

/// The location kind that a value names.
pub open spec fn location_type_of(j: Json) -> Option<LocationType> {
    match text_of(Some(j)) {
        Some(t) => if t == "countries"@ {
            Some(LocationType::Countries)
        } else if t == "country_groups"@ {
            Some(LocationType::CountryGroups)
        } else if t == "regions"@ {
            Some(LocationType::Regions)
        } else if t == "multi_city"@ {
            Some(LocationType::MultiCity)
        } else if t == "COUNTY"@ {
            Some(LocationType::County)
        } else if t == "CITY"@ {
            Some(LocationType::City)
        } else if t == "NEIGHBORHOOD"@ {
            Some(LocationType::Neighborhood)
        } else {
            Some(LocationType::Unknown)
        },
        None => None,
    }
}

impl LocationType {
    /// Reads a location kind.
    pub fn decode(j: &Json) -> (r: Result<LocationType, DecodeError>)
        ensures
            match r {
                Ok(x) => location_type_of(*j) == Some(x),
                Err(_) => location_type_of(*j) is None,
            },
    {
        let t = required_text(Some(j))?;
        if same_text(t.as_str(), "countries") {
            Ok(LocationType::Countries)
        } else if same_text(t.as_str(), "country_groups") {
            Ok(LocationType::CountryGroups)
        } else if same_text(t.as_str(), "regions") {
            Ok(LocationType::Regions)
        } else if same_text(t.as_str(), "multi_city") {
            Ok(LocationType::MultiCity)
        } else if same_text(t.as_str(), "COUNTY") {
            Ok(LocationType::County)
        } else if same_text(t.as_str(), "CITY") {
            Ok(LocationType::City)
        } else if same_text(t.as_str(), "NEIGHBORHOOD") {
            Ok(LocationType::Neighborhood)
        } else {
            Ok(LocationType::Unknown)
        }
    }
}

/// A location that an ad targets or excludes.
#[derive(Clone, Debug, PartialEq, Eq)]
pub struct TargetLocation {
    pub name: String,
    pub num_obfuscated: usize,
    pub location_type: LocationType,
    pub excluded: bool,
}

/// Whether a value has the shape of a targeted location.
pub open spec fn target_location_ok(j: Json) -> bool {
    match members(j) {
        Some(es) => only_members(es, seq!["name"@, "num_obfuscated"@, "type"@, "excluded"@])
            && text_of(member(es, "name"@)) is Some && unsigned_of(
            member(es, "num_obfuscated"@),
            usize::MAX as u64,
        ) is Some && member(es, "type"@) is Some && location_type_of(member(es, "type"@)->0) is Some
            && bool_of(member(es, "excluded"@)) is Some,
        None => false,
    }
}

/// Whether `x` is the targeted location that a value describes.
pub open spec fn target_location_matches(j: Json, x: TargetLocation) -> bool {
    let es = members(j)->0;
    &&& text_of(member(es, "name"@)) == Some(x.name@)
    &&& unsigned_of(member(es, "num_obfuscated"@), usize::MAX as u64) == Some(x.num_obfuscated as u64)
    &&& location_type_of(member(es, "type"@)->0) == Some(x.location_type)
    &&& bool_of(member(es, "excluded"@)) == Some(x.excluded)
}

impl TargetLocation {
    /// Reads a targeted location.
    pub fn decode(j: &Json) -> (r: Result<TargetLocation, DecodeError>)
        ensures
            match r {
                Ok(x) => target_location_ok(*j) && target_location_matches(*j, x),
                Err(_) => !target_location_ok(*j),
            },
    {
        let es = match j {
            Json::Object(es) => es,
            _ => return Err(DecodeError::UnexpectedShape),
        };
        let allowed = vec!["name", "num_obfuscated", "type", "excluded"];
        assert(allowed@.map_values(|a: &str| a@) =~= seq![
            "name"@,
            "num_obfuscated"@,
            "type"@,
            "excluded"@,
        ]);
        if !has_only_members(es, &allowed) {
            return Err(DecodeError::UnexpectedShape);
        }
        let name = required_text(get_member(es, "name"))?;
        let num_obfuscated = required_unsigned(get_member(es, "num_obfuscated"), usize::MAX as u64)?;
        let location_type = match get_member(es, "type") {
            Some(t) => LocationType::decode(t)?,
            None => return Err(DecodeError::UnexpectedShape),
        };
        let excluded = required_bool(get_member(es, "excluded"))?;
        Ok(TargetLocation { name, num_obfuscated: num_obfuscated as usize, location_type, excluded })
    }
}

/// A keyed value that may be missing.
#[derive(Clone, Debug, PartialEq, Eq)]
pub struct KeyValue<K, V> {
    pub key: K,
    pub value: Option<V>,
}

/// Whether a value has the shape of a keyed count.
pub open spec fn key_count_ok(j: Json) -> bool {
    match members(j) {
        Some(es) => only_members(es, seq!["key"@, "value"@]) && text_of(member(es, "key"@)) is Some
            && optional_unsigned_ok(member(es, "value"@), usize::MAX as u64),
        None => false,
    }
}

/// Whether `x` is the keyed count that a value describes.
pub open spec fn key_count_matches(j: Json, x: KeyValue<String, usize>) -> bool {
    let es = members(j)->0;
    text_of(member(es, "key"@)) == Some(x.key@) && x.value == count_of(member(es, "value"@))
}

impl KeyValue<String, usize> {
    /// Reads a keyed count.
    pub fn decode(j: &Json) -> (r: Result<KeyValue<String, usize>, DecodeError>)
        ensures
            match r {
                Ok(x) => key_count_ok(*j) && key_count_matches(*j, x),
                Err(_) => !key_count_ok(*j),
            },
    {
        let es = match j {
            Json::Object(es) => es,
            _ => return Err(DecodeError::UnexpectedShape),
        };
        let allowed = vec!["key", "value"];
        assert(allowed@.map_values(|a: &str| a@) =~= seq!["key"@, "value"@]);
        if !has_only_members(es, &allowed) {
            return Err(DecodeError::UnexpectedShape);
        }
        let key = required_text(get_member(es, "key"))?;
        let value = decode_count(get_member(es, "value"))?;
        Ok(KeyValue { key, value })
    }
}

/// An optional array of country breakdowns.
fn decode_country_breakdowns_list(j: Option<&Json>) -> (r: Result<Option<Vec<CountryAgeGenderBreakdowns>>, DecodeError>)
    ensures
        match r {
            Ok(v) => optional_list_ok(present(j), |v: Json| country_breakdowns_ok(v)) && optional_list_matches(present(j), v, |v: Json, x: CountryAgeGenderBreakdowns| country_breakdowns_ok(v) && country_breakdowns_matches(v, x)),
            Err(_) => !optional_list_ok(present(j), |v: Json| country_breakdowns_ok(v)),
        },
{
    let items = match j {
        None => return Ok(None),
        Some(Json::Null) => return Ok(None),
        Some(Json::Array(items)) => items,
        _ => return Err(DecodeError::UnexpectedShape),
    };
    let ghost okf = |v: Json| country_breakdowns_ok(v);
    let ghost relf = |v: Json, x: CountryAgeGenderBreakdowns| country_breakdowns_ok(v) && country_breakdowns_matches(v, x);
    let mut out: Vec<CountryAgeGenderBreakdowns> = Vec::new();
    let mut i: usize = 0;
    while i < items.len()
        invariant
            present(j) == Some(Json::Array(*items)),
            okf == (|v: Json| country_breakdowns_ok(v)),
            relf == (|v: Json, x: CountryAgeGenderBreakdowns| country_breakdowns_ok(v) && country_breakdowns_matches(v, x)),
            i <= items@.len(),
            out@.len() == i,
            forall|k: int| 0 <= k < i ==> okf(#[trigger] items@[k]),
            forall|k: int| 0 <= k < i ==> relf(#[trigger] items@[k], out@[k]),
        decreases items@.len() - i,
    {
        match CountryAgeGenderBreakdowns::decode(&items[i]) {
            Ok(x) => {
                out.push(x);
            },
            Err(e) => {
                assert(!okf(items@[i as int]));
                let ghost arr = Json::Array(*items);
                assert(arr->Array_0 == *items);
                assert(list_ok(Some(arr), okf) ==> okf(items@[i as int]));
                assert(!list_ok(Some(arr), okf));
                return Err(e);
            },
        }
        i = i + 1;
    }
    Ok(Some(out))
}

/// An optional array of beneficiaries and payers.
fn decode_beneficiary_payer_list(j: Option<&Json>) -> (r: Result<Option<Vec<BeneficiaryPayer>>, DecodeError>)
    ensures
        match r {
            Ok(v) => optional_list_ok(present(j), |v: Json| beneficiary_payer_ok(v)) && optional_list_matches(present(j), v, |v: Json, x: BeneficiaryPayer| beneficiary_payer_ok(v) && beneficiary_payer_matches(v, x)),
            Err(_) => !optional_list_ok(present(j), |v: Json| beneficiary_payer_ok(v)),
        },
{
    let items = match j {
        None => return Ok(None),
        Some(Json::Null) => return Ok(None),
        Some(Json::Array(items)) => items,
        _ => return Err(DecodeError::UnexpectedShape),
    };
    let ghost okf = |v: Json| beneficiary_payer_ok(v);
    let ghost relf = |v: Json, x: BeneficiaryPayer| beneficiary_payer_ok(v) && beneficiary_payer_matches(v, x);
    let mut out: Vec<BeneficiaryPayer> = Vec::new();
    let mut i: usize = 0;
    while i < items.len()
        invariant
            present(j) == Some(Json::Array(*items)),
            okf == (|v: Json| beneficiary_payer_ok(v)),
            relf == (|v: Json, x: BeneficiaryPayer| beneficiary_payer_ok(v) && beneficiary_payer_matches(v, x)),
            i <= items@.len(),
            out@.len() == i,
            forall|k: int| 0 <= k < i ==> okf(#[trigger] items@[k]),
            forall|k: int| 0 <= k < i ==> relf(#[trigger] items@[k], out@[k]),
        decreases items@.len() - i,
    {
        match BeneficiaryPayer::decode(&items[i]) {
            Ok(x) => {
                out.push(x);
            },
            Err(e) => {
                assert(!okf(items@[i as int]));
                let ghost arr = Json::Array(*items);
                assert(arr->Array_0 == *items);
                assert(list_ok(Some(arr), okf) ==> okf(items@[i as int]));
                assert(!list_ok(Some(arr), okf));
                return Err(e);
            },
        }
        i = i + 1;
    }
    Ok(Some(out))
}

/// An optional array of platforms.
fn decode_platform_list(j: Option<&Json>) -> (r: Result<Option<Vec<PublisherPlatforms>>, DecodeError>)
    ensures
        match r {
            Ok(v) => optional_list_ok(present(j), |v: Json| publisher_platform_of(v) is Some) && optional_list_matches(present(j), v, |v: Json, x: PublisherPlatforms| publisher_platform_of(v) == Some(x)),
            Err(_) => !optional_list_ok(present(j), |v: Json| publisher_platform_of(v) is Some),
        },
{
    let items = match j {
        None => return Ok(None),
        Some(Json::Null) => return Ok(None),
        Some(Json::Array(items)) => items,
        _ => return Err(DecodeError::UnexpectedShape),
    };
    let ghost okf = |v: Json| publisher_platform_of(v) is Some;
    let ghost relf = |v: Json, x: PublisherPlatforms| publisher_platform_of(v) == Some(x);
    let mut out: Vec<PublisherPlatforms> = Vec::new();
    let mut i: usize = 0;
    while i < items.len()
        invariant
            present(j) == Some(Json::Array(*items)),
            okf == (|v: Json| publisher_platform_of(v) is Some),
            relf == (|v: Json, x: PublisherPlatforms| publisher_platform_of(v) == Some(x)),
            i <= items@.len(),
            out@.len() == i,
            forall|k: int| 0 <= k < i ==> okf(#[trigger] items@[k]),
            forall|k: int| 0 <= k < i ==> relf(#[trigger] items@[k], out@[k]),
        decreases items@.len() - i,
    {
        match PublisherPlatforms::decode(&items[i]) {
            Ok(x) => {
                out.push(x);
            },
            Err(e) => {
                assert(!okf(items@[i as int]));
                let ghost arr = Json::Array(*items);
                assert(arr->Array_0 == *items);
                assert(list_ok(Some(arr), okf) ==> okf(items@[i as int]));
                assert(!list_ok(Some(arr), okf));
                return Err(e);
            },
        }
        i = i + 1;
    }
    Ok(Some(out))
}

/// An optional array of targeted locations.
fn decode_target_location_list(j: Option<&Json>) -> (r: Result<Option<Vec<TargetLocation>>, DecodeError>)
    ensures
        match r {
            Ok(v) => optional_list_ok(present(j), |v: Json| target_location_ok(v)) && optional_list_matches(present(j), v, |v: Json, x: TargetLocation| target_location_ok(v) && target_location_matches(v, x)),
            Err(_) => !optional_list_ok(present(j), |v: Json| target_location_ok(v)),
        },
{
    let items = match j {
        None => return Ok(None),
        Some(Json::Null) => return Ok(None),
        Some(Json::Array(items)) => items,
        _ => return Err(DecodeError::UnexpectedShape),
    };
    let ghost okf = |v: Json| target_location_ok(v);
    let ghost relf = |v: Json, x: TargetLocation| target_location_ok(v) && target_location_matches(v, x);
    let mut out: Vec<TargetLocation> = Vec::new();
    let mut i: usize = 0;
    while i < items.len()
        invariant
            present(j) == Some(Json::Array(*items)),
            okf == (|v: Json| target_location_ok(v)),
            relf == (|v: Json, x: TargetLocation| target_location_ok(v) && target_location_matches(v, x)),
            i <= items@.len(),
            out@.len() == i,
            forall|k: int| 0 <= k < i ==> okf(#[trigger] items@[k]),
            forall|k: int| 0 <= k < i ==> relf(#[trigger] items@[k], out@[k]),
        decreases items@.len() - i,
    {
        match TargetLocation::decode(&items[i]) {
            Ok(x) => {
                out.push(x);
            },
            Err(e) => {
                assert(!okf(items@[i as int]));
                let ghost arr = Json::Array(*items);
                assert(arr->Array_0 == *items);
                assert(list_ok(Some(arr), okf) ==> okf(items@[i as int]));
                assert(!list_ok(Some(arr), okf));
                return Err(e);
            },
        }
        i = i + 1;
    }
    Ok(Some(out))
}

/// An optional array of keyed counts.
fn decode_key_count_list(j: Option<&Json>) -> (r: Result<Option<Vec<KeyValue<String, usize>>>, DecodeError>)
    ensures
        match r {
            Ok(v) => optional_list_ok(present(j), |v: Json| key_count_ok(v)) && optional_list_matches(present(j), v, |v: Json, x: KeyValue<String, usize>| key_count_ok(v) && key_count_matches(v, x)),
            Err(_) => !optional_list_ok(present(j), |v: Json| key_count_ok(v)),
        },
{
    let items = match j {
        None => return Ok(None),
        Some(Json::Null) => return Ok(None),
        Some(Json::Array(items)) => items,
        _ => return Err(DecodeError::UnexpectedShape),
    };
    let ghost okf = |v: Json| key_count_ok(v);
    let ghost relf = |v: Json, x: KeyValue<String, usize>| key_count_ok(v) && key_count_matches(v, x);
    let mut out: Vec<KeyValue<String, usize>> = Vec::new();
    let mut i: usize = 0;
    while i < items.len()
        invariant
            present(j) == Some(Json::Array(*items)),
            okf == (|v: Json| key_count_ok(v)),
            relf == (|v: Json, x: KeyValue<String, usize>| key_count_ok(v) && key_count_matches(v, x)),
            i <= items@.len(),
            out@.len() == i,
            forall|k: int| 0 <= k < i ==> okf(#[trigger] items@[k]),
            forall|k: int| 0 <= k < i ==> relf(#[trigger] items@[k], out@[k]),
        decreases items@.len() - i,
    {
        match KeyValue::<String, usize>::decode(&items[i]) {
            Ok(x) => {
                out.push(x);
            },
            Err(e) => {
                assert(!okf(items@[i as int]));
                let ghost arr = Json::Array(*items);
                assert(arr->Array_0 == *items);
                assert(list_ok(Some(arr), okf) ==> okf(items@[i as int]));
                assert(!list_ok(Some(arr), okf));
                return Err(e);
            },
        }
        i = i + 1;
    }
    Ok(Some(out))
}

/// A calendar date.
#[derive(Clone, Copy, Debug, PartialEq, Eq, Structural, PartialOrd, Ord, Hash)]
pub struct Date {
    pub year: i32,
    pub month: u32,
    pub day: u32,
}

/// The calendar date that chrono reads from a text, if any.
pub uninterp spec fn calendar_date_of(s: Seq<char>) -> Option<Date>;

/// Relies on chrono's `NaiveDate` parsing of `YYYY-MM-DD` text and on its
/// `year`, `month` (1 to 12) and `day` (1 to 31) accessors; the result depends
/// on the text alone.
#[verifier::external_body]
fn parse_calendar_date(s: &str) -> (r: Option<Date>)
    ensures
        r == calendar_date_of(s@),
        r matches Some(d) ==> 1 <= d.month <= 12 && 1 <= d.day <= 31,
{
    s.parse::<chrono::NaiveDate>().ok().map(|d| Date { year: d.year(), month: d.month(), day: d.day() })
}

/// The date of a present date string.
pub open spec fn date_of(j: Option<Json>) -> Option<Date> {
    match text_of(j) {
        Some(t) => calendar_date_of(t),
        None => None,
    }
}

/// Whether an optional date field is absent, null or a date string.
pub open spec fn optional_date_ok(j: Option<Json>) -> bool {
    j is None || j == Some(Json::Null) || date_of(j) is Some
}

/// The date of an optional date field.
pub open spec fn optional_date_of(j: Option<Json>) -> Option<Date> {
    if j is None || j == Some(Json::Null) {
        None
    } else {
        date_of(j)
    }
}

fn decode_date(j: Option<&Json>) -> (r: Result<Date, DecodeError>)
    ensures
        match r {
            Ok(d) => date_of(present(j)) == Some(d),
            Err(_) => date_of(present(j)) is None,
        },
{
    let t = required_text(j)?;
    match parse_calendar_date(t.as_str()) {
        Some(d) => Ok(d),
        None => Err(DecodeError::UnexpectedShape),
    }
}

fn decode_optional_date(j: Option<&Json>) -> (r: Result<Option<Date>, DecodeError>)
    ensures
        match r {
            Ok(d) => optional_date_ok(present(j)) && d == optional_date_of(present(j)),
            Err(_) => !optional_date_ok(present(j)),
        },
{
    match j {
        None => Ok(None),
        Some(Json::Null) => Ok(None),
        Some(v) => Ok(Some(decode_date(Some(v))?)),
    }
}

/// Whether an optional field is absent, null, or satisfies `ok`.
pub open spec fn optional_ok(j: Option<Json>, ok: spec_fn(Json) -> bool) -> bool {
    match j {
        None => true,
        Some(Json::Null) => true,
        Some(v) => ok(v),
    }
}

/// The value of an optional field that `of` reads.
pub open spec fn optional_of<T>(j: Option<Json>, of: spec_fn(Json) -> Option<T>) -> Option<T> {
    match j {
        None => None,
        Some(Json::Null) => None,
        Some(v) => of(v),
    }
}

fn decode_optional_bounds(j: Option<&Json>) -> (r: Result<Option<Bounds>, DecodeError>)
    ensures
        match r {
            Ok(b) => optional_ok(present(j), |v: Json| bounds_of(v) is Some) && b == optional_of(
                present(j),
                |v: Json| bounds_of(v),
            ),
            Err(_) => !optional_ok(present(j), |v: Json| bounds_of(v) is Some),
        },
{
    match j {
        None => Ok(None),
        Some(Json::Null) => Ok(None),
        Some(v) => Ok(Some(Bounds::decode(v)?)),
    }
}

fn decode_optional_gender(j: Option<&Json>) -> (r: Result<Option<TargetGender>, DecodeError>)
    ensures
        match r {
            Ok(g) => optional_ok(present(j), |v: Json| target_gender_of(v) is Some) && g == optional_of(
                present(j),
                |v: Json| target_gender_of(v),
            ),
            Err(_) => !optional_ok(present(j), |v: Json| target_gender_of(v) is Some),
        },
{
    match j {
        None => Ok(None),
        Some(Json::Null) => Ok(None),
        Some(v) => Ok(Some(TargetGender::decode(v)?)),
    }
}

/// Whether an optional field of ages is absent, null, or an array of integer
/// strings that fit in `usize`.
pub open spec fn optional_ages_ok(j: Option<Json>) -> bool {
    match j {
        None => true,
        Some(Json::Null) => true,
        Some(Json::Array(items)) => forall|i: int|
            0 <= i < items@.len() ==> usize_str_of(Some(#[trigger] items@[i])) is Some,
        _ => false,
    }
}

/// Whether `v` are the ages that an optional field describes.
pub open spec fn optional_ages_match(j: Option<Json>, v: Option<Vec<usize>>) -> bool {
    match v {
        None => j is None || j == Some(Json::Null),
        Some(xs) => match j {
            Some(Json::Array(items)) => items@.len() == xs@.len() && forall|i: int|
                0 <= i < xs@.len() ==> usize_str_of(Some(#[trigger] items@[i])) == Some(
                    xs@[i] as u64,
                ),
            _ => false,
        },
    }
}

fn decode_optional_ages(j: Option<&Json>) -> (r: Result<Option<Vec<usize>>, DecodeError>)
    ensures
        match r {
            Ok(v) => optional_ages_ok(present(j)) && optional_ages_match(present(j), v),
            Err(_) => !optional_ages_ok(present(j)),
        },
{
    let values = match decode_optional_integer_str_array(j) {
        Ok(Some(values)) => values,
        Ok(None) => return Ok(None),
        Err(_) => return Err(DecodeError::UnexpectedShape),
    };
    let items = match j {
        Some(Json::Array(items)) => items,
        _ => return Err(DecodeError::UnexpectedShape),
    };
    let mut out: Vec<usize> = Vec::new();
    let mut i: usize = 0;
    while i < values.len()
        invariant
            present(j) == Some(Json::Array(*items)),
            values@.len() == items@.len(),
            forall|k: int| 0 <= k < values@.len() ==> Some(#[trigger] values@[k]) == integer_str_of(items@[k]),
            i <= values@.len(),
            out@.len() == i,
            forall|k: int| 0 <= k < i ==> usize_str_of(Some(#[trigger] items@[k])) == Some(out@[k] as u64),
        decreases values@.len() - i,
    {
        if values[i] > usize::MAX as u64 {
            let ghost arr = Json::Array(*items);
            assert(arr->Array_0 == *items);
            assert(usize_str_of(Some(items@[i as int])) is None);
            assert(optional_ages_ok(Some(arr)) ==> usize_str_of(Some(items@[i as int])) is Some);
            return Err(DecodeError::UnexpectedShape);
        }
        out.push(values[i] as usize);
        i = i + 1;
    }
    Ok(Some(out))
}

/// An ad of the archive API.
#[derive(Debug)]
pub struct Ad {
    pub id: u64,
    pub page_id: u64,
    pub page_name: String,
    pub ad_snapshot_url: String,
    pub ad_creation_time: Date,
    pub ad_delivery_start_time: Date,
    pub ad_delivery_stop_time: Option<Date>,
    pub ad_creative_bodies: Option<Vec<String>>,
    pub ad_creative_link_titles: Option<Vec<String>>,
    pub ad_creative_link_captions: Option<Vec<String>>,
    pub ad_creative_link_descriptions: Option<Vec<String>>,
    pub age_country_gender_reach_breakdown: Option<Vec<CountryAgeGenderBreakdowns>>,
    pub beneficiary_payers: Option<Vec<BeneficiaryPayer>>,
    pub eu_total_reach: Option<usize>,
    pub languages: Option<Vec<String>>,
    pub publisher_platforms: Option<Vec<PublisherPlatforms>>,
    pub target_ages: Option<Vec<usize>>,
    pub target_gender: Option<TargetGender>,
    pub target_locations: Option<Vec<TargetLocation>>,
    pub total_reach_by_location: Option<Vec<KeyValue<String, usize>>>,
    pub impressions: Option<Bounds>,
    pub spend: Option<Bounds>,
    pub br_total_reach: Option<()>,
    pub bylines: Option<String>,
    pub currency: Option<String>,
    pub delivery_by_region: Option<Json>,
    pub demographic_distribution: Option<Json>,
    pub estimated_audience_size: Option<Bounds>,
}

/// The members that an ad may have.
pub open spec fn ad_fields() -> Seq<Seq<char>> {
    seq![
            "id"@,
            "page_id"@,
            "page_name"@,
            "ad_snapshot_url"@,
            "ad_creation_time"@,
            "ad_delivery_start_time"@,
            "ad_delivery_stop_time"@,
            "ad_creative_bodies"@,
            "ad_creative_link_titles"@,
            "ad_creative_link_captions"@,
            "ad_creative_link_descriptions"@,
            "age_country_gender_reach_breakdown"@,
            "beneficiary_payers"@,
            "eu_total_reach"@,
            "languages"@,
            "publisher_platforms"@,
            "target_ages"@,
            "target_gender"@,
            "target_locations"@,
            "total_reach_by_location"@,
            "impressions"@,
            "spend"@,
            "br_total_reach"@,
            "bylines"@,
            "currency"@,
            "delivery_by_region"@,
            "demographic_distribution"@,
            "estimated_audience_size"@,
        ]
}

/// Whether a value has the shape of an ad: only the ad's members, each of
/// its type, the optional ones absent or null when missing.
pub open spec fn ad_ok(j: Json) -> bool {
    match members(j) {
        Some(es) => {
            &&& only_members(es, ad_fields())
            &&& member(es, "id"@) is Some && integer_str_of(member(es, "id"@)->0) is Some
            &&& member(es, "page_id"@) is Some && integer_str_of(member(es, "page_id"@)->0) is Some
            &&& text_of(member(es, "page_name"@)) is Some
            &&& text_of(member(es, "ad_snapshot_url"@)) is Some
            &&& date_of(member(es, "ad_creation_time"@)) is Some
            &&& date_of(member(es, "ad_delivery_start_time"@)) is Some
            &&& optional_date_ok(member(es, "ad_delivery_stop_time"@))
            &&& optional_text_list_ok(member(es, "ad_creative_bodies"@))
            &&& optional_text_list_ok(member(es, "ad_creative_link_titles"@))
            &&& optional_text_list_ok(member(es, "ad_creative_link_captions"@))
            &&& optional_text_list_ok(member(es, "ad_creative_link_descriptions"@))
            &&& optional_list_ok(member(es, "age_country_gender_reach_breakdown"@), |v: Json| country_breakdowns_ok(v))
            &&& optional_list_ok(member(es, "beneficiary_payers"@), |v: Json| beneficiary_payer_ok(v))
            &&& optional_unsigned_ok(member(es, "eu_total_reach"@), usize::MAX as u64)
            &&& optional_text_list_ok(member(es, "languages"@))
            &&& optional_list_ok(member(es, "publisher_platforms"@), |v: Json| publisher_platform_of(v) is Some)
            &&& optional_ages_ok(member(es, "target_ages"@))
            &&& optional_ok(member(es, "target_gender"@), |v: Json| target_gender_of(v) is Some)
            &&& optional_list_ok(member(es, "target_locations"@), |v: Json| target_location_ok(v))
            &&& optional_list_ok(member(es, "total_reach_by_location"@), |v: Json| key_count_ok(v))
            &&& optional_ok(member(es, "impressions"@), |v: Json| bounds_of(v) is Some)
            &&& optional_ok(member(es, "spend"@), |v: Json| bounds_of(v) is Some)
            &&& (member(es, "br_total_reach"@) is None || member(es, "br_total_reach"@) == Some(Json::Null))
            &&& optional_text_ok(member(es, "bylines"@))
            &&& optional_text_ok(member(es, "currency"@))
            &&& optional_ok(member(es, "estimated_audience_size"@), |v: Json| bounds_of(v) is Some)
        },
        None => false,
    }
}

/// A value kept as it is: absent or null is `None`.
pub open spec fn kept_value(j: Option<Json>) -> Option<Json> {
    match j {
        Some(Json::Null) => None,
        _ => j,
    }
}

/// Whether `a` is the ad that a value of that shape describes.
pub open spec fn ad_matches(j: Json, a: Ad) -> bool {
    let es = members(j)->0;
    &&& integer_str_of(member(es, "id"@)->0) == Some(a.id)
    &&& integer_str_of(member(es, "page_id"@)->0) == Some(a.page_id)
    &&& text_of(member(es, "page_name"@)) == Some(a.page_name@)
    &&& text_of(member(es, "ad_snapshot_url"@)) == Some(a.ad_snapshot_url@)
    &&& date_of(member(es, "ad_creation_time"@)) == Some(a.ad_creation_time)
    &&& date_of(member(es, "ad_delivery_start_time"@)) == Some(a.ad_delivery_start_time)
    &&& optional_date_of(member(es, "ad_delivery_stop_time"@)) == a.ad_delivery_stop_time
    &&& optional_text_list_matches(member(es, "ad_creative_bodies"@), a.ad_creative_bodies)
    &&& optional_text_list_matches(member(es, "ad_creative_link_titles"@), a.ad_creative_link_titles)
    &&& optional_text_list_matches(member(es, "ad_creative_link_captions"@), a.ad_creative_link_captions)
    &&& optional_text_list_matches(member(es, "ad_creative_link_descriptions"@), a.ad_creative_link_descriptions)
    &&& optional_list_matches(
        member(es, "age_country_gender_reach_breakdown"@),
        a.age_country_gender_reach_breakdown,
        |v: Json, x: CountryAgeGenderBreakdowns| country_breakdowns_ok(v) && country_breakdowns_matches(v, x),
    )
    &&& optional_list_matches(
        member(es, "beneficiary_payers"@),
        a.beneficiary_payers,
        |v: Json, x: BeneficiaryPayer| beneficiary_payer_ok(v) && beneficiary_payer_matches(v, x),
    )
    &&& a.eu_total_reach == count_of(member(es, "eu_total_reach"@))
    &&& optional_text_list_matches(member(es, "languages"@), a.languages)
    &&& optional_list_matches(
        member(es, "publisher_platforms"@),
        a.publisher_platforms,
        |v: Json, x: PublisherPlatforms| publisher_platform_of(v) == Some(x),
    )
    &&& optional_ages_match(member(es, "target_ages"@), a.target_ages)
    &&& a.target_gender == optional_of(member(es, "target_gender"@), |v: Json| target_gender_of(v))
    &&& optional_list_matches(
        member(es, "target_locations"@),
        a.target_locations,
        |v: Json, x: TargetLocation| target_location_ok(v) && target_location_matches(v, x),
    )
    &&& optional_list_matches(
        member(es, "total_reach_by_location"@),
        a.total_reach_by_location,
        |v: Json, x: KeyValue<String, usize>| key_count_ok(v) && key_count_matches(v, x),
    )
    &&& a.impressions == optional_of(member(es, "impressions"@), |v: Json| bounds_of(v))
    &&& a.spend == optional_of(member(es, "spend"@), |v: Json| bounds_of(v))
    &&& a.br_total_reach is None
    &&& a.bylines.deep_view() == optional_text_of(member(es, "bylines"@))
    &&& a.currency.deep_view() == optional_text_of(member(es, "currency"@))
    &&& a.delivery_by_region == kept_value(member(es, "delivery_by_region"@))
    &&& a.demographic_distribution == kept_value(member(es, "demographic_distribution"@))
    &&& a.estimated_audience_size == optional_of(member(es, "estimated_audience_size"@), |v: Json| bounds_of(v))
}

/// A value kept as it is; null is `None`.
fn kept(value: Json) -> (r: Option<Json>)
    ensures
        r == kept_value(Some(value)),
{
    match value {
        Json::Null => None,
        v => Some(v),
    }
}

impl Ad {
    /// Reads an ad.
    pub fn decode(j: Json) -> (r: Result<Ad, DecodeError>)
        ensures
            match r {
                Ok(a) => ad_ok(j) && ad_matches(j, a),
                Err(_) => !ad_ok(j),
            },
    {
        let ghost whole = j;
        let mut es = match j {
            Json::Object(es) => es,
            _ => return Err(DecodeError::UnexpectedShape),
        };
        assert(members(whole) == Some(es@));
        let allowed = vec![
            "id",
            "page_id",
            "page_name",
            "ad_snapshot_url",
            "ad_creation_time",
            "ad_delivery_start_time",
            "ad_delivery_stop_time",
            "ad_creative_bodies",
            "ad_creative_link_titles",
            "ad_creative_link_captions",
            "ad_creative_link_descriptions",
            "age_country_gender_reach_breakdown",
            "beneficiary_payers",
            "eu_total_reach",
            "languages",
            "publisher_platforms",
            "target_ages",
            "target_gender",
            "target_locations",
            "total_reach_by_location",
            "impressions",
            "spend",
            "br_total_reach",
            "bylines",
            "currency",
            "delivery_by_region",
            "demographic_distribution",
            "estimated_audience_size",
        ];
        assert(allowed@.map_values(|a: &str| a@) =~= ad_fields());
        if !has_only_members(&es, &allowed) {
            return Err(DecodeError::UnexpectedShape);
        }
        let id = match get_member(&es, "id") {
            Some(v) => match decode_integer_str(v) {
                Ok(n) => n,
                Err(_) => return Err(DecodeError::UnexpectedShape),
            },
            None => return Err(DecodeError::UnexpectedShape),
        };
        let page_id = match get_member(&es, "page_id") {
            Some(v) => match decode_integer_str(v) {
                Ok(n) => n,
                Err(_) => return Err(DecodeError::UnexpectedShape),
            },
            None => return Err(DecodeError::UnexpectedShape),
        };
        let page_name = required_text(get_member(&es, "page_name"))?;
        let ad_snapshot_url = required_text(get_member(&es, "ad_snapshot_url"))?;
        let ad_creation_time = decode_date(get_member(&es, "ad_creation_time"))?;
        let ad_delivery_start_time = decode_date(get_member(&es, "ad_delivery_start_time"))?;
        let ad_delivery_stop_time = decode_optional_date(get_member(&es, "ad_delivery_stop_time"))?;
        let ad_creative_bodies = optional_text_list(get_member(&es, "ad_creative_bodies"))?;
        let ad_creative_link_titles = optional_text_list(get_member(&es, "ad_creative_link_titles"))?;
        let ad_creative_link_captions = optional_text_list(
            get_member(&es, "ad_creative_link_captions"),
        )?;
        let ad_creative_link_descriptions = optional_text_list(
            get_member(&es, "ad_creative_link_descriptions"),
        )?;
        let age_country_gender_reach_breakdown = decode_country_breakdowns_list(
            get_member(&es, "age_country_gender_reach_breakdown"),
        )?;
        let beneficiary_payers = decode_beneficiary_payer_list(
            get_member(&es, "beneficiary_payers"),
        )?;
        let eu_total_reach = decode_count(get_member(&es, "eu_total_reach"))?;
        let languages = optional_text_list(get_member(&es, "languages"))?;
        let publisher_platforms = decode_platform_list(get_member(&es, "publisher_platforms"))?;
        let target_ages = decode_optional_ages(get_member(&es, "target_ages"))?;
        let target_gender = decode_optional_gender(get_member(&es, "target_gender"))?;
        let target_locations = decode_target_location_list(get_member(&es, "target_locations"))?;
        let total_reach_by_location = decode_key_count_list(
            get_member(&es, "total_reach_by_location"),
        )?;
        let impressions = decode_optional_bounds(get_member(&es, "impressions"))?;
        let spend = decode_optional_bounds(get_member(&es, "spend"))?;
        match get_member(&es, "br_total_reach") {
            None => {},
            Some(Json::Null) => {},
            Some(_) => return Err(DecodeError::UnexpectedShape),
        }
        let bylines = optional_text(get_member(&es, "bylines"))?;
        let currency = optional_text(get_member(&es, "currency"))?;
        let estimated_audience_size = decode_optional_bounds(
            get_member(&es, "estimated_audience_size"),
        )?;
        let region_at = last_member_index(&es, "delivery_by_region");
        let demographic_at = last_member_index(&es, "demographic_distribution");
        let ghost before = es@;
        let mut delivery_by_region: Option<Json> = None;
        let mut demographic_distribution: Option<Json> = None;
        match (region_at, demographic_at) {
            (Some(a), Some(b)) => {
                if a > b {
                    let (_, first) = es.remove(a);
                    let (_, second) = es.remove(b);
                    assert(first == before[a as int].1);
                    assert(second == before[b as int].1);
                    delivery_by_region = kept(first);
                    demographic_distribution = kept(second);
                } else {
                    assert(a != b) by {
                        reveal_strlit("delivery_by_region");
                        reveal_strlit("demographic_distribution");
                        assert("delivery_by_region"@.len() != "demographic_distribution"@.len());
                    }
                    let (_, first) = es.remove(b);
                    let (_, second) = es.remove(a);
                    assert(first == before[b as int].1);
                    assert(second == before[a as int].1);
                    demographic_distribution = kept(first);
                    delivery_by_region = kept(second);
                }
            },
            (Some(a), None) => {
                let (_, value) = es.remove(a);
                delivery_by_region = kept(value);
            },
            (None, Some(b)) => {
                let (_, value) = es.remove(b);
                demographic_distribution = kept(value);
            },
            (None, None) => {},
        }
        Ok(Ad {
            id,
            page_id,
            page_name,
            ad_snapshot_url,
            ad_creation_time,
            ad_delivery_start_time,
            ad_delivery_stop_time,
            ad_creative_bodies,
            ad_creative_link_titles,
            ad_creative_link_captions,
            ad_creative_link_descriptions,
            age_country_gender_reach_breakdown,
            beneficiary_payers,
            eu_total_reach,
            languages,
            publisher_platforms,
            target_ages,
            target_gender,
            target_locations,
            total_reach_by_location,
            impressions,
            spend,
            br_total_reach: None,
            bylines,
            currency,
            delivery_by_region,
            demographic_distribution,
            estimated_audience_size,
        })
    }
}

/// Whether `ads` are the ads that the records `items` describe.
pub open spec fn ads_match(items: Seq<Json>, ads: Seq<Ad>) -> bool {
    items.len() == ads.len() && forall|i: int|
        0 <= i < items.len() ==> ad_ok(#[trigger] items[i]) && ad_matches(items[i], ads[i])
}

impl Response<Json> {
    /// Reads the records of a success as ads; a failure stays as it is.
    pub fn into_ads(self) -> (r: Result<Response<Ad>, DecodeError>)
        ensures
            match self {
                Response::Success(s) => match r {
                    Ok(Response::Success(t)) => t.paging == s.paging && ads_match(s.data@, t.data@),
                    Ok(Response::Failure { .. }) => false,
                    Err(_) => exists|i: int| 0 <= i < s.data@.len() && !ad_ok(#[trigger] s.data@[i]),
                },
                Response::Failure { error } => r == Ok::<Response<Ad>, DecodeError>(
                    Response::Failure { error },
                ),
            },
    {
        let ghost me = self;
        match self {
            Response::Success(s) => {
                let ghost items = s.data@;
                assert(me->Success_0.data@ == items);
                let mut data = s.data;
                let mut ads: Vec<Ad> = Vec::new();
                while data.len() > 0
                    invariant
                        ads@.len() + data@.len() == items.len(),
                        data@ == items.subrange(ads@.len() as int, items.len() as int),
                        ads_match(items.subrange(0, ads@.len() as int), ads@),
                        me is Success,
                        me == self,
                        me->Success_0.data@ == items,
                    decreases data@.len(),
                {
                    let k = ads.len();
                    let item = data.remove(0);
                    assert(item == items[k as int]);
                    match Ad::decode(item) {
                        Ok(ad) => {
                            ads.push(ad);
                            assert(data@ =~= items.subrange(ads@.len() as int, items.len() as int));
                            assert forall|i: int| 0 <= i < k + 1 implies ad_ok(
                                #[trigger] items.subrange(0, k + 1)[i],
                            ) && ad_matches(items.subrange(0, k + 1)[i], ads@[i]) by {
                                if i < k {
                                    assert(items.subrange(0, k + 1)[i] == items.subrange(0, k as int)[i]);
                                }
                            }
                        },
                        Err(e) => {
                            assert(!ad_ok(items[k as int]));
                            assert(!ad_ok(me->Success_0.data@[k as int]));
                            return Err(e);
                        },
                    }
                }
                assert(items.subrange(0, ads@.len() as int) =~= items);
                Ok(Response::Success(ResponseSuccess { data: ads, paging: s.paging }))
            },
            Response::Failure { error } => Ok(Response::Failure { error }),
        }
    }
}

} // verus!

//! Captured request/response pairs and the order in which the archive lists them.
use crate::numeric::{decimal, encode_integer};
use crate::time::Instant;
use vstd::prelude::*;
use vstd::string::*;

verus! {

broadcast use vstd::seq_lib::group_to_multiset_ensures;

/// A canonical request: where it goes, when it was sent, and what it carries.
#[derive(Clone, Debug, PartialEq, Eq)]
pub struct Request {
    pub url: String,
    pub timestamp: Option<Instant>,
    pub headers: Vec<(String, String)>,
    pub body: Option<String>,
}

/// A captured response: its headers and its payload.
#[derive(Clone, Debug, PartialEq, Eq)]
pub struct Response<T> {
    pub headers: Vec<(String, String)>,
    pub data: T,
}

/// One captured round trip.
#[derive(Clone, Debug, PartialEq, Eq)]
pub struct Exchange<T> {
    pub request: Request,
    pub response: Response<T>,
}

/// An integer in decimal, with a leading `-` when negative.
pub open spec fn signed_decimal(n: int) -> Seq<char> {
    if n < 0 {
        seq!['-'] + decimal((-n) as nat)
    } else {
        decimal(n as nat)
    }
}

/// The name of the archive file of an exchange sent at an instant: its
/// milliseconds since the epoch, in decimal, then `.json`.
pub open spec fn archive_file_name(t: Instant) -> Seq<char> {
    signed_decimal(t.millis()) + ".json"@
}

/// Writes an integer in decimal.
pub fn encode_signed(n: i64) -> (r: String)
    ensures
        r@ == signed_decimal(n as int),
{
    if n < 0 {
        proof {
            reveal_strlit("-");
        }
        let magnitude = (0i128 - n as i128) as u64;
        let mut s = String::from_str("-");
        let digits = encode_integer(magnitude);
        s.append(digits.as_str());
        assert(s@ =~= signed_decimal(n as int));
        s
    } else {
        encode_integer(n as u64)
    }
}

impl<T> Exchange<T> {
    pub fn new(
        url: String,
        timestamp: Instant,
        request_headers: Vec<(String, String)>,
        request_body: Option<String>,
        response_headers: Vec<(String, String)>,
        data: T,
    ) -> (r: Self)
        ensures
            r.request.url == url,
            r.request.timestamp == Some(timestamp),
            r.request.headers == request_headers,
            r.request.body == request_body,
            r.response.headers == response_headers,
            r.response.data == data,
    {
        Exchange {
            request: Request { url, timestamp: Some(timestamp), headers: request_headers, body: request_body },
            response: Response { headers: response_headers, data },
        }
    }

    /// The name of this exchange's archive file, when it carries its time.
    pub fn file_name(&self) -> (r: Option<String>)
        ensures
            match self.request.timestamp {
                Some(t) => t.wf() && i64::MIN <= t.millis() <= i64::MAX ==> r is Some && r->0@
                    == archive_file_name(t),
                None => r is None,
            },
    {
        match self.request.timestamp {
            Some(t) => {
                if t.nanos >= 1_000_000_000 {
                    return None;
                }
                let ms = (t.seconds as i128) * 1000 + (t.nanos / 1_000_000) as i128;
                if ms < i64::MIN as i128 || ms > i64::MAX as i128 {
                    return None;
                }
                let mut name = encode_signed(ms as i64);
                name.append(".json");
                Some(name)
            },
            None => None,
        }
    }
}

/// A file of the archive and when it was last modified, in nanoseconds since
/// the epoch.
#[derive(Clone, Debug, PartialEq, Eq)]
pub struct ArchiveEntry {
    pub path: String,
    pub modified: i128,
}

/// Whether entries are ordered by modification time: newest first, or
/// oldest first.
pub open spec fn time_ordered(s: Seq<ArchiveEntry>, newest_first: bool) -> bool {
    forall|i: int, j: int|
        0 <= i < j < s.len() ==> if newest_first {
            s[i].modified >= s[j].modified
        } else {
            s[i].modified <= s[j].modified
        }
}

/// Whether entries are strictly ordered by modification time.
pub open spec fn strictly_time_ordered(s: Seq<ArchiveEntry>, newest_first: bool) -> bool {
    forall|i: int, j: int|
        0 <= i < j < s.len() ==> if newest_first {
            s[i].modified > s[j].modified
        } else {
            s[i].modified < s[j].modified
        }
}

/// Whether no two entries share a modification time.
pub open spec fn distinct_times(s: Seq<ArchiveEntry>) -> bool {
    forall|i: int, j: int| 0 <= i < s.len() && 0 <= j < s.len() && i != j ==> s[i].modified != s[j].modified
}

/// Archive ordering: files with distinct modification times are listed in
/// strictly descending time order when the newest come first, and strictly
/// ascending otherwise.
pub proof fn lemma_archive_order_strict(s: Seq<ArchiveEntry>, newest_first: bool)
    requires
        time_ordered(s, newest_first),
        distinct_times(s),
    ensures
        strictly_time_ordered(s, newest_first),
{
}

/// Whether entry `a` goes before entry `b`.
pub open spec fn goes_before(a: ArchiveEntry, b: ArchiveEntry, newest_first: bool) -> bool {
    if newest_first {
        a.modified > b.modified
    } else {
        a.modified < b.modified
    }
}

/// Orders the archive's entries by modification time, newest first or oldest
/// first.
pub fn order_entries(entries: Vec<ArchiveEntry>, newest_first: bool) -> (r: Vec<ArchiveEntry>)
    ensures
        r@.to_multiset() == entries@.to_multiset(),
        time_ordered(r@, newest_first),
{
    let mut rest = entries;
    let mut out: Vec<ArchiveEntry> = Vec::new();
    while rest.len() > 0
        invariant
            out@.to_multiset().add(rest@.to_multiset()) == entries@.to_multiset(),
            time_ordered(out@, newest_first),
        decreases rest@.len(),
    {
        let ghost before = rest@;
        let e = rest.pop().unwrap();
        assert(before =~= rest@.push(e));
        let mut j: usize = 0;
        let mut found = false;
        while j < out.len() && !found
            invariant
                j <= out@.len(),
                found ==> j < out@.len() && goes_before(e, out@[j as int], newest_first),
                forall|k: int| 0 <= k < j ==> !goes_before(e, #[trigger] out@[k], newest_first),
            decreases out@.len() - j, if found { 0int } else { 1int },
        {
            let later = if newest_first {
                out[j].modified < e.modified
            } else {
                out[j].modified > e.modified
            };
            if later {
                found = true;
            } else {
                j = j + 1;
            }
        }
        let ghost old_out = out@;
        out.insert(j, e);
        assert(out@ == old_out.insert(j as int, e));
        assert forall|a: int, b: int| 0 <= a < b < out@.len() implies if newest_first {
            out@[a].modified >= out@[b].modified
        } else {
            out@[a].modified <= out@[b].modified
        } by {
            if a < j as int && b == j as int {
                assert(!goes_before(e, old_out[a], newest_first));
            }
            if a == j as int && b > j as int {
                assert(out@[b] == old_out[b - 1]);
                if b - 1 > j {
                    assert(time_ordered(old_out, newest_first));
                    assert(old_out[j as int].modified == old_out[j as int].modified);
                }
            }
            if a != j as int && b != j as int {
                let oa = if a < j { a } else { a - 1 };
                let ob = if b < j { b } else { b - 1 };
                assert(out@[a] == old_out[oa]);
                assert(out@[b] == old_out[ob]);
            }
        }
    }
    assert(rest@ =~= Seq::<ArchiveEntry>::empty());
    assert(out@.to_multiset().add(rest@.to_multiset()) =~= out@.to_multiset());
    out
}

} // verus!

//! Absolute URLs as the codecs read them: scheme, host name, path and query.
use vstd::prelude::*;
use vstd::string::*;
use crate::text::lookup;

verus! {

/// The parts of a parsed absolute URL that the request codecs read.
#[derive(Clone, Debug, PartialEq, Eq)]
pub struct UrlParts {
    /// The scheme, lower case, without `:`.
    pub scheme: String,
    /// The host when it is a domain name (not an IP address).
    pub domain: Option<String>,
    /// The path, starting with `/`.
    pub path: String,
    /// The query as written, without `?`.
    pub query: Option<String>,
    /// The query's name/value pairs, in order, percent-decoded.
    pub pairs: Vec<(String, String)>,
}

/// The mathematical view of [`UrlParts`].
pub struct UrlView {
    pub scheme: Seq<char>,
    pub domain: Option<Seq<char>>,
    pub path: Seq<char>,
    pub query: Option<Seq<char>>,
    pub pairs: Seq<(Seq<char>, Seq<char>)>,
}

impl View for UrlParts {
    type V = UrlView;

    open spec fn view(&self) -> UrlView {
        UrlView {
            scheme: self.scheme@,
            domain: self.domain.deep_view(),
            path: self.path@,
            query: self.query.deep_view(),
            pairs: self.pairs.deep_view(),
        }
    }
}

/// What URL parsing makes of a text: its parts, or nothing when the text is
/// no absolute URL.
pub uninterp spec fn url_parts_of(s: Seq<char>) -> Option<UrlView>;

/// Relies on `url::Url::parse` and on the `scheme`, `domain`, `path`, `query`
/// and `query_pairs` accessors of the parsed URL; what they give depends on
/// the text alone.
#[verifier::external_body]
pub(crate) fn parse_url(s: &str) -> (r: Option<UrlParts>)
    ensures
        match r {
            Some(u) => url_parts_of(s@) == Some(u@),
            None => url_parts_of(s@) is None,
        },
{
    url::Url::parse(s).ok().map(|u| UrlParts {
        scheme: u.scheme().to_string(),
        domain: u.domain().map(|d| d.to_string()),
        path: u.path().to_string(),
        query: u.query().map(|q| q.to_string()),
        pairs: u.query_pairs().map(|(k, v)| (k.into_owned(), v.into_owned())).collect(),
    })
}

/// Whether two texts are equal, character for character.
pub fn same_text(a: &str, b: &str) -> (r: bool)
    ensures
        r == (a@ == b@),
{
    let n = a.unicode_len();
    if n != b.unicode_len() {
        return false;
    }
    let mut i: usize = 0;
    while i < n
        invariant
            n == a@.len() == b@.len(),
            i <= n,
            a@.subrange(0, i as int) == b@.subrange(0, i as int),
        decreases n - i,
    {
        if a.get_char(i) != b.get_char(i) {
            assert(a@[i as int] != b@[i as int]);
            return false;
        }
        assert(a@.subrange(0, i + 1) =~= a@.subrange(0, i as int).push(a@[i as int]));
        assert(b@.subrange(0, i + 1) =~= b@.subrange(0, i as int).push(b@[i as int]));
        i = i + 1;
    }
    assert(a@ =~= a@.subrange(0, n as int));
    assert(b@ =~= b@.subrange(0, n as int));
    true
}

/// The value of the last query pair named `key`.
pub fn find_pair(pairs: &Vec<(String, String)>, key: &str) -> (r: Option<String>)
    ensures
        r.deep_view() == lookup(pairs.deep_view(), key@),
{
    let mut found: Option<String> = None;
    let mut i: usize = 0;
    while i < pairs.len()
        invariant
            i <= pairs@.len(),
            found.deep_view() == lookup(pairs.deep_view().subrange(0, i as int), key@),
        decreases pairs@.len() - i,
    {
        let ghost prev = pairs.deep_view().subrange(0, i as int);
        let ghost next = pairs.deep_view().subrange(0, i + 1);
        assert(next.drop_last() =~= prev);
        if same_text(pairs[i].0.as_str(), key) {
            found = Some(pairs[i].1.clone());
        }
        i = i + 1;
    }
    assert(pairs.deep_view().subrange(0, pairs@.len() as int) =~= pairs.deep_view());
    found
}

} // verus!

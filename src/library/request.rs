//! Ad library page parameters and their canonical request URL.
use crate::exchange::Request;
use crate::link::{parse_url, same_text, url_parts_of, UrlParts, UrlView};
use crate::numeric::{decimal, encode_integer, lemma_parse_decimal, parse_bounded, parse_unsigned};
use crate::time::Instant;
use vstd::prelude::*;
use vstd::string::*;

verus! {

/// The parameters of an ad library page request: the ad's identifier.
#[derive(Clone, Copy, Debug, PartialEq, Eq, Structural)]
pub struct Params {
    pub ad_id: u64,
}

/// The URL of the ad library page of an ad.
pub open spec fn library_url(ad_id: u64) -> Seq<char> {
    "https://www.facebook.com/ads/library/?id="@ + decimal(ad_id as nat)
}

/// The ad identifier that a URL names, if it is an ad library page URL:
/// scheme `https`, host `www.facebook.com`, path `/ads/library/`, and a query
/// that is `id=` followed by an unsigned 64-bit integer.
pub open spec fn library_ad_of_url(u: UrlView) -> Option<u64> {
    if u.scheme == "https"@ && u.domain == Some("www.facebook.com"@) && u.path == "/ads/library/"@
        && u.query is Some {
        let q = u.query->0;
        if q.len() >= 3 && q.subrange(0, 3) == "id="@ {
            match parse_unsigned(q.subrange(3, q.len() as int), u64::MAX as nat) {
                Some(v) => Some(v as u64),
                None => None,
            }
        } else {
            None
        }
    } else {
        None
    }
}

/// Round trip of the library codec: a URL on the library's host and path whose
/// query is the one the canonical URL writes reads back as the same identifier.
pub proof fn lemma_library_round_trip(ad_id: u64, u: UrlView)
    requires
        u.scheme == "https"@,
        u.domain == Some("www.facebook.com"@),
        u.path == "/ads/library/"@,
        u.query == Some("id="@ + decimal(ad_id as nat)),
    ensures
        library_ad_of_url(u) == Some(ad_id),
{
    reveal_strlit("id=");
    let q = "id="@ + decimal(ad_id as nat);
    assert(q.subrange(0, 3) =~= "id="@);
    assert(q.subrange(3, q.len() as int) =~= decimal(ad_id as nat));
    lemma_parse_decimal(ad_id as nat, u64::MAX as nat);
}

/// The canonical library URL is the scheme, the library's host and path, `?`,
/// and the query `id=` followed by the identifier in decimal.
pub proof fn lemma_library_url_parts(ad_id: u64)
    ensures
        library_url(ad_id) == "https://"@ + "www.facebook.com"@ + "/ads/library/"@ + seq!['?'] + (
        "id="@ + decimal(ad_id as nat)),
{
    reveal_strlit("https://www.facebook.com/ads/library/?id=");
    reveal_strlit("https://");
    reveal_strlit("www.facebook.com");
    reveal_strlit("/ads/library/");
    reveal_strlit("id=");
    assert("https://www.facebook.com/ads/library/?id="@ =~= "https://"@ + "www.facebook.com"@
        + "/ads/library/"@ + seq!['?'] + "id="@);
    assert(library_url(ad_id) =~= "https://"@ + "www.facebook.com"@ + "/ads/library/"@ + seq!['?']
        + ("id="@ + decimal(ad_id as nat)));
}

impl Params {
    pub fn new(ad_id: u64) -> (r: Self)
        ensures
            r.ad_id == ad_id,
    {
        Params { ad_id }
    }

    /// The canonical request of the ad's library page: a GET of its URL,
    /// stamped with `timestamp`, with no headers and no body.
    pub fn build_request(&self, timestamp: Option<Instant>) -> (r: Request)
        ensures
            r.url@ == library_url(self.ad_id),
            r.timestamp == timestamp,
            r.headers@.len() == 0,
            r.body is None,
    {
        let mut url = String::from_str("https://www.facebook.com/ads/library/?id=");
        let id = encode_integer(self.ad_id);
        url.append(id.as_str());
        Request { url, timestamp, headers: Vec::new(), body: None }
    }

    /// The ad that a parsed URL names, or `None` when it is not an ad library
    /// page URL.
    pub fn parse_url(url: &UrlParts) -> (r: Option<Self>)
        ensures
            match r {
                Some(p) => library_ad_of_url(url@) == Some(p.ad_id),
                None => library_ad_of_url(url@) is None,
            },
    {
        proof {
            reveal_strlit("id=");
        }
        if !same_text(url.scheme.as_str(), "https") {
            return None;
        }
        match &url.domain {
            Some(d) => {
                if !same_text(d.as_str(), "www.facebook.com") {
                    return None;
                }
            },
            None => return None,
        }
        if !same_text(url.path.as_str(), "/ads/library/") {
            return None;
        }
        let q = match &url.query {
            Some(q) => q.as_str(),
            None => return None,
        };
        let n = q.unicode_len();
        if n < 3 || !same_text(q.substring_char(0, 3), "id=") {
            return None;
        }
        match parse_bounded(q.substring_char(3, n), u64::MAX) {
            Some(v) => Some(Params { ad_id: v }),
            None => None,
        }
    }

    /// The ad that a URL text names, or `None` when it is no URL or not an ad
    /// library page URL.
    pub fn parse_url_text(s: &str) -> (r: Option<Self>)
        ensures
            match r {
                Some(p) => url_parts_of(s@) is Some && library_ad_of_url(url_parts_of(s@)->0) == Some(
                    p.ad_id,
                ),
                None => url_parts_of(s@) is None || library_ad_of_url(url_parts_of(s@)->0) is None,
            },
    {
        match parse_url(s) {
            Some(u) => Self::parse_url(&u),
            None => None,
        }
    }
}

} // verus!

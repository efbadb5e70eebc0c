//! Search parameters and their canonical request URL, in both directions.
use crate::exchange::Request;
use crate::link::{find_pair, parse_url, same_text, url_parts_of, UrlParts, UrlView};
use crate::numeric::{all_digits, digits_value, is_digit, parse_bounded};
use crate::text::{
    enclosed, join, lookup, percent_encoded, split_at_char, split_on, strip_enclosing, url_encoded,
    wrap,
};
use crate::time::Instant;
use crate::version::{lemma_version_text_split, version_text, GraphApiVersion, COMPONENT_MAX};
use crate::numeric::lemma_decimal;
use crate::text::{
    form_decoded, free_of, lemma_form_decoded_plain, lemma_form_decoded_url_encoded,
    lemma_join_free, lemma_percent_encode_free, lemma_split_join,
};
use vstd::prelude::*;
use vstd::string::*;

verus! {

/// How the search terms are matched.
#[derive(Clone, Copy, Debug, PartialEq, Eq, Structural)]
pub enum SearchType {
    KeywordUnordered,
    KeywordExactPhrase,
}

/// The name that the API gives a search type.
pub open spec fn search_type_text(t: SearchType) -> Seq<char> {
    match t {
        SearchType::KeywordUnordered => "KEYWORD_UNORDERED"@,
        SearchType::KeywordExactPhrase => "KEYWORD_EXACT_PHRASE"@,
    }
}

/// The search type that the API calls `s`.
pub open spec fn search_type_named(s: Seq<char>) -> Option<SearchType> {
    if s == "KEYWORD_UNORDERED"@ {
        Some(SearchType::KeywordUnordered)
    } else if s == "KEYWORD_EXACT_PHRASE"@ {
        Some(SearchType::KeywordExactPhrase)
    } else {
        None
    }
}

impl SearchType {
    /// The search type used when none is named.
    pub fn default() -> (r: Self)
        ensures
            r == SearchType::KeywordUnordered,
    {
        SearchType::KeywordUnordered
    }

    /// The name that the API gives this search type.
    pub fn as_str(self) -> (r: &'static str)
        ensures
            r@ == search_type_text(self),
    {
        match self {
            SearchType::KeywordUnordered => "KEYWORD_UNORDERED",
            SearchType::KeywordExactPhrase => "KEYWORD_EXACT_PHRASE",
        }
    }

    /// The search type of the given name.
    pub fn from_str(s: &str) -> (r: Result<Self, ()>)
        ensures
            match r {
                Ok(t) => search_type_named(s@) == Some(t),
                Err(_) => search_type_named(s@) is None,
            },
    {
        if same_text(s, "KEYWORD_UNORDERED") {
            Ok(SearchType::KeywordUnordered)
        } else if same_text(s, "KEYWORD_EXACT_PHRASE") {
            Ok(SearchType::KeywordExactPhrase)
        } else {
            Err(())
        }
    }
}

/// The parameters of an ad archive search.
#[derive(Clone, Debug, PartialEq, Eq)]
pub struct Params {
    pub access_token: String,
    pub unmask_removed_content: bool,
    pub version: GraphApiVersion,
    pub terms: String,
    pub countries: Vec<String>,
    pub search_type: SearchType,
    pub after: Option<String>,
}

/// The mathematical view of [`Params`].
pub struct ParamsView {
    pub access_token: Seq<char>,
    pub unmask_removed_content: bool,
    pub version: GraphApiVersion,
    pub terms: Seq<char>,
    pub countries: Seq<Seq<char>>,
    pub search_type: SearchType,
    pub after: Option<Seq<char>>,
}

impl View for Params {
    type V = ParamsView;

    open spec fn view(&self) -> ParamsView {
        ParamsView {
            access_token: self.access_token@,
            unmask_removed_content: self.unmask_removed_content,
            version: self.version,
            terms: self.terms@,
            countries: self.countries.deep_view(),
            search_type: self.search_type,
            after: self.after.deep_view(),
        }
    }
}

/// The host of the API.
pub open spec fn api_domain() -> Seq<char> {
    "graph.facebook.com"@
}

/// The fields that every search asks for, comma-separated.
pub open spec fn fields_text() -> Seq<char> {
    "id,page_id,page_name,ad_snapshot_url,ad_creation_time,ad_delivery_start_time,ad_delivery_stop_time,ad_creative_bodies,ad_creative_link_titles,ad_creative_link_captions,ad_creative_link_descriptions,age_country_gender_reach_breakdown,beneficiary_payers,eu_total_reach,languages,publisher_platforms,target_ages,target_gender,target_locations,total_reach_by_location,br_total_reach,bylines,currency,delivery_by_region,demographic_distribution,estimated_audience_size,impressions,spend"@
}

/// `true` or `false`.
pub open spec fn bool_text(b: bool) -> Seq<char> {
    if b {
        "true"@
    } else {
        "false"@
    }
}

/// The boolean that `s` names, `true` or `false` exactly.
pub open spec fn bool_named(s: Seq<char>) -> Option<bool> {
    if s == "true"@ {
        Some(true)
    } else if s == "false"@ {
        Some(false)
    } else {
        None
    }
}

/// `s` in single quotes.
pub open spec fn quoted(s: Seq<char>) -> Seq<char> {
    wrap(s, '\'', '\'')
}

/// The list form of countries: `['DE','FR']`.
pub open spec fn country_list(countries: Seq<Seq<char>>) -> Seq<char> {
    wrap(join(countries.map_values(|c: Seq<char>| quoted(c)), ','), '[', ']')
}

/// The countries that a list written as `['DE','FR']` names.
pub open spec fn countries_named(s: Seq<char>) -> Option<Seq<Seq<char>>> {
    match enclosed(s, '[', ']') {
        None => None,
        Some(inner) => {
            let pieces = split_on(inner, ',');
            if forall|i: int| 0 <= i < pieces.len() ==> (#[trigger] enclosed(pieces[i], '\'', '\'')) is Some {
                Some(pieces.map_values(|p: Seq<char>| enclosed(p, '\'', '\'')->0))
            } else {
                None
            }
        },
    }
}

/// A version component in a path: one or more ASCII digits fitting in 16 bits.
pub open spec fn path_component(s: Seq<char>) -> Option<u16> {
    if s.len() > 0 && all_digits(s) && digits_value(s) <= COMPONENT_MAX {
        Some(digits_value(s) as u16)
    } else {
        None
    }
}

/// The version named by a search path `/v<major>.<minor>/ads_archive`.
pub open spec fn path_version(path: Seq<char>) -> Option<GraphApiVersion> {
    let pre = "/v"@;
    let suf = "/ads_archive"@;
    if path.len() >= pre.len() + suf.len() && path.subrange(0, pre.len() as int) == pre
        && path.subrange(path.len() - suf.len(), path.len() as int) == suf {
        let parts = split_on(path.subrange(pre.len() as int, path.len() - suf.len()), '.');
        if parts.len() == 2 && path_component(parts[0]) is Some && path_component(parts[1]) is Some {
            Some(
                GraphApiVersion {
                    major: path_component(parts[0])->0,
                    minor: path_component(parts[1])->0,
                },
            )
        } else {
            None
        }
    } else {
        None
    }
}

/// The search path of a version.
pub open spec fn version_path(v: GraphApiVersion) -> Seq<char> {
    "/v"@ + version_text(v.major, v.minor) + "/ads_archive"@
}

/// The search type that a query asks for: the default when it names none.
pub open spec fn search_type_param(s: Option<Seq<char>>) -> Option<SearchType> {
    match s {
        None => Some(SearchType::KeywordUnordered),
        Some(t) => search_type_named(t),
    }
}

/// The search parameters that a URL carries, if it is a search URL of the API.
pub open spec fn params_of_url(u: UrlView) -> Option<ParamsView> {
    let pairs = u.pairs;
    let version = path_version(u.path);
    let token = lookup(pairs, "access_token"@);
    let unmask = match lookup(pairs, "unmask_removed_content"@) {
        Some(t) => bool_named(t),
        None => None,
    };
    let terms = match lookup(pairs, "search_terms"@) {
        Some(t) => enclosed(t, '\'', '\''),
        None => None,
    };
    let countries = match lookup(pairs, "ad_reached_countries"@) {
        Some(t) => countries_named(t),
        None => None,
    };
    let search_type = search_type_param(lookup(pairs, "search_type"@));
    if u.scheme == "https"@ && u.domain == Some(api_domain()) && version is Some && token is Some
        && unmask is Some && terms is Some && countries is Some && search_type is Some {
        Some(
            ParamsView {
                access_token: token->0,
                unmask_removed_content: unmask->0,
                version: version->0,
                terms: terms->0,
                countries: countries->0,
                search_type: search_type->0,
                after: lookup(pairs, "after"@),
            },
        )
    } else {
        None
    }
}

/// The canonical search URL of a set of parameters. The access token and the
/// cursor are written as they are; the other values are percent-encoded.
pub open spec fn search_url(p: ParamsView) -> Seq<char> {
    "https://graph.facebook.com/v"@ + version_text(p.version.major, p.version.minor)
        + "/ads_archive?search_terms='"@ + url_encoded(p.terms) + "'&ad_reached_countries="@ + url_encoded(country_list(p.countries)) + "&fields="@
        + url_encoded(fields_text()) + "&access_token="@ + p.access_token
        + "&unmask_removed_content="@ + bool_text(p.unmask_removed_content) + (
    if p.search_type == SearchType::KeywordUnordered {
        Seq::<char>::empty()
    } else {
        "&search_type="@ + search_type_text(p.search_type)
    }) + match p.after {
        Some(a) => "&after="@ + a,
        None => Seq::<char>::empty(),
    }
}

/// The query pairs of the canonical search URL, with their values decoded.
pub open spec fn search_pairs(p: ParamsView) -> Seq<(Seq<char>, Seq<char>)> {
    let base = seq![
        ("search_terms"@, quoted(p.terms)),
        ("ad_reached_countries"@, country_list(p.countries)),
        ("fields"@, fields_text()),
        ("access_token"@, p.access_token),
        ("unmask_removed_content"@, bool_text(p.unmask_removed_content)),
    ];
    let typed = if p.search_type == SearchType::KeywordUnordered {
        base
    } else {
        base.push(("search_type"@, search_type_text(p.search_type)))
    };
    match p.after {
        Some(a) => typed.push(("after"@, a)),
        None => typed,
    }
}

/// Parameters that the query form can carry back: quoted values hold no quote,
/// there is at least one country, and no country holds `,` or `]`.
pub open spec fn carries_back(p: ParamsView) -> bool {
    &&& crate::text::free_of(p.terms, '\'')
    &&& p.countries.len() >= 1
    &&& forall|i: int|
        0 <= i < p.countries.len() ==> {
            &&& crate::text::free_of(#[trigger] p.countries[i], '\'')
            &&& crate::text::free_of(p.countries[i], ',')
            &&& crate::text::free_of(p.countries[i], ']')
        }
}

/// A search path names the version it was written for.
pub proof fn lemma_path_version(v: GraphApiVersion)
    ensures
        path_version(version_path(v)) == Some(v),
{
    let pre = "/v"@;
    let suf = "/ads_archive"@;
    let mid = version_text(v.major, v.minor);
    let path = version_path(v);
    assert(path.subrange(0, pre.len() as int) =~= pre);
    assert(path.subrange(path.len() - suf.len(), path.len() as int) =~= suf);
    assert(path.subrange(pre.len() as int, path.len() - suf.len()) =~= mid);
    lemma_version_text_split(v);
    lemma_decimal(v.major as nat);
    lemma_decimal(v.minor as nat);
}

/// Text in quotes that holds no quote reads back as itself.
pub proof fn lemma_quoted(s: Seq<char>)
    requires
        free_of(s, '\''),
    ensures
        enclosed(quoted(s), '\'', '\'') == Some(s),
{
    assert(quoted(s).subrange(1, quoted(s).len() - 1) =~= s);
}

/// A list of countries reads back as those countries.
pub proof fn lemma_country_list(cs: Seq<Seq<char>>)
    requires
        cs.len() >= 1,
        forall|i: int|
            0 <= i < cs.len() ==> {
                &&& free_of(#[trigger] cs[i], '\'')
                &&& free_of(cs[i], ',')
                &&& free_of(cs[i], ']')
            },
    ensures
        countries_named(country_list(cs)) == Some(cs),
{
    let qs = cs.map_values(|c: Seq<char>| quoted(c));
    assert forall|i: int| 0 <= i < qs.len() implies free_of(#[trigger] qs[i], ',') && free_of(qs[i], ']') by {
        assert(qs[i] == quoted(cs[i]));
        assert forall|k: int| 0 <= k < qs[i].len() implies #[trigger] qs[i][k] != ',' && qs[i][k] != ']' by {
            if 0 < k < qs[i].len() - 1 {
                assert(qs[i][k] == cs[i][k - 1]);
            }
        }
    }
    let j = join(qs, ',');
    lemma_join_free(qs, ',', ']');
    let list = country_list(cs);
    assert(list.subrange(1, list.len() - 1) =~= j);
    assert(enclosed(list, '[', ']') == Some(j));
    lemma_split_join(qs, ',');
    assert forall|i: int| 0 <= i < qs.len() implies (#[trigger] enclosed(qs[i], '\'', '\'')) == Some(cs[i]) by {
        lemma_quoted(cs[i]);
    }
    assert(qs.map_values(|p: Seq<char>| enclosed(p, '\'', '\'')->0) =~= cs);
}

/// Round trip of the search codec: a URL on the API's host, with the search
/// path of the parameters' version and the query pairs that the canonical
/// search URL writes (values decoded), reads back as those parameters.
pub proof fn lemma_search_round_trip(p: ParamsView, u: UrlView)
    requires
        carries_back(p),
        u.scheme == "https"@,
        u.domain == Some(api_domain()),
        u.path == version_path(p.version),
        u.pairs == search_pairs(p),
    ensures
        params_of_url(u) == Some(p),
{
    reveal_strlit("search_terms");
    reveal_strlit("ad_reached_countries");
    reveal_strlit("fields");
    reveal_strlit("access_token");
    reveal_strlit("unmask_removed_content");
    reveal_strlit("search_type");
    reveal_strlit("after");
    reveal_strlit("true");
    reveal_strlit("false");
    reveal_strlit("KEYWORD_UNORDERED");
    reveal_strlit("KEYWORD_EXACT_PHRASE");
    reveal_with_fuel(lookup, 8);
    lemma_path_version(p.version);
    lemma_quoted(p.terms);
    lemma_country_list(p.countries);
    let pairs = search_pairs(p);
    assert("after"@.len() == 5 && "search_type"@.len() == 11 && "access_token"@.len() == 12);
    assert("unmask_removed_content"@.len() == 22);
    assert("after"@ != "access_token"@ && "search_type"@ != "access_token"@);
    assert("after"@ != "unmask_removed_content"@ && "search_type"@ != "unmask_removed_content"@);
    assert("search_terms"@.len() == 12 && "ad_reached_countries"@.len() == 20 && "fields"@.len() == 6);
    assert("search_terms"@[0] != "access_token"@[0]);
    let later = seq!["fields"@, "access_token"@, "unmask_removed_content"@, "search_type"@, "after"@];
    assert(forall|i: int| 0 <= i < later.len() ==> #[trigger] later[i] != "ad_reached_countries"@);
    assert(forall|i: int| 0 <= i < later.len() ==> #[trigger] later[i] != "search_terms"@);
    assert(lookup(pairs, "access_token"@) == Some(p.access_token));
    assert(lookup(pairs, "unmask_removed_content"@) == Some(bool_text(p.unmask_removed_content)));
    assert(lookup(pairs, "search_terms"@) == Some(quoted(p.terms)));
    assert(lookup(pairs, "ad_reached_countries"@) == Some(country_list(p.countries)));
    assert(lookup(pairs, "after"@) == p.after);
    assert("true"@.len() == 4 && "false"@.len() == 5);
    assert(bool_named(bool_text(p.unmask_removed_content)) == Some(p.unmask_removed_content));
    assert("KEYWORD_UNORDERED"@.len() == 17 && "KEYWORD_EXACT_PHRASE"@.len() == 20);
    let others = seq![
        "search_terms"@,
        "ad_reached_countries"@,
        "fields"@,
        "access_token"@,
        "unmask_removed_content"@,
        "after"@,
    ];
    assert(forall|i: int| 0 <= i < others.len() ==> #[trigger] others[i] != "search_type"@);
    assert(search_type_param(lookup(pairs, "search_type"@)) == Some(p.search_type));
}

/// A query piece: a name, `=`, and a value as written.
pub open spec fn query_piece(name: Seq<char>, value: Seq<char>) -> Seq<char> {
    name + seq!['='] + value
}

/// The values that the canonical search URL writes for its query pairs, in
/// the order of [`search_pairs`].
pub open spec fn written_values(p: ParamsView) -> Seq<Seq<char>> {
    let base = seq![
        seq!['\''] + url_encoded(p.terms) + seq!['\''],
        url_encoded(country_list(p.countries)),
        url_encoded(fields_text()),
        p.access_token,
        bool_text(p.unmask_removed_content),
    ];
    let typed = if p.search_type == SearchType::KeywordUnordered {
        base
    } else {
        base.push(search_type_text(p.search_type))
    };
    match p.after {
        Some(a) => typed.push(a),
        None => typed,
    }
}

/// The query pieces of the canonical search URL.
pub open spec fn written_pieces(p: ParamsView) -> Seq<Seq<char>> {
    let pairs = search_pairs(p);
    let values = written_values(p);
    Seq::new(pairs.len(), |i: int| query_piece(pairs[i].0, values[i]))
}

/// Text that a query value can carry unencoded: no `%`, `+`, `&` or `#`.
pub open spec fn query_safe(s: Seq<char>) -> bool {
    free_of(s, '%') && free_of(s, '+') && free_of(s, '&') && free_of(s, '#')
}

/// Joining pieces one more.
proof fn lemma_join_push(ps: Seq<Seq<char>>, x: Seq<char>, sep: char)
    requires
        ps.len() >= 1,
    ensures
        join(ps.push(x), sep) == join(ps, sep).push(sep) + x,
{
    assert(ps.push(x).drop_last() =~= ps);
}

/// Quoted, percent-encoded terms decode to the quoted terms.
proof fn lemma_quoted_terms_decode(t: Seq<char>)
    ensures
        form_decoded(seq!['\''] + url_encoded(t) + seq!['\'']) == quoted(t),
{
    let q = seq!['\''];
    assert(free_of(q, '%') && free_of(q, '+'));
    crate::text::lemma_percent_decode_plain(q, url_encoded(t) + q);
    crate::text::lemma_percent_decode_encoded(vstd::utf8::encode_utf8(t), q);
    crate::text::lemma_percent_decode_plain(q, Seq::<char>::empty());
    assert(q + Seq::<char>::empty() =~= q);
    assert(q + url_encoded(t) + q =~= q + (url_encoded(t) + q));
    crate::text::lemma_encode_utf8_append(q, t);
    crate::text::lemma_encode_utf8_append(q + t, q);
    vstd::utf8::encode_utf8_decode_utf8(q + t + q);
    assert(crate::text::percent_decode(q + url_encoded(t) + q) =~= vstd::utf8::encode_utf8(
        q + t + q,
    ));
}

/// Each written value decodes to its pair's value, and no name holds `=` or `&`.
proof fn lemma_written_values_decode(p: ParamsView)
    requires
        query_safe(p.access_token),
        p.after matches Some(a) ==> query_safe(a),
    ensures
        written_values(p).len() == search_pairs(p).len(),
        forall|i: int|
            0 <= i < search_pairs(p).len() ==> free_of(#[trigger] search_pairs(p)[i].0, '=')
                && free_of(search_pairs(p)[i].0, '&') && form_decoded(written_values(p)[i])
                == search_pairs(p)[i].1,
{
    reveal_strlit("search_terms");
    reveal_strlit("ad_reached_countries");
    reveal_strlit("fields");
    reveal_strlit("access_token");
    reveal_strlit("unmask_removed_content");
    reveal_strlit("search_type");
    reveal_strlit("after");
    reveal_strlit("true");
    reveal_strlit("false");
    reveal_strlit("KEYWORD_UNORDERED");
    reveal_strlit("KEYWORD_EXACT_PHRASE");
    lemma_quoted_terms_decode(p.terms);
    lemma_form_decoded_url_encoded(country_list(p.countries));
    lemma_form_decoded_url_encoded(fields_text());
    lemma_form_decoded_plain(p.access_token);
    lemma_form_decoded_plain(bool_text(p.unmask_removed_content));
    lemma_form_decoded_plain(search_type_text(p.search_type));
    if let Some(a) = p.after {
        lemma_form_decoded_plain(a);
    }
}

/// Each written value holds no `&`.
proof fn lemma_written_values_free(p: ParamsView)
    requires
        query_safe(p.access_token),
        p.after matches Some(a) ==> query_safe(a),
    ensures
        forall|i: int| 0 <= i < written_values(p).len() ==> free_of(#[trigger] written_values(p)[i], '&'),
{
    reveal_strlit("true");
    reveal_strlit("false");
    reveal_strlit("KEYWORD_UNORDERED");
    reveal_strlit("KEYWORD_EXACT_PHRASE");
    let t = url_encoded(p.terms);
    lemma_percent_encode_free(vstd::utf8::encode_utf8(p.terms), '&');
    lemma_percent_encode_free(vstd::utf8::encode_utf8(country_list(p.countries)), '&');
    lemma_percent_encode_free(vstd::utf8::encode_utf8(fields_text()), '&');
    let v0 = seq!['\''] + t + seq!['\''];
    assert forall|k: int| 0 <= k < v0.len() implies #[trigger] v0[k] != '&' by {
        if 0 < k < v0.len() - 1 {
            assert(v0[k] == t[k - 1]);
        }
    }
}

/// The pieces of the canonical search URL hold no `&`.
proof fn lemma_written_pieces_free(p: ParamsView)
    requires
        query_safe(p.access_token),
        p.after matches Some(a) ==> query_safe(a),
    ensures
        forall|i: int| 0 <= i < written_pieces(p).len() ==> free_of(#[trigger] written_pieces(p)[i], '&'),
{
    lemma_written_values_decode(p);
    lemma_written_values_free(p);
    let pairs = search_pairs(p);
    let values = written_values(p);
    let pieces = written_pieces(p);
    assert forall|i: int| 0 <= i < pieces.len() implies free_of(#[trigger] pieces[i], '&') by {
        let v = values[i];
        let name = pairs[i].0;
        assert(free_of(v, '&'));
        assert(free_of(name, '&'));
        let pc = pieces[i];
        assert(pc == query_piece(name, v));
        assert forall|k: int| 0 <= k < pc.len() implies #[trigger] pc[k] != '&' by {
            if k > name.len() {
                assert(pc[k] == v[k - name.len() - 1]);
            } else if k < name.len() {
                assert(pc[k] == name[k]);
            }
        }
    }
}

/// How the literal pieces of the search URL split into separators and names.
proof fn lemma_url_literals()
    ensures
        "https://graph.facebook.com/v"@ == "https://"@ + "graph.facebook.com"@ + "/v"@,
        "/ads_archive?search_terms='"@ == "/ads_archive"@ + seq!['?'] + "search_terms"@ + seq!['=']
            + seq!['\''],
        "'&ad_reached_countries="@ == seq!['\''] + seq!['&'] + "ad_reached_countries"@ + seq!['='],
        "&fields="@ == seq!['&'] + "fields"@ + seq!['='],
        "&access_token="@ == seq!['&'] + "access_token"@ + seq!['='],
        "&unmask_removed_content="@ == seq!['&'] + "unmask_removed_content"@ + seq!['='],
        "&search_type="@ == seq!['&'] + "search_type"@ + seq!['='],
        "&after="@ == seq!['&'] + "after"@ + seq!['='],
{
    lemma_url_head_literals();
    lemma_literal_fields();
    lemma_literal_access_token();
    lemma_literal_unmask_removed_content();
    lemma_literal_search_type();
    lemma_literal_after();
}

proof fn lemma_url_head_literals()
    ensures
        "https://graph.facebook.com/v"@ == "https://"@ + "graph.facebook.com"@ + "/v"@,
        "/ads_archive?search_terms='"@ == "/ads_archive"@ + seq!['?'] + "search_terms"@ + seq!['=']
            + seq!['\''],
        "'&ad_reached_countries="@ == seq!['\''] + seq!['&'] + "ad_reached_countries"@ + seq!['='],
{
    reveal_strlit("https://graph.facebook.com/v");
    reveal_strlit("https://");
    reveal_strlit("graph.facebook.com");
    reveal_strlit("/v");
    reveal_strlit("/ads_archive?search_terms='");
    reveal_strlit("/ads_archive");
    reveal_strlit("search_terms");
    reveal_strlit("'&ad_reached_countries=");
    reveal_strlit("ad_reached_countries");
    assert("https://graph.facebook.com/v"@ =~= "https://"@ + "graph.facebook.com"@ + "/v"@);
    assert("/ads_archive?search_terms='"@ =~= "/ads_archive"@ + seq!['?'] + "search_terms"@ + seq![
        '=',
    ] + seq!['\'']);
    assert("'&ad_reached_countries="@ =~= seq!['\''] + seq!['&'] + "ad_reached_countries"@ + seq![
        '=',
    ]);
}

proof fn lemma_literal_fields()
    ensures
        "&fields="@ == seq!['&'] + "fields"@ + seq!['='],
{
    reveal_strlit("&fields=");
    reveal_strlit("fields");
    assert("&fields="@ =~= seq!['&'] + "fields"@ + seq!['=']);
}

proof fn lemma_literal_access_token()
    ensures
        "&access_token="@ == seq!['&'] + "access_token"@ + seq!['='],
{
    reveal_strlit("&access_token=");
    reveal_strlit("access_token");
    assert("&access_token="@ =~= seq!['&'] + "access_token"@ + seq!['=']);
}

proof fn lemma_literal_unmask_removed_content()
    ensures
        "&unmask_removed_content="@ == seq!['&'] + "unmask_removed_content"@ + seq!['='],
{
    reveal_strlit("&unmask_removed_content=");
    reveal_strlit("unmask_removed_content");
    assert("&unmask_removed_content="@ =~= seq!['&'] + "unmask_removed_content"@ + seq!['=']);
}

proof fn lemma_literal_search_type()
    ensures
        "&search_type="@ == seq!['&'] + "search_type"@ + seq!['='],
{
    reveal_strlit("&search_type=");
    reveal_strlit("search_type");
    assert("&search_type="@ =~= seq!['&'] + "search_type"@ + seq!['=']);
}

proof fn lemma_literal_after()
    ensures
        "&after="@ == seq!['&'] + "after"@ + seq!['='],
{
    reveal_strlit("&after=");
    reveal_strlit("after");
    assert("&after="@ =~= seq!['&'] + "after"@ + seq!['=']);
}

/// Appending one more piece after `&`.
proof fn lemma_piece_step(x: Seq<char>, name: Seq<char>, v: Seq<char>)
    ensures
        x.push('&') + query_piece(name, v) == x + (seq!['&'] + name + seq!['=']) + v,
{
    assert(x.push('&') + query_piece(name, v) =~= x + (seq!['&'] + name + seq!['=']) + v);
}

/// The address, path and first piece, regrouped as the URL writes them.
proof fn lemma_first_piece(
    scheme: Seq<char>,
    dom: Seq<char>,
    v: Seq<char>,
    vt: Seq<char>,
    ar: Seq<char>,
    st: Seq<char>,
    e: Seq<char>,
)
    ensures
        scheme + dom + (v + vt + ar) + seq!['?'] + query_piece(
            st,
            seq!['\''] + e + seq!['\''],
        ) == scheme + dom + v + vt + (ar + seq!['?'] + st + seq!['='] + seq!['\'']) + e + seq![
            '\'',
        ],
{
    assert(scheme + dom + (v + vt + ar) + seq!['?'] + query_piece(st, seq!['\''] + e + seq!['\''])
        =~= scheme + dom + v + vt + (ar + seq!['?'] + st + seq!['='] + seq!['\'']) + e + seq![
        '\'',
    ]);
}

/// Moving the closing quote of the terms into the next separator.
proof fn lemma_quote_step(x: Seq<char>, name: Seq<char>, v: Seq<char>)
    ensures
        x + (seq!['\''] + seq!['&'] + name + seq!['=']) + v == (x + seq!['\'']) + (seq!['&'] + name
            + seq!['=']) + v,
{
    assert(x + (seq!['\''] + seq!['&'] + name + seq!['=']) + v =~= (x + seq!['\'']) + (seq!['&']
        + name + seq!['=']) + v);
}

/// The address, path and the five pieces that every search writes, joined.
proof fn lemma_base_join(vt: Seq<char>, e: Seq<char>, c: Seq<char>, f: Seq<char>, tok: Seq<char>, b: Seq<char>)
    ensures
        "https://"@ + api_domain() + ("/v"@ + vt + "/ads_archive"@) + seq!['?'] + join(
            seq![
                query_piece("search_terms"@, seq!['\''] + e + seq!['\'']),
                query_piece("ad_reached_countries"@, c),
                query_piece("fields"@, f),
                query_piece("access_token"@, tok),
                query_piece("unmask_removed_content"@, b),
            ],
            '&',
        ) == "https://graph.facebook.com/v"@ + vt + "/ads_archive?search_terms='"@ + e
            + "'&ad_reached_countries="@ + c + "&fields="@ + f + "&access_token="@ + tok
            + "&unmask_removed_content="@ + b,
{
    lemma_url_literals();
    let terms_piece = query_piece("search_terms"@, seq!['\''] + e + seq!['\'']);
    let countries_piece = query_piece("ad_reached_countries"@, c);
    let fields_piece = query_piece("fields"@, f);
    let token_piece = query_piece("access_token"@, tok);
    let unmask_piece = query_piece("unmask_removed_content"@, b);
    let head = "https://"@ + api_domain() + ("/v"@ + vt + "/ads_archive"@) + seq!['?'];
    lemma_first_piece("https://"@, api_domain(), "/v"@, vt, "/ads_archive"@, "search_terms"@, e);
    let s0 = "https://graph.facebook.com/v"@ + vt + "/ads_archive?search_terms='"@ + e;
    assert(head + terms_piece == s0 + seq!['\'']);
    lemma_piece_step(head + terms_piece, "ad_reached_countries"@, c);
    lemma_quote_step(s0, "ad_reached_countries"@, c);
    let s1 = s0 + "'&ad_reached_countries="@ + c;
    lemma_piece_step(s1, "fields"@, f);
    let s2 = s1 + "&fields="@ + f;
    lemma_piece_step(s2, "access_token"@, tok);
    let s3 = s2 + "&access_token="@ + tok;
    lemma_piece_step(s3, "unmask_removed_content"@, b);
    let j1 = seq![terms_piece, countries_piece];
    let j2 = seq![terms_piece, countries_piece, fields_piece];
    let j3 = seq![terms_piece, countries_piece, fields_piece, token_piece];
    let j4 = seq![terms_piece, countries_piece, fields_piece, token_piece, unmask_piece];
    assert(seq![terms_piece].push(countries_piece) =~= j1);
    assert(j1.push(fields_piece) =~= j2);
    assert(j2.push(token_piece) =~= j3);
    assert(j3.push(unmask_piece) =~= j4);
    assert(join(seq![terms_piece], '&') == terms_piece);
    lemma_join_push(seq![terms_piece], countries_piece, '&');
    lemma_join_push(j1, fields_piece, '&');
    lemma_join_push(j2, token_piece, '&');
    lemma_join_push(j3, unmask_piece, '&');
    lemma_regroup(head, terms_piece, countries_piece);
    lemma_regroup(head, join(j1, '&'), fields_piece);
    lemma_regroup(head, join(j2, '&'), token_piece);
    lemma_regroup(head, join(j3, '&'), unmask_piece);
}

/// `h + (x & y)` is `(h + x) & y`.
proof fn lemma_regroup(h: Seq<char>, x: Seq<char>, y: Seq<char>)
    ensures
        h + (x.push('&') + y) == (h + x).push('&') + y,
{
    assert(h + (x.push('&') + y) =~= (h + x).push('&') + y);
}

/// The canonical search URL is the API's address, the search path, `?`, and
/// the written pieces joined by `&`.
proof fn lemma_search_url_joined(p: ParamsView)
    ensures
        search_url(p) == "https://"@ + api_domain() + version_path(p.version) + seq!['?'] + join(
            written_pieces(p),
            '&',
        ),
{
    let pieces = written_pieces(p);
    let vt = version_text(p.version.major, p.version.minor);
    let base = seq![pieces[0], pieces[1], pieces[2], pieces[3], pieces[4]];
    assert(base =~= seq![
        query_piece("search_terms"@, seq!['\''] + url_encoded(p.terms) + seq!['\'']),
        query_piece("ad_reached_countries"@, url_encoded(country_list(p.countries))),
        query_piece("fields"@, url_encoded(fields_text())),
        query_piece("access_token"@, p.access_token),
        query_piece("unmask_removed_content"@, bool_text(p.unmask_removed_content)),
    ]);
    lemma_base_join(
        vt,
        url_encoded(p.terms),
        url_encoded(country_list(p.countries)),
        url_encoded(fields_text()),
        p.access_token,
        bool_text(p.unmask_removed_content),
    );
    let head = "https://"@ + api_domain() + version_path(p.version) + seq!['?'];
    let s4 = head + join(base, '&');
    let typed_pieces = if p.search_type == SearchType::KeywordUnordered {
        base
    } else {
        base.push(pieces[5])
    };
    if p.search_type != SearchType::KeywordUnordered {
        lemma_literal_search_type();
        lemma_join_push(base, pieces[5], '&');
        lemma_regroup(head, join(base, '&'), pieces[5]);
        lemma_piece_step(s4, "search_type"@, search_type_text(p.search_type));
    }
    match p.after {
        Some(a) => {
            lemma_literal_after();
            let last = pieces[typed_pieces.len() as int];
            lemma_join_push(typed_pieces, last, '&');
            assert(typed_pieces.push(last) =~= pieces);
            lemma_regroup(head, join(typed_pieces, '&'), last);
            lemma_piece_step(head + join(typed_pieces, '&'), "after"@, a);
        },
        None => {
            assert(typed_pieces =~= pieces);
        },
    }
}

/// The canonical search URL writes exactly the search's query pairs: it is
/// the API's address, the version's search path, `?`, and the pieces joined by
/// `&`; no piece holds `&`, each is a name without `=`, then `=`, then a value
/// whose form decoding is the pair's value. This holds when the access token
/// and the cursor, which are written unencoded, are query-safe.
pub proof fn lemma_search_url_writes_pairs(p: ParamsView)
    requires
        query_safe(p.access_token),
        p.after matches Some(a) ==> query_safe(a),
    ensures
        search_url(p) == "https://"@ + api_domain() + version_path(p.version) + seq!['?'] + join(
            written_pieces(p),
            '&',
        ),
        split_on(join(written_pieces(p), '&'), '&') == written_pieces(p),
        written_pieces(p).len() == search_pairs(p).len(),
        forall|i: int|
            0 <= i < search_pairs(p).len() ==> #[trigger] written_pieces(p)[i] == query_piece(
                search_pairs(p)[i].0,
                written_values(p)[i],
            ) && free_of(search_pairs(p)[i].0, '=') && form_decoded(written_values(p)[i])
                == search_pairs(p)[i].1,
{
    lemma_written_values_decode(p);
    lemma_written_pieces_free(p);
    lemma_search_url_joined(p);
    lemma_split_join(written_pieces(p), '&');
}

/// The fields that every search asks for.
fn fields() -> (r: &'static str)
    ensures
        r@ == fields_text(),
{
    "id,page_id,page_name,ad_snapshot_url,ad_creation_time,ad_delivery_start_time,ad_delivery_stop_time,ad_creative_bodies,ad_creative_link_titles,ad_creative_link_captions,ad_creative_link_descriptions,age_country_gender_reach_breakdown,beneficiary_payers,eu_total_reach,languages,publisher_platforms,target_ages,target_gender,target_locations,total_reach_by_location,br_total_reach,bylines,currency,delivery_by_region,demographic_distribution,estimated_audience_size,impressions,spend"
}

/// Writes countries in list form, `['DE','FR']`.
pub fn country_list_text(countries: &Vec<String>) -> (r: String)
    ensures
        r@ == country_list(countries.deep_view()),
{
    proof {
        reveal_strlit("[");
        reveal_strlit("]");
        reveal_strlit(",");
        reveal_strlit("'");
        assert("["@ =~= seq!['[']);
        assert("]"@ =~= seq![']']);
        assert(","@ =~= seq![',']);
        assert("'"@ =~= seq!['\'']);
    }
    let ghost qs = countries.deep_view().map_values(|c: Seq<char>| quoted(c));
    let mut s = String::from_str("[");
    let mut i: usize = 0;
    while i < countries.len()
        invariant
            i <= countries@.len(),
            qs == countries.deep_view().map_values(|c: Seq<char>| quoted(c)),
            s@ == seq!['['] + join(qs.subrange(0, i as int), ','),
            ","@ == seq![','],
            "'"@ == seq!['\''],
        decreases countries@.len() - i,
    {
        let ghost prev = join(qs.subrange(0, i as int), ',');
        let ghost start = s@;
        if i > 0 {
            s.append(",");
        }
        s.append("'");
        s.append(countries[i].as_str());
        s.append("'");
        let ghost next = qs.subrange(0, i + 1);
        assert(next.drop_last() =~= qs.subrange(0, i as int));
        assert(countries.deep_view()[i as int] == countries@[i as int]@);
        assert(qs[i as int] == quoted(countries@[i as int]@));
        assert(next.last() == quoted(countries@[i as int]@));
        if i == 0 {
            assert(join(next, ',') == next[0]);
            assert(qs.subrange(0, 0) =~= Seq::<Seq<char>>::empty());
            assert(start =~= seq!['[']);
            assert(s@ =~= start + seq!['\''] + countries@[i as int]@ + seq!['\'']);
            assert(s@ =~= seq!['['] + next[0]);
        } else {
            assert(join(next, ',') == prev.push(',') + next.last());
            assert(s@ =~= start + seq![','] + seq!['\''] + countries@[i as int]@ + seq!['\'']);
            assert(s@ =~= seq!['['] + prev.push(',') + next.last());
        }
        assert(s@ =~= seq!['['] + join(next, ','));
        i = i + 1;
    }
    s.append("]");
    assert(qs.subrange(0, countries@.len() as int) =~= qs);
    assert(s@ =~= country_list(countries.deep_view()));
    s
}

/// Reads a search path `/v<major>.<minor>/ads_archive`.
fn version_of_path(path: &str) -> (r: Option<GraphApiVersion>)
    ensures
        r == path_version(path@),
{
    proof {
        reveal_strlit("/v");
        reveal_strlit("/ads_archive");
    }
    let n = path.unicode_len();
    if n < 14 {
        return None;
    }
    if !same_text(path.substring_char(0, 2), "/v") || !same_text(
        path.substring_char(n - 12, n),
        "/ads_archive",
    ) {
        return None;
    }
    let parts = split_at_char(path.substring_char(2, n - 12), '.');
    if parts.len() != 2 {
        return None;
    }
    let ghost sp = split_on(path@.subrange(2, n - 12), '.');
    assert(parts[0]@ == sp[0]);
    assert(parts[1]@ == sp[1]);
    let major = component_of(parts[0].as_str());
    let minor = component_of(parts[1].as_str());
    match (major, minor) {
        (Some(a), Some(b)) => Some(GraphApiVersion { major: a, minor: b }),
        _ => None,
    }
}

/// Reads a version component of a path.
fn component_of(s: &str) -> (r: Option<u16>)
    ensures
        r == path_component(s@),
{
    let n = s.unicode_len();
    if n == 0 {
        return None;
    }
    let mut i: usize = 0;
    while i < n
        invariant
            n == s@.len(),
            i <= n,
            forall|k: int| 0 <= k < i ==> is_digit(#[trigger] s@[k]),
        decreases n - i,
    {
        let c = s.get_char(i);
        if !('0' <= c && c <= '9') {
            assert(!is_digit(s@[i as int]));
            return None;
        }
        i = i + 1;
    }
    assert(all_digits(s@));
    assert(s@[0] != '+');
    assert(crate::numeric::unsigned_body(s@) == s@);
    match parse_bounded(s, COMPONENT_MAX) {
        Some(v) => {
            proof {
                crate::numeric::lemma_digits_value_nonneg(s@);
            }
            Some(v as u16)
        },
        None => None,
    }
}

/// Reads a list of countries written as `['DE','FR']`.
fn countries_of(s: &str) -> (r: Option<Vec<String>>)
    ensures
        match r {
            Some(cs) => countries_named(s@) == Some(cs.deep_view()),
            None => countries_named(s@) is None,
        },
{
    let inner = match strip_enclosing(s, '[', ']') {
        Some(inner) => inner,
        None => return None,
    };
    let pieces = split_at_char(inner.as_str(), ',');
    let ghost sp = split_on(inner@, ',');
    assert(pieces@.map_values(|p: String| p@) == sp);
    let mut out: Vec<String> = Vec::new();
    let mut i: usize = 0;
    while i < pieces.len()
        invariant
            i <= pieces@.len(),
            enclosed(s@, '[', ']') == Some(inner@),
            sp == split_on(inner@, ','),
            sp.len() == pieces@.len(),
            forall|k: int| 0 <= k < pieces@.len() ==> #[trigger] pieces@[k]@ == sp[k],
            out@.len() == i,
            forall|k: int| 0 <= k < i ==> (#[trigger] enclosed(sp[k], '\'', '\'')) is Some,
            forall|k: int| 0 <= k < i ==> #[trigger] out@[k]@ == enclosed(sp[k], '\'', '\'')->0,
        decreases pieces@.len() - i,
    {
        assert(pieces@.map_values(|p: String| p@)[i as int] == sp[i as int]);
        assert(pieces[i as int]@ == sp[i as int]);
        match strip_enclosing(pieces[i].as_str(), '\'', '\'') {
            Some(c) => {
                out.push(c);
            },
            None => {
                assert(!((enclosed(sp[i as int], '\'', '\'')) is Some));
                return None;
            },
        }
        i = i + 1;
    }
    assert(out.deep_view() =~= sp.map_values(|p: Seq<char>| enclosed(p, '\'', '\'')->0));
    Some(out)
}

impl Params {
    pub fn new(
        access_token: &str,
        unmask_removed_content: bool,
        version: GraphApiVersion,
        terms: &str,
        countries: &[String],
        search_type: SearchType,
        after: Option<&str>,
    ) -> (r: Self)
        ensures
            r.access_token@ == access_token@,
            r.unmask_removed_content == unmask_removed_content,
            r.version == version,
            r.terms@ == terms@,
            r.countries.deep_view() == countries@.map_values(|c: String| c@),
            r.search_type == search_type,
            r.after.deep_view() == match after {
                Some(a) => Some(a@),
                None => None::<Seq<char>>,
            },
    {
        let mut cs: Vec<String> = Vec::new();
        let mut i: usize = 0;
        while i < countries.len()
            invariant
                i <= countries@.len(),
                cs@.len() == i,
                cs.deep_view() == countries@.subrange(0, i as int).map_values(|c: String| c@),
            decreases countries@.len() - i,
        {
            let c = countries[i].clone();
            let ghost old_view = cs.deep_view();
            cs.push(c);
            assert(cs.deep_view() =~= old_view.push(countries@[i as int]@));
            assert(countries@.subrange(0, i + 1).map_values(|c: String| c@) =~= countries@.subrange(
                0,
                i as int,
            ).map_values(|c: String| c@).push(countries@[i as int]@));
            i = i + 1;
            assert(cs.deep_view() =~= countries@.subrange(0, i as int).map_values(|c: String| c@));
        }
        assert(countries@.subrange(0, countries@.len() as int) =~= countries@);
        Params {
            access_token: String::from_str(access_token),
            unmask_removed_content,
            version,
            terms: String::from_str(terms),
            countries: cs,
            search_type,
            after: match after {
                Some(a) => Some(String::from_str(a)),
                None => None,
            },
        }
    }

    /// The canonical request of these parameters: a GET of the search URL,
    /// stamped with `timestamp`, with no headers and no body.
    pub fn build_request(&self, timestamp: Option<Instant>) -> (r: Request)
        ensures
            r.url@ == search_url(self@),
            r.timestamp == timestamp,
            r.headers@.len() == 0,
            r.body is None,
    {
        let mut url = String::from_str("https://graph.facebook.com/v");
        let version = self.version.to_text();
        url.append(version.as_str());
        url.append("/ads_archive?search_terms='");
        let terms = percent_encoded(self.terms.as_str());
        url.append(terms.as_str());
        url.append("'&ad_reached_countries=");
        let list = country_list_text(&self.countries);
        let list = percent_encoded(list.as_str());
        url.append(list.as_str());
        url.append("&fields=");
        let fields = percent_encoded(fields());
        url.append(fields.as_str());
        url.append("&access_token=");
        url.append(self.access_token.as_str());
        url.append("&unmask_removed_content=");
        url.append(if self.unmask_removed_content { "true" } else { "false" });
        let ghost head = url@;
        match self.search_type {
            SearchType::KeywordUnordered => {
                assert(url@ =~= head + Seq::<char>::empty());
            },
            SearchType::KeywordExactPhrase => {
                url.append("&search_type=");
                url.append(self.search_type.as_str());
            },
        }
        let ghost typed = url@;
        match &self.after {
            Some(a) => {
                url.append("&after=");
                url.append(a.as_str());
            },
            None => {
                assert(url@ =~= typed + Seq::<char>::empty());
            },
        }
        assert(url@ =~= search_url(self@));
        Request { url, timestamp, headers: Vec::new(), body: None }
    }

    /// The search parameters that a URL text carries, or `None` when it is
    /// no URL or not a well-formed search URL of the API.
    pub fn parse_url_text(s: &str) -> (r: Option<Self>)
        ensures
            match r {
                Some(p) => url_parts_of(s@) is Some && params_of_url(url_parts_of(s@)->0) == Some(p@),
                None => url_parts_of(s@) is None || params_of_url(url_parts_of(s@)->0) is None,
            },
    {
        match parse_url(s) {
            Some(u) => Self::parse_url(&u),
            None => None,
        }
    }

    /// The search parameters that a parsed URL carries, or `None` when it is
    /// not a well-formed search URL of the API.
    pub fn parse_url(url: &UrlParts) -> (r: Option<Self>)
        ensures
            match r {
                Some(p) => params_of_url(url@) == Some(p@),
                None => params_of_url(url@) is None,
            },
    {
        if !same_text(url.scheme.as_str(), "https") {
            return None;
        }
        match &url.domain {
            Some(d) => {
                if !same_text(d.as_str(), "graph.facebook.com") {
                    return None;
                }
            },
            None => {
                return None;
            },
        }
        let version = match version_of_path(url.path.as_str()) {
            Some(v) => v,
            None => return None,
        };
        let access_token = match find_pair(&url.pairs, "access_token") {
            Some(t) => t,
            None => return None,
        };
        let unmask_removed_content = match find_pair(&url.pairs, "unmask_removed_content") {
            Some(t) => {
                if same_text(t.as_str(), "true") {
                    true
                } else if same_text(t.as_str(), "false") {
                    false
                } else {
                    return None;
                }
            },
            None => return None,
        };
        let terms = match find_pair(&url.pairs, "search_terms") {
            Some(t) => match strip_enclosing(t.as_str(), '\'', '\'') {
                Some(inner) => inner,
                None => return None,
            },
            None => return None,
        };
        let countries = match find_pair(&url.pairs, "ad_reached_countries") {
            Some(t) => match countries_of(t.as_str()) {
                Some(cs) => cs,
                None => return None,
            },
            None => return None,
        };
        let search_type = match find_pair(&url.pairs, "search_type") {
            Some(t) => match SearchType::from_str(t.as_str()) {
                Ok(st) => st,
                Err(_) => return None,
            },
            None => SearchType::default(),
        };
        let after = find_pair(&url.pairs, "after");
        let r = Params {
            access_token,
            unmask_removed_content,
            version,
            terms,
            countries,
            search_type,
            after,
        };
        assert(r@ == params_of_url(url@)->0);
        Some(r)
    }
}

} // verus!

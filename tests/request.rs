use meta_ads_scraper::client::request::{country_list_text, Params, SearchType};
use meta_ads_scraper::library::request::Params as LibraryParams;
use meta_ads_scraper::library::user_agent_or_default;
use meta_ads_scraper::link::UrlParts;
use meta_ads_scraper::time::Instant;
use meta_ads_scraper::version::{Error as VersionError, GraphApiVersion};

fn shoes() -> Params {
    Params::new(
        "TOKEN",
        true,
        GraphApiVersion::new(24, 0),
        "shoes",
        &["DE".to_string()],
        SearchType::KeywordUnordered,
        None,
    )
}

#[test]
fn default_search_url_encodes_values_and_omits_search_type() {
    let request = shoes().build_request(None);
    assert!(request.url.starts_with("https://graph.facebook.com/v24.0/ads_archive?"));
    assert!(request
        .url
        .contains("search_terms='shoes'&ad_reached_countries=%5B%27DE%27%5D"));
    assert!(!request.url.contains("search_type"));
    assert!(request.url.contains("&fields=id%2Cpage_id%2Cpage_name%2C"));
    assert!(request.url.ends_with("&access_token=TOKEN&unmask_removed_content=true"));
    assert!(request.timestamp.is_none());
    assert!(request.headers.is_empty());
    assert!(request.body.is_none());
}

#[test]
fn exact_phrase_and_cursor_are_appended_in_order() {
    let params = Params::new(
        "TOKEN",
        false,
        GraphApiVersion::new(23, 1),
        "red shoes",
        &["DE".to_string(), "FR".to_string()],
        SearchType::KeywordExactPhrase,
        Some("CURSOR"),
    );
    let request = params.build_request(Some(Instant::new(1_700_000_000, 5)));
    assert!(request.url.contains("/v23.1/ads_archive?search_terms='red%20shoes'"));
    assert!(request.url.contains("&ad_reached_countries=%5B%27DE%27%2C%27FR%27%5D"));
    assert!(request.url.ends_with(
        "&unmask_removed_content=false&search_type=KEYWORD_EXACT_PHRASE&after=CURSOR"
    ));
    assert_eq!(request.timestamp, Some(Instant::new(1_700_000_000, 5)));
}

#[test]
fn search_url_round_trips_through_url_parsing() {
    let params = Params::new(
        "TOKEN",
        true,
        GraphApiVersion::new(24, 0),
        "café & bar",
        &["DE".to_string(), "AT".to_string()],
        SearchType::KeywordExactPhrase,
        Some("QVFIUz"),
    );
    let url = params.build_request(None).url;
    assert_eq!(Params::parse_url_text(&url), Some(params));
    let plain = shoes();
    assert_eq!(Params::parse_url_text(&plain.build_request(None).url), Some(plain));
}

#[test]
fn search_url_parsing_rejects_other_urls() {
    assert_eq!(Params::parse_url_text("not a url"), None);
    assert_eq!(
        Params::parse_url_text("http://graph.facebook.com/v24.0/ads_archive?search_terms='a'&ad_reached_countries=['DE']&access_token=T&unmask_removed_content=true"),
        None
    );
    assert_eq!(
        Params::parse_url_text("https://graph.facebook.com/v24.x/ads_archive?search_terms='a'&ad_reached_countries=['DE']&access_token=T&unmask_removed_content=true"),
        None
    );
    assert_eq!(
        Params::parse_url_text("https://graph.facebook.com/v24.0/ads_archive?search_terms=a&ad_reached_countries=['DE']&access_token=T&unmask_removed_content=true"),
        None
    );
    assert_eq!(
        Params::parse_url_text("https://graph.facebook.com/v24.0/ads_archive?search_terms='a'&ad_reached_countries=['DE']&access_token=T&unmask_removed_content=true&search_type=OTHER"),
        None
    );
}

#[test]
fn search_url_parsing_reads_query_in_any_order() {
    let parsed = Params::parse_url_text(
        "https://graph.facebook.com/v21.3/ads_archive?unmask_removed_content=false&access_token=T&ad_reached_countries=%5B%27DE%27%2C%27FR%27%5D&search_terms=%27a%20b%27&after=C",
    )
    .unwrap();
    assert_eq!(parsed.version, GraphApiVersion::new(21, 3));
    assert_eq!(parsed.terms, "a b");
    assert_eq!(parsed.countries, vec!["DE".to_string(), "FR".to_string()]);
    assert_eq!(parsed.access_token, "T");
    assert!(!parsed.unmask_removed_content);
    assert_eq!(parsed.search_type, SearchType::KeywordUnordered);
    assert_eq!(parsed.after, Some("C".to_string()));
}

#[test]
fn parse_url_on_parts() {
    let parts = UrlParts {
        scheme: "https".to_string(),
        domain: Some("graph.facebook.com".to_string()),
        path: "/v24.0/ads_archive".to_string(),
        query: None,
        pairs: vec![
            ("search_terms".to_string(), "'shoes'".to_string()),
            ("ad_reached_countries".to_string(), "['DE']".to_string()),
            ("access_token".to_string(), "T".to_string()),
            ("unmask_removed_content".to_string(), "true".to_string()),
        ],
    };
    let parsed = Params::parse_url(&parts).unwrap();
    assert_eq!(parsed.terms, "shoes");
    assert_eq!(parsed.countries, vec!["DE".to_string()]);
    let mut other_host = parts.clone();
    other_host.domain = Some("example.com".to_string());
    assert_eq!(Params::parse_url(&other_host), None);
    let mut bad_list = parts.clone();
    bad_list.pairs[1].1 = "['DE',FR]".to_string();
    assert_eq!(Params::parse_url(&bad_list), None);
}

#[test]
fn country_list_is_bracketed_and_quoted() {
    assert_eq!(country_list_text(&vec!["DE".to_string()]), "['DE']");
    assert_eq!(country_list_text(&vec!["DE".to_string(), "FR".to_string()]), "['DE','FR']");
    assert_eq!(country_list_text(&vec![]), "[]");
}

#[test]
fn search_type_names() {
    assert_eq!(SearchType::KeywordUnordered.as_str(), "KEYWORD_UNORDERED");
    assert_eq!(SearchType::KeywordExactPhrase.as_str(), "KEYWORD_EXACT_PHRASE");
    assert_eq!(SearchType::from_str("KEYWORD_EXACT_PHRASE"), Ok(SearchType::KeywordExactPhrase));
    assert_eq!(SearchType::from_str("keyword_unordered"), Err(()));
    assert_eq!(SearchType::default(), SearchType::KeywordUnordered);
}

#[test]
fn versions_read_and_write() {
    assert_eq!(GraphApiVersion::from_str("24.0"), Ok(GraphApiVersion::new(24, 0)));
    assert_eq!(GraphApiVersion::new(24, 0).to_text(), "24.0");
    assert_eq!(
        GraphApiVersion::from_str("24"),
        Err(VersionError::InvalidGraphApiVersion("24".to_string()))
    );
    assert!(GraphApiVersion::from_str("1.2.3").is_err());
    assert!(GraphApiVersion::from_str("70000.0").is_err());
    assert_eq!(GraphApiVersion::from_str("65535.7"), Ok(GraphApiVersion::new(65535, 7)));
}

#[test]
fn library_url_round_trips() {
    for id in [0u64, 42, 1234567890123, u64::MAX] {
        let url = LibraryParams::new(id).build_request(None).url;
        assert_eq!(url, format!("https://www.facebook.com/ads/library/?id={id}"));
        assert_eq!(LibraryParams::parse_url_text(&url), Some(LibraryParams::new(id)));
    }
}

#[test]
fn library_url_parsing_rejects_other_urls() {
    assert_eq!(LibraryParams::parse_url_text("https://www.facebook.com/ads/library/?id=abc"), None);
    assert_eq!(LibraryParams::parse_url_text("https://www.facebook.com/ads/library/?q=1"), None);
    assert_eq!(LibraryParams::parse_url_text("https://www.facebook.com/ads/library?id=1"), None);
    assert_eq!(LibraryParams::parse_url_text("https://facebook.com/ads/library/?id=1"), None);
    assert_eq!(
        LibraryParams::parse_url_text("https://www.facebook.com/ads/library/?id=+7"),
        Some(LibraryParams::new(7))
    );
}

#[test]
fn user_agent_defaults_to_curl() {
    assert_eq!(user_agent_or_default(None), "curl/8.16.0");
    assert_eq!(user_agent_or_default(Some("agent/1".to_string())), "agent/1");
}

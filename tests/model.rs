use meta_ads_scraper::json::{Json, JsonNumber};
use meta_ads_scraper::model::library::{Ad, AdResponse, Error as ExtractError, Markup, PageEntityType};
use meta_ads_scraper::model::{
    Ad as ApiAd, AgeRange, Bounds, Date, ErrorType, LocationType, PublisherPlatforms, Response,
    TargetGender,
};

fn to_json(v: &serde_json::Value) -> Json {
    match v {
        serde_json::Value::Null => Json::Null,
        serde_json::Value::Bool(b) => Json::Bool(*b),
        serde_json::Value::Number(n) => match (n.as_u64(), n.as_i64()) {
            (Some(u), _) => Json::Number(JsonNumber::Unsigned(u)),
            (None, Some(i)) => Json::Number(JsonNumber::Negative(i)),
            _ => Json::Number(JsonNumber::Fraction(n.to_string())),
        },
        serde_json::Value::String(s) => Json::Str(s.clone()),
        serde_json::Value::Array(items) => Json::Array(items.iter().map(to_json).collect()),
        serde_json::Value::Object(map) => Json::Object(
            map.iter()
                .map(|(k, v)| (k.clone(), to_json(v)))
                .collect(),
        ),
    }
}

fn json(text: &str) -> Json {
    to_json(&serde_json::from_str::<serde_json::Value>(text).unwrap())
}

const MARKUP: &str = r#"[["mid_1", {"__html": "<div>ad</div>"}, 0, "HTML"]]"#;

const CARD: &str = r#"{
    "adArchiveID": "123456789",
    "snapshot": {
        "title": "A title",
        "link_url": null,
        "creation_time": 1700000000,
        "page_id": 987654321,
        "page_name": "Page",
        "page_profile_picture_url": "https://example.com/p.jpg",
        "page_entity_type": "regular_page",
        "page_is_profile_page": false,
        "page_like_count": 42,
        "instagram_url": "",
        "instagram_handle": "",
        "instagram_actor_name": "",
        "instagram_profile_pic_url": "",
        "videos": [{"video_sd_url": "https://example.com/v.mp4", "video_preview_image_url": "https://example.com/v.jpg"}],
        "extra": 1
    }
}"#;

fn document(markups: usize, cards: &[&str]) -> Json {
    let mut parts = Vec::new();
    for _ in 0..markups {
        parts.push(format!(r#"{{"outer": {{"markup": {MARKUP}}}}}"#));
    }
    for card in cards {
        parts.push(format!(r#"[{{"x": {{"deeplinkAdCard": {card}}}}}]"#));
    }
    json(&format!("[{}]", parts.join(",")))
}

#[test]
fn extract_of_empty_array_is_no_ad() {
    assert_eq!(Ad::extract(&json("[]")), Ok(None));
}

#[test]
fn extract_assembles_the_one_ad() {
    let ad = Ad::extract(&document(1, &[CARD])).unwrap().unwrap();
    assert_eq!(
        ad.markup,
        Markup { id: "mid_1".to_string(), html: "<div>ad</div>".to_string() }
    );
    let card = &ad.deeplink_ad_card;
    assert_eq!(card.ad_archive_id, 123456789);
    assert_eq!(card.snapshot.title, Some("A title".to_string()));
    assert_eq!(card.snapshot.link_url, None);
    assert_eq!(card.snapshot.creation_time.seconds, 1_700_000_000);
    assert_eq!(card.snapshot.page_id, 987654321);
    assert_eq!(card.snapshot.page_entity_type, PageEntityType::RegularPage);
    assert_eq!(card.snapshot.page_like_count, 42);
    assert_eq!(card.snapshot.videos.len(), 1);
    assert_eq!(
        card.snapshot.videos[0].video_preview_image_url,
        Some("https://example.com/v.jpg".to_string())
    );
    assert_eq!(card.snapshot.videos[0].video_hd_url, None);
}

#[test]
fn extract_reports_multiple_markups() {
    assert_eq!(
        Ad::extract(&document(2, &[CARD])),
        Err(ExtractError::MultipleMarkupElements)
    );
}

#[test]
fn extract_reports_missing_snapshot() {
    assert_eq!(Ad::extract(&document(1, &[])), Err(ExtractError::MissingSnapshotElement));
    assert_eq!(
        Ad::extract(&document(1, &["null"])),
        Err(ExtractError::MissingSnapshotElement)
    );
}

#[test]
fn extract_reports_multiple_snapshots() {
    assert_eq!(
        Ad::extract(&document(1, &[CARD, CARD])),
        Err(ExtractError::MultipleSnapshotElements)
    );
}

#[test]
fn extract_of_null_card_without_markup_is_no_ad() {
    assert_eq!(Ad::extract(&document(0, &["null"])), Ok(None));
    assert_eq!(Ad::extract(&document(0, &[CARD])), Err(ExtractError::MissingMarkupElement));
    assert_eq!(Ad::extract(&json(r#"{"a": 1}"#)), Err(ExtractError::MissingMarkupElement));
}

#[test]
fn extract_reports_malformed_fragments() {
    let bad_markup = json(r#"{"markup": [["id", {"__html": "h"}, 0, "TEXT"]], "deeplinkAdCard": null}"#);
    assert!(matches!(Ad::extract(&bad_markup), Err(ExtractError::Json(_))));
    let bad_card = json(&format!(r#"{{"markup": {MARKUP}, "deeplinkAdCard": {{"adArchiveID": "x"}}}}"#));
    assert!(matches!(Ad::extract(&bad_card), Err(ExtractError::Json(_))));
    let out_of_range = CARD.replace("1700000000", "9223372036854775807");
    let late = json(&format!(r#"{{"markup": {MARKUP}, "deeplinkAdCard": {out_of_range}}}"#));
    assert!(matches!(Ad::extract(&late), Err(ExtractError::Json(_))));
}

#[test]
fn ad_response_converts_both_ways() {
    let ad = Ad::extract(&document(1, &[CARD])).unwrap().unwrap();
    let response = AdResponse::from_option(Some(ad.clone()));
    assert_eq!(response.clone().into_option(), Some(ad));
    assert_eq!(AdResponse::from_option(None), AdResponse::Empty);
    assert_eq!(AdResponse::Empty.into_option(), None);
}

#[test]
fn success_response_with_paging_decodes() {
    let response = Response::decode(json(
        r#"{"data":[{"id":"1"},{"id":"2"}],"paging":{"cursors":{"after":"X"},"next":"https://graph.facebook.com/v24.0/ads_archive?after=X"}}"#,
    ))
    .unwrap();
    assert!(matches!(response, Response::Success(_)));
    assert_eq!(response.paging().unwrap().cursors.after, "X");
    assert_eq!(response.result().unwrap().len(), 2);
}

#[test]
fn success_response_without_paging_decodes() {
    let response = Response::decode(json(r#"{"data":[]}"#)).unwrap();
    assert!(response.paging().is_none());
    assert_eq!(response.result().unwrap().len(), 0);
}

#[test]
fn failure_response_decodes() {
    let response = Response::decode(json(
        r#"{"error":{"message":"Invalid OAuth access token.","type":"OAuthException","code":190,"fbtrace_id":"AbC"}}"#,
    ))
    .unwrap();
    assert!(response.paging().is_none());
    let error = response.result().unwrap_err();
    assert_eq!(error.message, "Invalid OAuth access token.");
    assert_eq!(error.error_type, ErrorType::OAuthException);
    assert_eq!(error.code, 190);
    assert_eq!(error.fbtrace_id, "AbC");
}

#[test]
fn malformed_responses_are_refused() {
    assert!(Response::decode(json(r#"{"data":[],"paging":{"cursors":{"after":"X"},"next":"n","extra":1}}"#)).is_err());
    assert!(Response::decode(json(r#"{"error":{"message":"m","type":"Other","code":1,"fbtrace_id":"t"}}"#)).is_err());
    assert!(Response::decode(json(r#"{"error":{"message":"m","type":"OAuthException","code":1,"fbtrace_id":"t"},"x":1}"#)).is_err());
    assert!(Response::decode(json("[]")).is_err());
}

const API_AD: &str = r#"{
    "id": "1234567890",
    "page_id": "42",
    "page_name": "Shoe Shop",
    "ad_snapshot_url": "https://www.facebook.com/ads/archive/render_ad/?id=1234567890",
    "ad_creation_time": "2024-02-29",
    "ad_delivery_start_time": "2024-03-01",
    "ad_creative_bodies": ["Buy shoes"],
    "age_country_gender_reach_breakdown": [
        {"country": "DE", "age_gender_breakdowns": [{"age_range": "18-24", "female": 10, "male": 5}, {"age_range": "65+", "unknown": 1}]}
    ],
    "beneficiary_payers": [{"beneficiary": "B", "payer": "P", "current": true}],
    "eu_total_reach": 16,
    "publisher_platforms": ["facebook", "instagram"],
    "target_ages": ["18", "65"],
    "target_gender": "All",
    "target_locations": [{"name": "Germany", "num_obfuscated": 0, "type": "countries", "excluded": false}, {"name": "X", "num_obfuscated": 1, "type": "zip_codes", "excluded": true}],
    "total_reach_by_location": [{"key": "DE", "value": 16}, {"key": "AT", "value": null}],
    "impressions": {"lower_bound": "1000", "upper_bound": "1999"},
    "spend": {"lower_bound": "0"},
    "delivery_by_region": {"Berlin": 1},
    "demographic_distribution": null,
    "estimated_audience_size": {"lower_bound": "100000", "upper_bound": null}
}"#;

#[test]
fn api_ad_decodes_every_field() {
    let ad = ApiAd::decode(json(API_AD)).unwrap();
    assert_eq!(ad.id, 1234567890);
    assert_eq!(ad.page_id, 42);
    assert_eq!(ad.page_name, "Shoe Shop");
    assert_eq!(ad.ad_creation_time, Date { year: 2024, month: 2, day: 29 });
    assert_eq!(ad.ad_delivery_stop_time, None);
    assert_eq!(ad.ad_creative_bodies, Some(vec!["Buy shoes".to_string()]));
    assert_eq!(ad.ad_creative_link_titles, None);
    let breakdowns = ad.age_country_gender_reach_breakdown.unwrap();
    assert_eq!(breakdowns[0].country, "DE");
    assert_eq!(breakdowns[0].age_gender_breakdowns[0].age_range, AgeRange::Range18_24);
    assert_eq!(breakdowns[0].age_gender_breakdowns[0].female, Some(10));
    assert_eq!(breakdowns[0].age_gender_breakdowns[1].age_range, AgeRange::Range65);
    assert_eq!(ad.beneficiary_payers.unwrap()[0].payer, "P");
    assert_eq!(ad.eu_total_reach, Some(16));
    assert_eq!(
        ad.publisher_platforms,
        Some(vec![PublisherPlatforms::Facebook, PublisherPlatforms::Instagram])
    );
    assert_eq!(ad.target_ages, Some(vec![18, 65]));
    assert_eq!(ad.target_gender, Some(TargetGender::All));
    let locations = ad.target_locations.unwrap();
    assert_eq!(locations[0].location_type, LocationType::Countries);
    assert_eq!(locations[1].location_type, LocationType::Unknown);
    let reach = ad.total_reach_by_location.unwrap();
    assert_eq!(reach[1].key, "AT");
    assert_eq!(reach[1].value, None);
    assert_eq!(ad.impressions, Some(Bounds { lower_bound: 1000, upper_bound: Some(1999) }));
    assert_eq!(ad.spend, Some(Bounds { lower_bound: 0, upper_bound: None }));
    assert!(ad.delivery_by_region.is_some());
    assert!(ad.demographic_distribution.is_none());
    assert_eq!(
        ad.estimated_audience_size,
        Some(Bounds { lower_bound: 100000, upper_bound: None })
    );
}

#[test]
fn api_ad_refuses_schema_violations() {
    let unknown_member = API_AD.replacen("\"id\"", "\"surprise\": 1, \"id\"", 1);
    assert!(ApiAd::decode(json(&unknown_member)).is_err());
    let bad_date = API_AD.replace("2024-02-29", "2023-02-29");
    assert!(ApiAd::decode(json(&bad_date)).is_err());
    let numeric_id = API_AD.replace("\"1234567890\",", "1234567890,");
    assert!(ApiAd::decode(json(&numeric_id)).is_err());
    let bad_age = API_AD.replace("[\"18\", \"65\"]", "[\"18\", \"old\"]");
    assert!(ApiAd::decode(json(&bad_age)).is_err());
}

#[test]
fn success_records_become_ads() {
    let text = format!(r#"{{"data":[{API_AD}]}}"#);
    let response = Response::decode(json(&text)).unwrap().into_ads().unwrap();
    assert_eq!(response.result().unwrap()[0].id, 1234567890);
    let bad = Response::decode(json(r#"{"data":[{"id":"1"}]}"#)).unwrap();
    assert!(bad.into_ads().is_err());
}

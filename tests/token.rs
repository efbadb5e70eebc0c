use meta_ads_scraper::json::{Json, JsonNumber};
use meta_ads_scraper::time::Instant;
use meta_ads_scraper::token::{upgrade_token_url, Creds, Response, TokenStatus, TokenType};
use meta_ads_scraper::version::GraphApiVersion;

fn creds(seconds: i64) -> Creds {
    Creds { token: "T".to_string(), expiration: Instant::new(seconds, 0) }
}

#[test]
fn token_status_by_remaining_time() {
    let now = Instant::new(1_000_000, 0);
    assert_eq!(creds(999_999).status(now), TokenStatus::Expired);
    assert_eq!(creds(1_000_000).status(Instant::new(1_000_000, 1)), TokenStatus::Expired);
    assert_eq!(creds(1_000_000).status(now), TokenStatus::ExpiringSoon);
    assert_eq!(creds(1_000_000 + 86_399).status(now), TokenStatus::ExpiringSoon);
    assert_eq!(creds(1_000_000 + 86_400).status(now), TokenStatus::Valid);
}

#[test]
fn token_response_becomes_creds() {
    let response = Response {
        access_token: "LONG".to_string(),
        token_type: TokenType::Bearer,
        expires_in: 5_184_000,
    };
    assert_eq!(response.duration(), 5_184_000);
    let creds = response.creds(Instant::new(1_700_000_000, 999_999_999));
    assert_eq!(creds.token, "LONG");
    assert_eq!(creds.expiration, Instant::new(1_705_184_000, 0));
}

#[test]
fn token_response_decodes() {
    let j = Json::Object(vec![
        ("access_token".to_string(), Json::Str("LONG".to_string())),
        ("token_type".to_string(), Json::Str("bearer".to_string())),
        ("expires_in".to_string(), Json::Number(JsonNumber::Unsigned(60))),
    ]);
    let response = Response::decode(&j).unwrap();
    assert_eq!(response.access_token, "LONG");
    assert_eq!(response.expires_in, 60);
    let wrong = Json::Object(vec![
        ("access_token".to_string(), Json::Str("LONG".to_string())),
        ("token_type".to_string(), Json::Str("mac".to_string())),
        ("expires_in".to_string(), Json::Number(JsonNumber::Unsigned(60))),
    ]);
    assert!(Response::decode(&wrong).is_err());
}

#[test]
fn upgrade_url_carries_every_value() {
    assert_eq!(
        upgrade_token_url(GraphApiVersion::new(24, 0), 42, "SECRET", "SHORT"),
        "https://graph.facebook.com/v24.0/oauth/access_token?grant_type=fb_exchange_token&client_id=42&client_secret=SECRET&fb_exchange_token=SHORT"
    );
}

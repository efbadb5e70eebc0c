use meta_ads_scraper::json::{get_member, Json, JsonNumber};
use meta_ads_scraper::model::attributes::{
    decode_integer_str, decode_integer_str_array, decode_optional_integer_str,
    decode_optional_integer_str_array, encode_integer_str, encode_integer_str_array,
    encode_optional_integer_str, NumericError,
};

fn to_json(v: &serde_json::Value) -> Json {
    match v {
        serde_json::Value::Null => Json::Null,
        serde_json::Value::Bool(b) => Json::Bool(*b),
        serde_json::Value::Number(n) => match (n.as_u64(), n.as_i64()) {
            (Some(u), _) => Json::Number(JsonNumber::Unsigned(u)),
            (None, Some(i)) => Json::Number(JsonNumber::Negative(i)),
            _ => Json::Number(JsonNumber::Fraction(n.to_string())),
        },
        serde_json::Value::String(s) => Json::Str(s.clone()),
        serde_json::Value::Array(items) => Json::Array(items.iter().map(to_json).collect()),
        serde_json::Value::Object(map) => Json::Object(
            map.iter()
                .map(|(k, v)| (k.clone(), to_json(v)))
                .collect(),
        ),
    }
}

fn to_value(j: &Json) -> serde_json::Value {
    match j {
        Json::Null => serde_json::Value::Null,
        Json::Bool(b) => serde_json::Value::Bool(*b),
        Json::Number(JsonNumber::Unsigned(u)) => serde_json::Value::from(*u),
        Json::Number(JsonNumber::Negative(i)) => serde_json::Value::from(*i),
        Json::Number(JsonNumber::Fraction(t)) => t.parse().unwrap(),
        Json::Str(s) => serde_json::Value::String(s.clone()),
        Json::Array(items) => serde_json::Value::Array(items.iter().map(to_value).collect()),
        Json::Object(es) => serde_json::Value::Object(
            es.iter().map(|(k, v)| (k.clone(), to_value(v))).collect(),
        ),
    }
}

fn parse(text: &str) -> Vec<(String, Json)> {
    match to_json(&serde_json::from_str::<serde_json::Value>(text).unwrap()) {
        Json::Object(es) => es,
        _ => panic!("not an object"),
    }
}

/// Writes a one-field record, leaving the field out when it is null.
fn record(name: &str, value: Json) -> String {
    let mut map = serde_json::Map::new();
    if !matches!(value, Json::Null) {
        map.insert(name.to_string(), to_value(&value));
    }
    serde_json::Value::Object(map).to_string()
}

#[test]
fn deserialize_integer_str() {
    let json = format!(r#"{{"value":"{}"}}"#, 123);
    let es = parse(&json);
    assert_eq!(decode_integer_str(get_member(&es, "value").unwrap()), Ok(123));
}

#[test]
fn serialize_integer_str() {
    let expected = format!(r#"{{"value":"{}"}}"#, 123);
    assert_eq!(record("value", encode_integer_str(123)), expected);
}

#[test]
fn deserialize_some_integer_str_opt() {
    let json = format!(r#"{{"value":"{}"}}"#, 123);
    let es = parse(&json);
    assert_eq!(decode_optional_integer_str(get_member(&es, "value")), Ok(Some(123)));
}

#[test]
fn serialize_some_integer_str_opt() {
    let expected = format!(r#"{{"value":"{}"}}"#, 123);
    assert_eq!(record("value", encode_optional_integer_str(Some(123))), expected);
}

#[test]
fn deserialize_missing_integer_str_opt() {
    let es = parse("{}");
    assert_eq!(decode_optional_integer_str(get_member(&es, "value")), Ok(None));
}

#[test]
fn deserialize_null_integer_str_opt() {
    let es = parse(r#"{"value":null}"#);
    assert_eq!(decode_optional_integer_str(get_member(&es, "value")), Ok(None));
}

#[test]
fn serialize_none_integer_str_opt() {
    assert_eq!(record("value", encode_optional_integer_str(None)), "{}");
}

#[test]
fn deserialize_integer_str_array() {
    let es = parse(r#"{"values":["123", "456"]}"#);
    assert_eq!(
        decode_integer_str_array(get_member(&es, "values").unwrap()),
        Ok(vec![123, 456])
    );
}

#[test]
fn serialize_integer_str_array() {
    let expected = r#"{"values":["123","456"]}"#;
    assert_eq!(record("values", encode_integer_str_array(&vec![123, 456])), expected);
}

#[test]
fn deserialize_invalid_integer_str_array() {
    let invalid_type = parse(r#"{"values":["123", 987, "456"]}"#);
    let invalid_value = parse(r#"{"values":["123", "abc", "456"]}"#);

    assert!(decode_integer_str_array(get_member(&invalid_type, "values").unwrap()).is_err());
    assert!(decode_integer_str_array(get_member(&invalid_value, "values").unwrap()).is_err());
}

#[test]
fn deserialize_integer_str_array_opt() {
    let es = parse(r#"{"values":["123", "456"]}"#);
    assert_eq!(
        decode_optional_integer_str_array(get_member(&es, "values")),
        Ok(Some(vec![123, 456]))
    );
}

#[test]
fn serialize_integer_str_array_opt() {
    let expected = r#"{"values":["123","456"]}"#;
    let value = Some(vec![123u64, 456]);
    let encoded = match &value {
        Some(vs) => encode_integer_str_array(vs),
        None => Json::Null,
    };
    assert_eq!(record("values", encoded), expected);
}

#[test]
fn integer_str_round_trip_on_extremes() {
    for n in [0u64, 7, 10, 123, 1_000_000, u64::MAX] {
        let encoded = encode_integer_str(n);
        assert_eq!(decode_integer_str(&encoded), Ok(n));
    }
}

#[test]
fn integer_str_errors() {
    assert_eq!(
        decode_integer_str(&Json::Str("abc".to_string())),
        Err(NumericError::InvalidNumericString("abc".to_string()))
    );
    assert_eq!(
        decode_integer_str(&Json::Number(JsonNumber::Unsigned(5))),
        Err(NumericError::UnexpectedValue)
    );
    assert_eq!(
        decode_integer_str(&Json::Str("18446744073709551616".to_string())),
        Err(NumericError::InvalidNumericString("18446744073709551616".to_string()))
    );
    assert_eq!(decode_integer_str(&Json::Str("+42".to_string())), Ok(42));
    assert!(decode_integer_str(&Json::Str("".to_string())).is_err());
    assert!(decode_integer_str(&Json::Str("-1".to_string())).is_err());
}

#[test]
fn integer_str_array_reports_first_bad_element() {
    let items = Json::Array(vec![
        Json::Str("1".to_string()),
        Json::Str("x".to_string()),
        Json::Str("y".to_string()),
    ]);
    assert_eq!(
        decode_integer_str_array(&items),
        Err(NumericError::InvalidNumericString("x".to_string()))
    );
}

use meta_ads_scraper::exchange::{encode_signed, order_entries, ArchiveEntry, Exchange};
use meta_ads_scraper::time::Instant;

fn entry(path: &str, modified: i128) -> ArchiveEntry {
    ArchiveEntry { path: path.to_string(), modified }
}

#[test]
fn newest_first_lists_descending_times() {
    let entries = vec![entry("b", 20), entry("a", 10), entry("d", 40), entry("c", 30)];
    let ordered = order_entries(entries, true);
    let paths: Vec<&str> = ordered.iter().map(|e| e.path.as_str()).collect();
    assert_eq!(paths, vec!["d", "c", "b", "a"]);
}

#[test]
fn oldest_first_lists_ascending_times() {
    let entries = vec![entry("b", 20), entry("a", -10), entry("d", 40), entry("c", 30)];
    let ordered = order_entries(entries, false);
    let paths: Vec<&str> = ordered.iter().map(|e| e.path.as_str()).collect();
    assert_eq!(paths, vec!["a", "b", "c", "d"]);
}

#[test]
fn ordering_keeps_every_entry() {
    assert!(order_entries(vec![], true).is_empty());
    let ordered = order_entries(vec![entry("x", 5), entry("y", 5), entry("z", 1)], true);
    assert_eq!(ordered.len(), 3);
    assert_eq!(ordered[2].path, "z");
}

#[test]
fn archive_file_name_is_milliseconds() {
    let exchange = Exchange::new(
        "https://example.com".to_string(),
        Instant::new(1_700_000_000, 123_456_789),
        vec![],
        None,
        vec![("content-type".to_string(), "application/json".to_string())],
        0u8,
    );
    assert_eq!(exchange.file_name(), Some("1700000000123.json".to_string()));
    let early = Exchange::new("u".to_string(), Instant::new(-2, 500_000_000), vec![], None, vec![], 0u8);
    assert_eq!(early.file_name(), Some("-1500.json".to_string()));
    assert_eq!(encode_signed(i64::MIN), "-9223372036854775808");
    assert_eq!(encode_signed(0), "0");
}

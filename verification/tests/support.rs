use nomad::cache::{CachedPage, PageCache, MAX_CACHE_AGE_SECS};
use nomad::config::Config;
use nomad::format::{format_bytes, format_uptime};
use nomad::wire::PageError;

#[test]
fn cache_put_get_and_replace() {
    let mut cache = PageCache::new();
    cache.put("abc:page.mu", ">Test Page", 100);
    let page = cache.get("abc:page.mu").unwrap();
    assert_eq!(page.content, ">Test Page");
    assert_eq!(page.fetched_at, 100);

    cache.put("abc:page.mu", ">Newer", 200);
    assert_eq!(cache.stats().0, 1);
    assert_eq!(cache.get("abc:page.mu").unwrap().content, ">Newer");
}

#[test]
fn cache_miss_and_clear() {
    let mut cache = PageCache::new();
    assert!(cache.get("missing").is_none());
    cache.put("a", "x", 1);
    cache.put("b", "y", 2);
    cache.clear();
    let (count, size) = cache.stats();
    assert_eq!(count, 0);
    assert_eq!(size, 0);
}

#[test]
fn staleness_follows_the_age_limit() {
    let page = CachedPage { content: "x".to_string(), fetched_at: 1000 };
    assert_eq!(page.age(1500), 500);
    assert_eq!(page.age(500), 0, "a clock that went backwards reads as age zero");
    assert!(!page.is_stale(1000 + MAX_CACHE_AGE_SECS));
    assert!(page.is_stale(1001 + MAX_CACHE_AGE_SECS));
}

#[test]
fn config_defaults_and_paths() {
    let config = Config::default();
    assert_eq!(config.network.testnet, "amsterdam.connect.reticulum.network:4965");
    assert!(config.network.custom_interface.is_none());
    assert!(!config.node.enabled);
    assert_eq!(config.node.pages_path, "pages");
    assert_eq!(Config::data_dir(), ".nomad");
    assert_eq!(Config::config_path(), ".nomad/config.toml");
}

#[test]
fn bytes_format_exact_values() {
    assert_eq!(format_bytes(999), "999 B");
    assert_eq!(format_bytes(1500), "1.50 KB");
    assert_eq!(format_bytes(2_000_000), "2.00 MB");
    assert_eq!(format_bytes(2_340_000_000), "2.34 GB");
}

#[test]
fn uptime_format_exact_values() {
    assert_eq!(format_uptime(59), "59s");
    assert_eq!(format_uptime(61), "1m 1s");
    assert_eq!(format_uptime(3661), "1h 1m");
    assert_eq!(format_uptime(90061), "1d 1h");
}

#[test]
fn error_messages_match_the_taxonomy() {
    assert_eq!(PageError::NoContent.message(), "No content in response");
    assert!(PageError::ParseFailed.message().starts_with("Failed to parse response:"));
    assert!(PageError::InvalidUtf8.message().starts_with("Invalid UTF-8:"));
}

#[test]
fn url_string_is_hex_address_and_path() {
    let url = nomad::types::PageUrl { dest_hash: [0xabu8; 16], path: "/x.mu".to_string() };
    assert_eq!(url.url_string(), format!("{}:/x.mu", "ab".repeat(16)));
}

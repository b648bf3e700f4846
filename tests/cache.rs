use weather_app::cache::{WeatherCache, WeatherEntry};

fn entry(weather: Option<u32>, forecast: Option<&str>) -> WeatherEntry<u32, String> {
    WeatherEntry { weather, forecast: forecast.map(String::from) }
}

#[test]
fn new_cache_holds_no_key() {
    let cache: WeatherCache<u32, String> = WeatherCache::new();
    assert!(!cache.contains("10001"));
    assert!(!cache.contains(""));
    assert!(cache.read("10001").is_none());
}

#[test]
fn written_entry_is_read_back() {
    let mut cache = WeatherCache::new();
    cache.write("10001", entry(Some(1), Some("sunny")));
    assert!(cache.contains("10001"));
    assert_eq!(cache.read("10001"), Some(&entry(Some(1), Some("sunny"))));
}

#[test]
fn last_write_wins() {
    let mut cache = WeatherCache::new();
    cache.write("Paris", entry(Some(1), None));
    cache.write("Paris", entry(None, Some("rain")));
    assert_eq!(cache.read("Paris"), Some(&entry(None, Some("rain"))));
}

#[test]
fn keys_are_not_canonicalised() {
    let mut cache = WeatherCache::new();
    cache.write("10001", entry(Some(1), None));
    assert!(!cache.contains("zip=10001"));
    assert!(!cache.contains(" 10001"));
}

#[test]
fn writes_keep_other_keys() {
    let mut cache = WeatherCache::new();
    cache.write("a", entry(Some(1), None));
    cache.write("b", entry(Some(2), None));
    cache.write("a", entry(Some(3), None));
    assert_eq!(cache.read("b"), Some(&entry(Some(2), None)));
    assert_eq!(cache.read("a"), Some(&entry(Some(3), None)));
}

#[test]
fn empty_entry_is_still_present() {
    let mut cache = WeatherCache::new();
    cache.write("nowhere", entry(None, None));
    assert!(cache.contains("nowhere"));
    assert_eq!(cache.read("nowhere"), Some(&entry(None, None)));
}

use weather_app::cache::{WeatherCache, WeatherEntry};
use weather_app::dispatcher::{poll, Poll, POLL_INTERVAL_MS};
use weather_app::worker::FetchWorker;

#[test]
fn zero_timeout_gives_up_and_later_write_is_still_read() {
    let mut cache: WeatherCache<u32, u32> = WeatherCache::new();
    let mut worker = FetchWorker::new();
    worker.take(String::from("10001"));
    assert!(matches!(poll(&cache, "10001", 0, 0), Poll::GaveUp));
    worker.current_done(Ok::<u32, ()>(7));
    worker.forecast_done(Ok::<u32, ()>(8), &mut cache);
    assert_eq!(cache.read("10001"), Some(&WeatherEntry { weather: Some(7), forecast: Some(8) }));
    match poll(&cache, "10001", 0, 0) {
        Poll::Ready(e) => assert_eq!(e, &WeatherEntry { weather: Some(7), forecast: Some(8) }),
        _ => panic!("the entry was written"),
    }
}

#[test]
fn missing_entry_within_time_means_wait() {
    let cache: WeatherCache<u32, u32> = WeatherCache::new();
    assert!(matches!(poll(&cache, "Paris", 0, 100), Poll::Wait));
    assert!(matches!(poll(&cache, "Paris", 99, 100), Poll::Wait));
    assert!(matches!(poll(&cache, "Paris", 100, 100), Poll::GaveUp));
    assert!(matches!(poll(&cache, "Paris", u64::MAX, 100), Poll::GaveUp));
}

#[test]
fn present_entry_is_taken_even_after_timeout() {
    let mut cache = WeatherCache::new();
    cache.write("Paris", WeatherEntry { weather: None::<u32>, forecast: Some(3u32) });
    match poll(&cache, "Paris", 500, 100) {
        Poll::Ready(e) => assert_eq!(e.forecast, Some(3)),
        _ => panic!("the entry is there"),
    }
}

#[test]
fn poll_interval_is_ten_milliseconds() {
    assert_eq!(POLL_INTERVAL_MS, 10);
}

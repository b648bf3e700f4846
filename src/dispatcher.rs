//! The decision that a waiting user interface takes at each look into the cache, after it
//! has queued a key: take the entry, wait a little longer, or give up.
use vstd::prelude::*;
use crate::cache::{WeatherCache, WeatherEntry};

verus! {

/// How long to wait between two looks into the cache, in milliseconds.
pub const POLL_INTERVAL_MS: u64 = 10;

/// The outcome of one look into the cache.
pub enum Poll<'a, W, F> {
    /// The entry of the key is there.
    Ready(&'a WeatherEntry<W, F>),
    /// Not there yet: wait `POLL_INTERVAL_MS` and look again.
    Wait,
    /// Not there, and the time allowed is spent.
    GaveUp,
}

/// One look into the cache for `key`, after `waited_ms` of the `timeout_ms` allowed. An entry
/// that is there is taken, whatever the time spent; giving up leaves the cache as it is, so
/// an entry written later is there for the next caller.
pub fn poll<'a, W, F>(
    cache: &'a WeatherCache<W, F>,
    key: &str,
    waited_ms: u64,
    timeout_ms: u64,
) -> (r: Poll<'a, W, F>)
    requires
        cache.wf(),
    ensures
        cache@.contains_key(key@) ==> (r matches Poll::Ready(e) && *e == cache@[key@]),
        !cache@.contains_key(key@) && waited_ms < timeout_ms ==> r is Wait,
        !cache@.contains_key(key@) && waited_ms >= timeout_ms ==> r is GaveUp,
{
    match cache.read(key) {
        Some(entry) => Poll::Ready(entry),
        None => {
            if waited_ms < timeout_ms {
                Poll::Wait
            } else {
                Poll::GaveUp
            }
        },
    }
}

} // verus!

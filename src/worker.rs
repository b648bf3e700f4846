//! The decisions of the single fetch worker: it takes one key at a time, reads it as a
//! place, asks for the current weather and then the forecast, and writes what came back.
//! Whoever runs the worker performs the fetches and hands their results back.
use vstd::prelude::*;
use crate::cache::{WeatherCache, WeatherEntry};
use crate::location::{parse, parses_to, StructuredLocation};

verus! {

/// Where the worker stands in the handling of one key.
pub enum Stage<W> {
    /// Waiting for the next key.
    Idle,
    /// The current weather of `key`, read as `location`, is being fetched.
    Current { key: String, location: StructuredLocation },
    /// The current weather of `key` came back as `weather`; its forecast is being fetched.
    Forecast { key: String, location: StructuredLocation, weather: Option<W> },
}

/// The fetch worker. It takes a new key only once the previous one is written.
pub struct FetchWorker<W> {
    stage: Stage<W>,
    taken: Ghost<Seq<Seq<char>>>,
    written: Ghost<Seq<Seq<char>>>,
}

impl<W> FetchWorker<W> {
    /// The keys taken so far, in order.
    pub closed spec fn taken(&self) -> Seq<Seq<char>> {
        self.taken@
    }

    /// The keys whose entries were written so far, in order.
    pub closed spec fn written(&self) -> Seq<Seq<char>> {
        self.written@
    }

    pub closed spec fn stage(&self) -> Stage<W> {
        self.stage
    }

    pub open spec fn is_idle(&self) -> bool {
        self.stage() is Idle
    }

    pub open spec fn fetching_current(&self) -> bool {
        self.stage() is Current
    }

    pub open spec fn fetching_forecast(&self) -> bool {
        self.stage() is Forecast
    }

    /// The key being handled.
    pub open spec fn key(&self) -> Seq<char> {
        match self.stage() {
            Stage::Current { key, .. } => key@,
            Stage::Forecast { key, .. } => key@,
            Stage::Idle => Seq::empty(),
        }
    }

    /// Every key taken is written before the next is taken: when idle, the keys written are
    /// the keys taken; otherwise they lack only the key being handled, which is the last
    /// taken. The location being fetched is what that key reads as.
    pub closed spec fn wf(&self) -> bool {
        match self.stage {
            Stage::Idle => self.written@ == self.taken@,
            Stage::Current { key, location } => {
                &&& self.written@.push(key@) == self.taken@
                &&& parses_to(key@, location)
            },
            Stage::Forecast { key, location, .. } => {
                &&& self.written@.push(key@) == self.taken@
                &&& parses_to(key@, location)
            },
        }
    }

    /// A worker that has taken no key.
    pub fn new() -> (r: Self)
        ensures
            r.wf(),
            r.is_idle(),
            r.taken() == Seq::<Seq<char>>::empty(),
            r.written() == Seq::<Seq<char>>::empty(),
    {
        FetchWorker { stage: Stage::Idle, taken: Ghost(Seq::empty()), written: Ghost(Seq::empty()) }
    }

    /// Takes the next key of the queue and reads it as a place, whose current weather is to
    /// be fetched next.
    pub fn take(&mut self, key: String)
        requires
            old(self).wf(),
            old(self).is_idle(),
        ensures
            final(self).wf(),
            final(self).fetching_current(),
            final(self).key() == key@,
            final(self).taken() == old(self).taken().push(key@),
            final(self).written() == old(self).written(),
    {
        let location = parse(key.as_str());
        self.stage = Stage::Current { key, location };
        self.taken = Ghost(self.taken@.push(self.key()));
    }

    /// The place whose weather is being fetched: what the key being handled reads as.
    pub fn location(&self) -> (r: &StructuredLocation)
        requires
            self.wf(),
            !self.is_idle(),
        ensures
            parses_to(self.key(), *r),
    {
        match &self.stage {
            Stage::Current { location, .. } => location,
            Stage::Forecast { location, .. } => location,
            Stage::Idle => unreached(),
        }
    }

    /// Takes the outcome of the current weather fetch. A failure is kept as an absent half;
    /// the forecast is to be fetched next either way.
    pub fn current_done<E>(&mut self, result: Result<W, E>)
        requires
            old(self).wf(),
            old(self).fetching_current(),
        ensures
            final(self).wf(),
            final(self).fetching_forecast(),
            final(self).key() == old(self).key(),
            final(self).stage()->Forecast_location == old(self).stage()->Current_location,
            final(self).stage()->Forecast_weather == result.ok(),
            final(self).taken() == old(self).taken(),
            final(self).written() == old(self).written(),
    {
        let weather = match result {
            Ok(w) => Some(w),
            Err(_) => None,
        };
        let mut stage = Stage::Idle;
        core::mem::swap(&mut self.stage, &mut stage);
        match stage {
            Stage::Current { key, location } => {
                self.stage = Stage::Forecast { key, location, weather };
            },
            _ => {},
        }
    }

    /// Takes the outcome of the forecast fetch and writes the entry of the key being handled,
    /// with whichever halves came back, then waits for the next key.
    pub fn forecast_done<F, E>(&mut self, result: Result<F, E>, cache: &mut WeatherCache<W, F>)
        requires
            old(self).wf(),
            old(self).fetching_forecast(),
            old(cache).wf(),
        ensures
            final(self).wf(),
            final(self).is_idle(),
            final(cache).wf(),
            final(cache)@ == old(cache)@.insert(
                old(self).key(),
                (WeatherEntry { weather: old(self).stage()->Forecast_weather, forecast: result.ok() }),
            ),
            final(self).taken() == old(self).taken(),
            final(self).written() == old(self).written().push(old(self).key()),
    {
        let forecast = match result {
            Ok(f) => Some(f),
            Err(_) => None,
        };
        let mut stage = Stage::Idle;
        core::mem::swap(&mut self.stage, &mut stage);
        match stage {
            Stage::Forecast { key, weather, .. } => {
                cache.write(key.as_str(), WeatherEntry { weather, forecast });
                self.written = Ghost(self.written@.push(key@));
            },
            _ => {},
        }
    }
}

/// Keys are written one at a time, in the order in which they were taken: the keys written
/// so far are the keys taken so far, short of at most the last one, which is being fetched.
pub proof fn lemma_written_in_taken_order<W>(worker: &FetchWorker<W>)
    requires
        worker.wf(),
    ensures
        worker.written().is_prefix_of(worker.taken()),
        worker.taken().len() <= worker.written().len() + 1,
        worker.is_idle() ==> worker.written() == worker.taken(),
{
    if !worker.is_idle() {
        assert(worker.written() =~= worker.taken().subrange(0, worker.written().len() as int));
    } else {
        assert(worker.written() =~= worker.taken().subrange(0, worker.written().len() as int));
    }
}

} // verus!

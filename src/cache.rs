//! The cache of fetched weather, keyed by the exact search text.
use vstd::prelude::*;

verus! {

/// What one fetch brought back. Either half is absent when its call failed.
#[derive(Clone, Debug, PartialEq)]
pub struct WeatherEntry<W, F> {
    pub weather: Option<W>,
    pub forecast: Option<F>,
}

/// Fetched weather by search text. A key, once written, stays; a second write of a key
/// replaces its entry.
pub struct WeatherCache<W, F> {
    entries: Vec<(String, WeatherEntry<W, F>)>,
}

impl<W, F> View for WeatherCache<W, F> {
    type V = Map<Seq<char>, WeatherEntry<W, F>>;

    closed spec fn view(&self) -> Map<Seq<char>, WeatherEntry<W, F>> {
        Map::new(
            |k: Seq<char>| exists|i: int| 0 <= i < self.entries@.len() && self.entries@[i].0@ == k,
            |k: Seq<char>|
                self.entries@[choose|i: int|
                    0 <= i < self.entries@.len() && self.entries@[i].0@ == k].1,
        )
    }
}

impl<W, F> WeatherCache<W, F> {
    /// No key is held twice.
    pub closed spec fn wf(&self) -> bool {
        forall|i: int, j: int|
            0 <= i < j < self.entries@.len() ==> #[trigger] self.entries@[i].0@
                != #[trigger] self.entries@[j].0@
    }

    /// An empty cache.
    pub fn new() -> (r: Self)
        ensures
            r.wf(),
            r@ == Map::<Seq<char>, WeatherEntry<W, F>>::empty(),
    {
        let r = WeatherCache { entries: Vec::new() };
        assert(r@ =~= Map::<Seq<char>, WeatherEntry<W, F>>::empty());
        r
    }

    /// Where `key` is held, its index in the entries.
    fn position(&self, key: &String) -> (r: Option<usize>)
        requires
            self.wf(),
        ensures
            r is Some ==> r->0 < self.entries@.len() && self.entries@[r->0 as int].0@ == key@,
            r is None ==> !self@.contains_key(key@),
    {
        let mut i: usize = 0;
        while i < self.entries.len()
            invariant
                i <= self.entries@.len(),
                forall|j: int| 0 <= j < i ==> self.entries@[j].0@ != key@,
            decreases self.entries@.len() - i,
        {
            if self.entries[i].0 == *key {
                return Some(i);
            }
            i = i + 1;
        }
        None
    }

    proof fn lemma_lookup(&self, i: int)
        requires
            self.wf(),
            0 <= i < self.entries@.len(),
        ensures
            self@.contains_key(self.entries@[i].0@),
            self@[self.entries@[i].0@] == self.entries@[i].1,
    {
        let k = self.entries@[i].0@;
        let j = choose|j: int| 0 <= j < self.entries@.len() && self.entries@[j].0@ == k;
        assert(i == j);
    }

    /// Stores `entry` under `key`, in place of what was there.
    pub fn write(&mut self, key: &str, entry: WeatherEntry<W, F>)
        requires
            old(self).wf(),
        ensures
            final(self).wf(),
            final(self)@ == old(self)@.insert(key@, entry),
    {
        let key = key.to_owned();
        match self.position(&key) {
            Some(i) => {
                let ghost before = self.entries@;
                self.entries.set(i, (key, entry));
                proof {
                    assert forall|k: Seq<char>| #[trigger]
                        self@.contains_key(k) == old(self)@.insert(key@, entry).contains_key(k) by {
                        if old(self)@.contains_key(k) {
                            let j = choose|j: int| 0 <= j < before.len() && before[j].0@ == k;
                            assert(self.entries@[j].0@ == k);
                        }
                        if self@.contains_key(k) {
                            let j = choose|j: int|
                                0 <= j < self.entries@.len() && self.entries@[j].0@ == k;
                            assert(before[j].0@ == k);
                        }
                    }
                    assert forall|k: Seq<char>| #[trigger] self@.contains_key(k) implies self@[k]
                        == old(self)@.insert(key@, entry)[k] by {
                        let j = choose|j: int|
                            0 <= j < self.entries@.len() && self.entries@[j].0@ == k;
                        self.lemma_lookup(j);
                        if k != key@ {
                            old(self).lemma_lookup(j);
                        }
                    }
                    assert(self@ =~= old(self)@.insert(key@, entry));
                }
            },
            None => {
                let ghost before = self.entries@;
                self.entries.push((key, entry));
                proof {
                    assert forall|k: Seq<char>| #[trigger]
                        self@.contains_key(k) == old(self)@.insert(key@, entry).contains_key(k) by {
                        if old(self)@.contains_key(k) {
                            let j = choose|j: int| 0 <= j < before.len() && before[j].0@ == k;
                            assert(self.entries@[j].0@ == k);
                        }
                        if k == key@ {
                            assert(self.entries@[before.len() as int].0@ == k);
                        }
                    }
                    assert forall|k: Seq<char>| #[trigger] self@.contains_key(k) implies self@[k]
                        == old(self)@.insert(key@, entry)[k] by {
                        let j = choose|j: int|
                            0 <= j < self.entries@.len() && self.entries@[j].0@ == k;
                        self.lemma_lookup(j);
                        if k != key@ {
                            old(self).lemma_lookup(j);
                        }
                    }
                    assert(self@ =~= old(self)@.insert(key@, entry));
                }
            },
        }
    }

    /// Whether `key` has been written.
    pub fn contains(&self, key: &str) -> (r: bool)
        requires
            self.wf(),
        ensures
            r == self@.contains_key(key@),
    {
        let key = key.to_owned();
        match self.position(&key) {
            Some(i) => {
                proof {
                    self.lemma_lookup(i as int);
                }
                true
            },
            None => false,
        }
    }

    /// The entry written last under `key`, if any.
    pub fn read(&self, key: &str) -> (r: Option<&WeatherEntry<W, F>>)
        requires
            self.wf(),
        ensures
            r is Some == self@.contains_key(key@),
            r is Some ==> *r->0 == self@[key@],
    {
        let key = key.to_owned();
        match self.position(&key) {
            Some(i) => {
                proof {
                    self.lemma_lookup(i as int);
                }
                Some(&self.entries[i].1)
            },
            None => None,
        }
    }
}

/// A new cache holds no key: before any write, `contains` is false whatever the key.
pub proof fn lemma_new_cache_holds_no_key<W, F>(cache: WeatherCache<W, F>, key: Seq<char>)
    requires
        cache@ == Map::<Seq<char>, WeatherEntry<W, F>>::empty(),
    ensures
        !cache@.contains_key(key),
{
}

/// After `write(key, entry)`, `contains(key)` is true and `read(key)` gives `entry`.
pub proof fn lemma_read_after_write<W, F>(
    before: WeatherCache<W, F>,
    after: WeatherCache<W, F>,
    key: Seq<char>,
    entry: WeatherEntry<W, F>,
)
    requires
        after@ == before@.insert(key, entry),
    ensures
        after@.contains_key(key),
        after@[key] == entry,
{
}

/// Two writes of one key: the second entry is the one read back, and the cache holds the
/// same keys as after the first.
pub proof fn lemma_last_write_wins<W, F>(
    first: WeatherCache<W, F>,
    second: WeatherCache<W, F>,
    third: WeatherCache<W, F>,
    key: Seq<char>,
    entry1: WeatherEntry<W, F>,
    entry2: WeatherEntry<W, F>,
)
    requires
        second@ == first@.insert(key, entry1),
        third@ == second@.insert(key, entry2),
    ensures
        third@[key] == entry2,
        third@.dom() == second@.dom(),
{
    assert(third@.dom() =~= second@.dom());
}

/// A write removes no key, and leaves the entries of the other keys as they were.
pub proof fn lemma_write_keeps_other_keys<W, F>(
    before: WeatherCache<W, F>,
    after: WeatherCache<W, F>,
    key: Seq<char>,
    entry: WeatherEntry<W, F>,
    other: Seq<char>,
)
    requires
        after@ == before@.insert(key, entry),
        before@.contains_key(other),
    ensures
        after@.contains_key(other),
        other != key ==> after@[other] == before@[other],
{
}

} // verus!

//! The preloader's bookkeeping: which thumbnails it holds, which keys are being computed, and
//! what each finished computation changes.
//!
//! The preloader keeps two tiers. The fast tier maps keys to thumbnails in the order they were
//! first stored; once it grows past its maximum it is trimmed from the front down to four
//! fifths of the maximum, an approximate policy. The bounded tier is an `lru` cache of the same
//! capacity that evicts by write order. A key is Uncached, Loading (in flight) or Cached; a
//! failed computation returns it to Uncached, so a later pass may try again.
//!
//! Walking directories, waiting for permits and running the codec are the caller's part: it
//! asks `begin_load` before it starts a computation and reports the outcome to `finish_load`.
use crate::bounded::{after_put, bounded_wf, holds_key, keys_unique, lemma_put_keeps_wf, lookup, slot_of, with_entry};
use crate::store::{clear_text, new_text_cache, put_text, text_capacity, text_entries};
use crate::text::{lower_of, lowercase, same_text};
use lru::LruCache;
use vstd::prelude::*;

verus! {

/// The fewest permits that the bounded mode runs with.
pub const MIN_CONCURRENCY: usize = 4;

/// The size bound of thumbnails made in aggressive mode.
pub const AGGRESSIVE_MAX_SIZE: u32 = 512;

/// The views of a list of key and value texts.
pub open spec fn text_pairs(v: Seq<(String, String)>) -> Seq<(Seq<char>, Seq<char>)> {
    v.map_values(|p: (String, String)| (p.0@, p.1@))
}

/// The views of a list of texts.
pub open spec fn texts(v: Seq<String>) -> Seq<Seq<char>> {
    v.map_values(|s: String| s@)
}

/// Four fifths of `max`, rounded down: the size that a trim brings the fast tier to.
pub open spec fn trim_target(max: nat) -> nat {
    max * 4 / 5
}

/// The fast tier once trimmed: over `max`, its first entries go until `trim_target(max)` are
/// left.
pub open spec fn trimmed(
    entries: Seq<(Seq<char>, Seq<char>)>,
    max: nat,
) -> Seq<(Seq<char>, Seq<char>)> {
    if entries.len() > max {
        entries.skip(entries.len() - trim_target(max))
    } else {
        entries
    }
}

/// The fast tier after storing a computed thumbnail.
pub open spec fn fast_after_store(
    entries: Seq<(Seq<char>, Seq<char>)>,
    max: nat,
    key: Seq<char>,
    value: Seq<char>,
) -> Seq<(Seq<char>, Seq<char>)> {
    trimmed(with_entry(entries, key, value), max)
}

/// The number of permits for `cpu_count` cores: twice the cores, at least `MIN_CONCURRENCY`.
pub open spec fn concurrency_for(cpu_count: nat) -> nat {
    let twice = if 2 * cpu_count > usize::MAX { usize::MAX as nat } else { 2 * cpu_count };
    if twice < MIN_CONCURRENCY { MIN_CONCURRENCY as nat } else { twice }
}

/// How many permits the bounded mode runs with on a machine of `cpu_count` cores.
pub fn concurrency_limit(cpu_count: usize) -> (r: usize)
    ensures
        r == concurrency_for(cpu_count as nat),
{
    let twice = cpu_count.checked_mul(2).unwrap_or(usize::MAX);
    if twice < MIN_CONCURRENCY { MIN_CONCURRENCY } else { twice }
}

/// What a pass in aggressive mode found for one file.
#[derive(Debug, Clone)]
pub enum PreloadOutcome {
    /// The fast tier held the file's thumbnail already; nothing was computed.
    AlreadyCached,
    /// The thumbnail was computed.
    Loaded(String),
    /// The computation failed.
    Failed,
}

/// The fast tier after a batch of aggressive-mode outcomes, stored in order.
pub open spec fn fast_after_batch(
    entries: Seq<(Seq<char>, Seq<char>)>,
    max: nat,
    keys: Seq<Seq<char>>,
    outcomes: Seq<PreloadOutcome>,
) -> Seq<(Seq<char>, Seq<char>)>
    decreases outcomes.len(),
{
    if outcomes.len() == 0 || keys.len() != outcomes.len() {
        entries
    } else {
        let before = fast_after_batch(entries, max, keys.drop_last(), outcomes.drop_last());
        match outcomes.last() {
            PreloadOutcome::Loaded(data) => fast_after_store(before, max, keys.last(), data@),
            _ => before,
        }
    }
}

/// The bounded tier after a batch of aggressive-mode outcomes, stored in order.
pub open spec fn bounded_after_batch(
    entries: Seq<(Seq<char>, Seq<char>)>,
    capacity: nat,
    keys: Seq<Seq<char>>,
    outcomes: Seq<PreloadOutcome>,
) -> Seq<(Seq<char>, Seq<char>)>
    decreases outcomes.len(),
{
    if outcomes.len() == 0 || keys.len() != outcomes.len() {
        entries
    } else {
        let before = bounded_after_batch(entries, capacity, keys.drop_last(), outcomes.drop_last());
        match outcomes.last() {
            PreloadOutcome::Loaded(data) => after_put(before, capacity, keys.last(), data@),
            _ => before,
        }
    }
}

/// How many outcomes count as a success: those already cached and those loaded.
pub open spec fn successes(outcomes: Seq<PreloadOutcome>) -> nat
    decreases outcomes.len(),
{
    if outcomes.len() == 0 {
        0
    } else {
        successes(outcomes.drop_last()) + if outcomes.last() is Failed { 0nat } else { 1nat }
    }
}

/// The extensions, in lower case, of the raster images that a preload pass picks up.
pub open spec fn raster_extension(ext: Seq<char>) -> bool {
    ||| ext == seq!['p', 'n', 'g']
    ||| ext == seq!['j', 'p', 'g']
    ||| ext == seq!['j', 'p', 'e', 'g']
    ||| ext == seq!['g', 'i', 'f']
    ||| ext == seq!['w', 'e', 'b', 'p']
}

/// Whether an extension already in lower case names a raster image: png, jpg, jpeg, gif or
/// webp.
pub fn is_raster_extension(lowered: &str) -> (r: bool)
    ensures
        r == raster_extension(lowered@),
{
    proof {
        reveal_strlit("png");
        reveal_strlit("jpg");
        reveal_strlit("jpeg");
        reveal_strlit("gif");
        reveal_strlit("webp");
        assert("png"@ =~= seq!['p', 'n', 'g']);
        assert("jpg"@ =~= seq!['j', 'p', 'g']);
        assert("jpeg"@ =~= seq!['j', 'p', 'e', 'g']);
        assert("gif"@ =~= seq!['g', 'i', 'f']);
        assert("webp"@ =~= seq!['w', 'e', 'b', 'p']);
    }
    same_text(lowered, "png") || same_text(lowered, "jpg") || same_text(lowered, "jpeg")
        || same_text(lowered, "gif") || same_text(lowered, "webp")
}

/// Whether a file extension, in any case, names a raster image that a preload pass picks up.
pub fn is_image_extension(ext: &str) -> (r: bool)
    ensures
        r == raster_extension(lower_of(ext@)),
{
    let lowered = lowercase(ext);
    is_raster_extension(lowered.as_str())
}

/// The keys in flight once `key` has finished.
pub open spec fn without_key(keys: Seq<Seq<char>>, key: Seq<char>) -> Seq<Seq<char>> {
    if keys.contains(key) {
        keys.remove(keys.index_of(key))
    } else {
        keys
    }
}

/// Warms thumbnails for the files of a directory, without computing one key twice at a time.
pub struct ImagePreloader {
    cache: Vec<(String, String)>,
    lru_cache: LruCache<String, String>,
    loading: Vec<String>,
    max_cache_size: usize,
    concurrent_limit: usize,
}

impl ImagePreloader {
    /// The fast tier, in the order its keys were first stored.
    pub closed spec fn fast_entries(&self) -> Seq<(Seq<char>, Seq<char>)> {
        text_pairs(self.cache@)
    }

    /// The bounded tier, least recently written first.
    pub closed spec fn bounded_entries(&self) -> Seq<(Seq<char>, Seq<char>)> {
        text_entries(self.lru_cache)
    }

    /// The keys whose thumbnails are being computed.
    pub closed spec fn in_flight(&self) -> Seq<Seq<char>> {
        texts(self.loading@)
    }

    /// The most entries that either tier keeps.
    pub closed spec fn max_entries(&self) -> nat {
        self.max_cache_size as nat
    }

    /// The number of computations the bounded mode lets run at once.
    pub closed spec fn permits(&self) -> nat {
        self.concurrent_limit as nat
    }

    /// Both tiers keep unique keys within the maximum, and no key is in flight twice.
    pub closed spec fn wf(&self) -> bool {
        &&& 0 < self.max_cache_size
        &&& keys_unique(self.fast_entries())
        &&& self.fast_entries().len() <= self.max_cache_size
        &&& bounded_wf(self.bounded_entries(), self.max_cache_size as nat)
        &&& text_capacity(self.lru_cache) == self.max_cache_size
        &&& self.in_flight().no_duplicates()
    }

    /// An empty preloader whose tiers keep at most `max_cache_size` entries, with as many
    /// permits as `concurrency_limit` gives for `cpu_count` cores.
    pub fn new(max_cache_size: usize, cpu_count: usize) -> (r: ImagePreloader)
        requires
            max_cache_size > 0,
        ensures
            r.wf(),
            r.fast_entries().len() == 0,
            r.bounded_entries().len() == 0,
            r.in_flight().len() == 0,
            r.max_entries() == max_cache_size,
            r.permits() == concurrency_for(cpu_count as nat),
    {
        let r = ImagePreloader {
            cache: Vec::new(),
            lru_cache: new_text_cache(max_cache_size),
            loading: Vec::new(),
            max_cache_size,
            concurrent_limit: concurrency_limit(cpu_count),
        };
        assert(r.fast_entries() =~= Seq::empty());
        assert(r.in_flight() =~= Seq::empty());
        r
    }

    /// The number of computations the bounded mode lets run at once.
    pub fn concurrent_limit(&self) -> (r: usize)
        ensures
            r == self.permits(),
    {
        self.concurrent_limit
    }

    /// The position of `key` in the fast tier, if it is there.
    fn find_fast(&self, key: &String) -> (r: Option<usize>)
        ensures
            match r {
                Some(i) => i < self.fast_entries().len() && self.fast_entries()[i as int].0 == key@,
                None => !holds_key(self.fast_entries(), key@),
            },
    {
        let mut i: usize = 0;
        while i < self.cache.len()
            invariant
                i <= self.cache@.len(),
                self.fast_entries().len() == self.cache@.len(),
                forall|j: int| 0 <= j < i ==> #[trigger] self.fast_entries()[j].0 != key@,
            decreases self.cache@.len() - i,
        {
            assert(self.fast_entries()[i as int] == (self.cache@[i as int].0@, self.cache@[i as int].1@));
            if self.cache[i].0 == *key {
                return Some(i);
            }
            i = i + 1;
        }
        None
    }

    /// The position of `key` among the keys in flight, if it is there.
    fn find_loading(&self, key: &String) -> (r: Option<usize>)
        ensures
            match r {
                Some(i) => i < self.in_flight().len() && self.in_flight()[i as int] == key@,
                None => !self.in_flight().contains(key@),
            },
    {
        let mut i: usize = 0;
        while i < self.loading.len()
            invariant
                i <= self.loading@.len(),
                self.in_flight().len() == self.loading@.len(),
                forall|j: int| 0 <= j < i ==> #[trigger] self.in_flight()[j] != key@,
            decreases self.loading@.len() - i,
        {
            assert(self.in_flight()[i as int] == self.loading@[i as int]@);
            if self.loading[i] == *key {
                return Some(i);
            }
            i = i + 1;
        }
        None
    }

    /// Brings an over-full fast tier down to `trim_target` entries, dropping the earliest.
    fn trim_cache(&mut self)
        requires
            keys_unique(old(self).fast_entries()),
            old(self).fast_entries().len() > old(self).max_cache_size,
        ensures
            final(self).fast_entries() == trimmed(old(self).fast_entries(), old(self).max_cache_size as nat),
            final(self).fast_entries().len() == trim_target(old(self).max_cache_size as nat),
            keys_unique(final(self).fast_entries()),
            final(self).lru_cache == old(self).lru_cache,
            final(self).loading == old(self).loading,
            final(self).max_cache_size == old(self).max_cache_size,
            final(self).concurrent_limit == old(self).concurrent_limit,
    {
        let target = ((self.max_cache_size as u128) * 4 / 5) as usize;
        if self.cache.len() > target {
            let drop = self.cache.len() - target;
            let ghost before = self.cache@;
            let kept = self.cache.split_off(drop);
            self.cache = kept;
            assert(self.fast_entries() =~= text_pairs(before).skip(drop as int));
            assert forall|i: int, j: int| 0 <= i < j < self.fast_entries().len() implies
                #[trigger] self.fast_entries()[i].0 != #[trigger] self.fast_entries()[j].0 by {
                assert(self.fast_entries()[i] == text_pairs(before)[i + drop]);
                assert(self.fast_entries()[j] == text_pairs(before)[j + drop]);
            }
        }
    }

    /// Stores a thumbnail in the fast tier, trimming it if it grew too large; the bounded tier
    /// is left as it is.
    fn store_fast(&mut self, key: String, data: String)
        requires
            old(self).wf(),
        ensures
            final(self).wf(),
            final(self).fast_entries() == fast_after_store(
                old(self).fast_entries(),
                old(self).max_entries(),
                key@,
                data@,
            ),
            final(self).lru_cache == old(self).lru_cache,
            final(self).in_flight() == old(self).in_flight(),
            final(self).max_entries() == old(self).max_entries(),
            final(self).permits() == old(self).permits(),
    {
        let ghost entries = self.fast_entries();
        let ghost k = key@;
        let ghost d = data@;
        match self.find_fast(&key) {
            Some(i) => {
                proof {
                    assert(holds_key(entries, key@));
                    let s = slot_of(entries, key@);
                    if s != i as int {
                        if s < i as int {
                            assert(entries[s].0 != entries[i as int].0);
                        } else {
                            assert(entries[i as int].0 != entries[s].0);
                        }
                    }
                }
                let _ = self.cache.remove(i);
                self.cache.insert(i, (key, data));
                assert(self.fast_entries() =~= entries.update(i as int, (key@, data@)));
                assert forall|a: int, b: int| 0 <= a < b < self.fast_entries().len() implies
                    #[trigger] self.fast_entries()[a].0 != #[trigger] self.fast_entries()[b].0 by {
                    if a != i as int && b != i as int {
                        assert(self.fast_entries()[a] == entries[a]);
                        assert(self.fast_entries()[b] == entries[b]);
                    } else if a == i as int {
                        assert(self.fast_entries()[b] == entries[b]);
                    } else {
                        assert(self.fast_entries()[a] == entries[a]);
                    }
                }
            },
            None => {
                self.cache.push((key, data));
                assert(self.fast_entries() =~= entries.push((key@, data@)));
                assert forall|a: int, b: int| 0 <= a < b < self.fast_entries().len() implies
                    #[trigger] self.fast_entries()[a].0 != #[trigger] self.fast_entries()[b].0 by {
                    assert(self.fast_entries()[a] == entries[a]);
                    if b < entries.len() {
                        assert(self.fast_entries()[b] == entries[b]);
                    } else {
                        assert(entries[a].0 == self.fast_entries()[a].0);
                    }
                }
            },
        }
        assert(self.fast_entries() == with_entry(entries, k, d));
        if self.cache.len() > self.max_cache_size {
            self.trim_cache();
            assert(trim_target(self.max_cache_size as nat) <= self.max_cache_size) by (nonlinear_arith)
                requires
                    self.max_cache_size >= 0,
            ;
        }
    }

    /// Stores a computed thumbnail in both tiers, trimming the fast tier if it grew too large.
    fn store_thumbnail(&mut self, key: String, data: String)
        requires
            old(self).wf(),
        ensures
            final(self).wf(),
            final(self).fast_entries() == fast_after_store(
                old(self).fast_entries(),
                old(self).max_entries(),
                key@,
                data@,
            ),
            final(self).bounded_entries() == after_put(
                old(self).bounded_entries(),
                old(self).max_entries(),
                key@,
                data@,
            ),
            final(self).in_flight() == old(self).in_flight(),
            final(self).max_entries() == old(self).max_entries(),
            final(self).permits() == old(self).permits(),
    {
        let lru_key = key.clone();
        let lru_data = data.clone();
        self.store_fast(key, data);
        proof {
            lemma_put_keeps_wf(self.bounded_entries(), self.max_cache_size as nat, lru_key@, lru_data@);
        }
        put_text(&mut self.lru_cache, lru_key, lru_data);
    }

    /// The thumbnail stored under `key`, from the fast tier, else from the bounded tier. A hit
    /// in the bounded tier alone is copied into the fast tier; the bounded tier is only read, so
    /// its write order stays as it was.
    pub fn get(&mut self, key: &str) -> (r: Option<String>)
        requires
            old(self).wf(),
        ensures
            final(self).wf(),
            final(self).in_flight() == old(self).in_flight(),
            final(self).max_entries() == old(self).max_entries(),
            final(self).permits() == old(self).permits(),
            final(self).bounded_entries() == old(self).bounded_entries(),
            match lookup(old(self).fast_entries(), key@) {
                Some(v) => r is Some && r->0@ == v && final(self).fast_entries() == old(self).fast_entries(),
                None => match lookup(old(self).bounded_entries(), key@) {
                    Some(v) => r is Some && r->0@ == v && final(self).fast_entries() == fast_after_store(
                        old(self).fast_entries(),
                        old(self).max_entries(),
                        key@,
                        v,
                    ),
                    None => r is None && final(self).fast_entries() == old(self).fast_entries(),
                },
            },
    {
        let key = key.to_owned();
        if let Some(i) = self.find_fast(&key) {
            proof {
                let e = self.fast_entries();
                let s = slot_of(e, key@);
                if s != i as int {
                    if s < i as int {
                        assert(e[s].0 != e[i as int].0);
                    } else {
                        assert(e[i as int].0 != e[s].0);
                    }
                }
            }
            return Some(self.cache[i].1.clone());
        }
        match crate::store::peek_text(&self.lru_cache, key.as_str()) {
            Some(data) => {
                self.store_fast(key, data.clone());
                Some(data)
            },
            None => None,
        }
    }

    /// Marks `key` as being computed, unless the fast tier holds it or it is in flight already;
    /// says whether the caller should compute it.
    pub fn begin_load(&mut self, key: &str) -> (r: bool)
        requires
            old(self).wf(),
        ensures
            final(self).wf(),
            r == !(holds_key(old(self).fast_entries(), key@) || old(self).in_flight().contains(key@)),
            final(self).in_flight() == if r { old(self).in_flight().push(key@) } else { old(self).in_flight() },
            final(self).fast_entries() == old(self).fast_entries(),
            final(self).bounded_entries() == old(self).bounded_entries(),
            final(self).max_entries() == old(self).max_entries(),
            final(self).permits() == old(self).permits(),
    {
        let key = key.to_owned();
        if self.find_fast(&key).is_some() {
            return false;
        }
        if self.find_loading(&key).is_some() {
            return false;
        }
        let ghost before = self.in_flight();
        self.loading.push(key);
        assert(self.in_flight() =~= before.push(key@));
        assert forall|a: int, b: int| 0 <= a < b < self.in_flight().len() implies
            self.in_flight()[a] != self.in_flight()[b] by {
            if b == before.len() {
                assert(self.in_flight()[a] == before[a]);
            } else {
                assert(self.in_flight()[a] == before[a] && self.in_flight()[b] == before[b]);
            }
        }
        true
    }

    /// Records the end of the computation for `key`: a thumbnail that was made is stored in
    /// both tiers; either way the key is no longer in flight.
    pub fn finish_load(&mut self, key: &str, outcome: Option<String>)
        requires
            old(self).wf(),
        ensures
            final(self).wf(),
            final(self).in_flight() == without_key(old(self).in_flight(), key@),
            final(self).max_entries() == old(self).max_entries(),
            final(self).permits() == old(self).permits(),
            match outcome {
                Some(data) => final(self).fast_entries() == fast_after_store(
                    old(self).fast_entries(),
                    old(self).max_entries(),
                    key@,
                    data@,
                ) && final(self).bounded_entries() == after_put(
                    old(self).bounded_entries(),
                    old(self).max_entries(),
                    key@,
                    data@,
                ),
                None => final(self).fast_entries() == old(self).fast_entries()
                    && final(self).bounded_entries() == old(self).bounded_entries(),
            },
    {
        let key = key.to_owned();
        if let Some(data) = outcome {
            self.store_thumbnail(key.clone(), data);
        }
        if let Some(i) = self.find_loading(&key) {
            let ghost before = self.in_flight();
            proof {
                let j = before.index_of(key@);
                assert(before.contains(key@));
                assert(before[j] == key@);
                if j != i as int {
                    assert(before[j] == before[i as int]);
                }
            }
            let _ = self.loading.remove(i);
            assert(self.in_flight() =~= before.remove(i as int));
            assert forall|a: int, b: int| 0 <= a < b < self.in_flight().len() implies
                self.in_flight()[a] != self.in_flight()[b] by {
                let aa = if a < i { a } else { a + 1 };
                let bb = if b < i { b } else { b + 1 };
                assert(self.in_flight()[a] == before[aa] && self.in_flight()[b] == before[bb]);
            }
        }
    }

    /// For each key, whether the fast tier holds it.
    pub fn cached_flags(&self, keys: &Vec<String>) -> (r: Vec<bool>)
        ensures
            r@.len() == keys@.len(),
            forall|i: int| 0 <= i < keys@.len() ==> r@[i] == holds_key(self.fast_entries(), #[trigger] keys@[i]@),
    {
        let mut r: Vec<bool> = Vec::new();
        let mut i: usize = 0;
        while i < keys.len()
            invariant
                i <= keys@.len(),
                r@.len() == i,
                forall|j: int| 0 <= j < i ==> r@[j] == holds_key(self.fast_entries(), #[trigger] keys@[j]@),
            decreases keys@.len() - i,
        {
            r.push(self.find_fast(&keys[i]).is_some());
            i = i + 1;
        }
        r
    }

    /// Takes in the outcomes of an aggressive pass, one for each key in order: each computed
    /// thumbnail is stored in both tiers. Returns how many files count as done, those found
    /// cached and those loaded.
    pub fn absorb_batch(&mut self, keys: &Vec<String>, outcomes: Vec<PreloadOutcome>) -> (r: usize)
        requires
            old(self).wf(),
            keys@.len() == outcomes@.len(),
        ensures
            final(self).wf(),
            r == successes(outcomes@),
            final(self).fast_entries() == fast_after_batch(
                old(self).fast_entries(),
                old(self).max_entries(),
                texts(keys@),
                outcomes@,
            ),
            final(self).bounded_entries() == bounded_after_batch(
                old(self).bounded_entries(),
                old(self).max_entries(),
                texts(keys@),
                outcomes@,
            ),
            final(self).in_flight() == old(self).in_flight(),
            final(self).max_entries() == old(self).max_entries(),
            final(self).permits() == old(self).permits(),
    {
        let ghost fast0 = self.fast_entries();
        let ghost bounded0 = self.bounded_entries();
        let ghost max = self.max_entries();
        let mut count: usize = 0;
        let mut i: usize = 0;
        while i < outcomes.len()
            invariant
                self.wf(),
                i <= outcomes@.len(),
                keys@.len() == outcomes@.len(),
                count == successes(outcomes@.take(i as int)),
                count <= i,
                self.fast_entries() == fast_after_batch(fast0, max, texts(keys@).take(i as int), outcomes@.take(i as int)),
                self.bounded_entries() == bounded_after_batch(bounded0, max, texts(keys@).take(i as int), outcomes@.take(i as int)),
                self.in_flight() == old(self).in_flight(),
                self.max_entries() == max,
                self.permits() == old(self).permits(),
            decreases outcomes@.len() - i,
        {
            let ghost ks = texts(keys@).take(i as int + 1);
            let ghost os = outcomes@.take(i as int + 1);
            assert(ks.drop_last() =~= texts(keys@).take(i as int));
            assert(os.drop_last() =~= outcomes@.take(i as int));
            assert(ks.last() == keys@[i as int]@);
            match &outcomes[i] {
                PreloadOutcome::Loaded(data) => {
                    self.store_thumbnail(keys[i].clone(), data.clone());
                    count = count + 1;
                },
                PreloadOutcome::AlreadyCached => {
                    count = count + 1;
                },
                PreloadOutcome::Failed => {},
            }
            i = i + 1;
        }
        assert(texts(keys@).take(outcomes@.len() as int) =~= texts(keys@));
        assert(outcomes@.take(outcomes@.len() as int) =~= outcomes@);
        count
    }

    /// How many thumbnails the fast tier holds, and how many keys are in flight.
    pub fn get_stats(&self) -> (r: (usize, usize))
        ensures
            r.0 == self.fast_entries().len(),
            r.1 == self.in_flight().len(),
    {
        (self.cache.len(), self.loading.len())
    }

    /// Empties both tiers and forgets the keys in flight.
    pub fn clear_cache(&mut self)
        requires
            old(self).wf(),
        ensures
            final(self).wf(),
            final(self).fast_entries().len() == 0,
            final(self).bounded_entries().len() == 0,
            final(self).in_flight().len() == 0,
            final(self).max_entries() == old(self).max_entries(),
            final(self).permits() == old(self).permits(),
    {
        self.cache.clear();
        clear_text(&mut self.lru_cache);
        self.loading.clear();
        assert(self.fast_entries() =~= Seq::empty());
        assert(self.in_flight() =~= Seq::empty());
    }
}

} // verus!
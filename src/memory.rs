//! Resource lifecycle: long-lived voice engines and text processors are
//! tracked by id, their memory estimated, and the ones idle for too long
//! reclaimed. Time is given by the caller in milliseconds on a monotonic
//! clock.
use vstd::prelude::*;
use crate::named::NamedMap;
use crate::error_boundary::elapsed_ms;

verus! {

/// Idle time after which a resource is stale, in milliseconds.
pub const STALE_AFTER_MS: u64 = 300_000;

/// Interval between periodic cleanups, in milliseconds.
pub const CLEANUP_INTERVAL_MS: u64 = 30_000;

/// A resource last active at `last_activity` is stale at `now`.
pub open spec fn stale_at(last_activity: u64, now: u64) -> bool {
    elapsed_ms(now, last_activity) > STALE_AFTER_MS
}

fn idle_for(now: u64, then: u64) -> (r: u64)
    ensures
        r == elapsed_ms(now, then),
{
    if now >= then {
        now - then
    } else {
        0
    }
}

/// Voice engine resource. Audio samples are kept as the bit patterns of
/// their 32-bit floating-point values.
pub struct VoiceEngineResource {
    pub id: String,
    /// Time of the last activity.
    pub last_activity: u64,
    pub buffer_size: usize,
    pub audio_pool: Vec<Vec<u32>>,
    pub initialized: bool,
    /// Estimated memory usage, in bytes.
    pub memory_usage: u64,
}

impl VoiceEngineResource {
    /// A new, uninitialized engine resource with no buffers, active at `now`.
    pub fn new(id: String, now: u64) -> (r: Self)
        ensures
            r.id@ == id@,
            r.last_activity == now,
            r.buffer_size == 0,
            r.audio_pool@.len() == 0,
            !r.initialized,
            r.memory_usage == 0,
    {
        VoiceEngineResource {
            id,
            last_activity: now,
            buffer_size: 0,
            audio_pool: Vec::new(),
            initialized: false,
            memory_usage: 0,
        }
    }

    /// Marks activity at `now`.
    pub fn mark_activity(&mut self, now: u64)
        ensures
            *final(self) == (VoiceEngineResource { last_activity: now, ..*old(self) }),
    {
        self.last_activity = now;
    }

    /// Whether the resource is stale at `now`.
    pub fn is_stale(&self, now: u64) -> (r: bool)
        ensures
            r == stale_at(self.last_activity, now),
    {
        idle_for(now, self.last_activity) > STALE_AFTER_MS
    }

    /// `self` is `before` with its buffers cleared and its memory estimate
    /// zeroed.
    pub open spec fn cache_cleared_from(&self, before: &Self) -> bool {
        &&& self.id == before.id
        &&& self.last_activity == before.last_activity
        &&& self.initialized == before.initialized
        &&& self.buffer_size == 0
        &&& self.audio_pool@.len() == 0
        &&& self.memory_usage == 0
    }

    /// `self` is `before` cleaned up: cache cleared and no longer
    /// initialized.
    pub open spec fn cleaned_from(&self, before: &Self) -> bool {
        &&& self.id == before.id
        &&& self.last_activity == before.last_activity
        &&& !self.initialized
        &&& self.buffer_size == 0
        &&& self.audio_pool@.len() == 0
        &&& self.memory_usage == 0
    }

    /// Releases the buffers and marks the engine uninitialized.
    pub fn cleanup(&mut self)
        ensures
            final(self).cleaned_from(old(self)),
    {
        self.audio_pool.clear();
        self.buffer_size = 0;
        self.memory_usage = 0;
        self.initialized = false;
    }

    /// Releases the buffers.
    pub fn clear_cache(&mut self)
        ensures
            final(self).cache_cleared_from(old(self)),
    {
        self.audio_pool.clear();
        self.buffer_size = 0;
        self.memory_usage = 0;
    }

    /// The estimated memory usage, in bytes.
    pub fn estimate_memory_usage(&self) -> (r: u64)
        ensures
            r == self.memory_usage,
    {
        self.memory_usage
    }
}

/// Text processor resource.
pub struct TextProcessorResource {
    pub id: String,
    /// Time of the last activity.
    pub last_activity: u64,
    pub cache_size: usize,
    pub processing_queue: Vec<String>,
    pub initialized: bool,
    /// Estimated memory usage, in bytes.
    pub memory_usage: u64,
}

impl TextProcessorResource {
    /// A new, uninitialized processor resource with an empty queue, active
    /// at `now`.
    pub fn new(id: String, now: u64) -> (r: Self)
        ensures
            r.id@ == id@,
            r.last_activity == now,
            r.cache_size == 0,
            r.processing_queue@.len() == 0,
            !r.initialized,
            r.memory_usage == 0,
    {
        TextProcessorResource {
            id,
            last_activity: now,
            cache_size: 0,
            processing_queue: Vec::new(),
            initialized: false,
            memory_usage: 0,
        }
    }

    /// Marks activity at `now`.
    pub fn mark_activity(&mut self, now: u64)
        ensures
            *final(self) == (TextProcessorResource { last_activity: now, ..*old(self) }),
    {
        self.last_activity = now;
    }

    /// Whether the resource is stale at `now`.
    pub fn is_stale(&self, now: u64) -> (r: bool)
        ensures
            r == stale_at(self.last_activity, now),
    {
        idle_for(now, self.last_activity) > STALE_AFTER_MS
    }

    /// `self` is `before` with its queue cleared and its memory estimate
    /// zeroed.
    pub open spec fn cache_cleared_from(&self, before: &Self) -> bool {
        &&& self.id == before.id
        &&& self.last_activity == before.last_activity
        &&& self.initialized == before.initialized
        &&& self.cache_size == 0
        &&& self.processing_queue@.len() == 0
        &&& self.memory_usage == 0
    }

    /// `self` is `before` cleaned up: cache cleared and no longer
    /// initialized.
    pub open spec fn cleaned_from(&self, before: &Self) -> bool {
        &&& self.id == before.id
        &&& self.last_activity == before.last_activity
        &&& !self.initialized
        &&& self.cache_size == 0
        &&& self.processing_queue@.len() == 0
        &&& self.memory_usage == 0
    }

    /// Drops the queue and marks the processor uninitialized.
    pub fn cleanup(&mut self)
        ensures
            final(self).cleaned_from(old(self)),
    {
        self.processing_queue.clear();
        self.cache_size = 0;
        self.memory_usage = 0;
        self.initialized = false;
    }

    /// Drops the queue.
    pub fn clear_cache(&mut self)
        ensures
            final(self).cache_cleared_from(old(self)),
    {
        self.processing_queue.clear();
        self.cache_size = 0;
        self.memory_usage = 0;
    }

    /// The estimated memory usage, in bytes.
    pub fn estimate_memory_usage(&self) -> (r: u64)
        ensures
            r == self.memory_usage,
    {
        self.memory_usage
    }
}

/// Total estimated memory of the voice engines named in `ks`.
pub open spec fn voice_usage(ks: Seq<Seq<char>>, m: Map<Seq<char>, VoiceEngineResource>) -> int
    decreases ks.len(),
{
    if ks.len() == 0 {
        0
    } else {
        voice_usage(ks.drop_last(), m) + m[ks.last()].memory_usage
    }
}

/// Total estimated memory of the text processors named in `ks`.
pub open spec fn text_usage(ks: Seq<Seq<char>>, m: Map<Seq<char>, TextProcessorResource>) -> int
    decreases ks.len(),
{
    if ks.len() == 0 {
        0
    } else {
        text_usage(ks.drop_last(), m) + m[ks.last()].memory_usage
    }
}

/// `x`, or the largest `u64` where `x` exceeds it.
pub open spec fn saturate_u64(x: int) -> u64 {
    if x > u64::MAX {
        u64::MAX
    } else {
        x as u64
    }
}

/// The voice engines of `m` that are not stale at `now`.
pub open spec fn fresh_voice_engines(m: Map<Seq<char>, VoiceEngineResource>, now: u64) -> Map<
    Seq<char>,
    VoiceEngineResource,
> {
    Map::new(|k: Seq<char>| m.contains_key(k) && !stale_at(m[k].last_activity, now), |k: Seq<char>| m[k])
}

/// The text processors of `m` that are not stale at `now`.
pub open spec fn fresh_text_processors(m: Map<Seq<char>, TextProcessorResource>, now: u64) -> Map<
    Seq<char>,
    TextProcessorResource,
> {
    Map::new(|k: Seq<char>| m.contains_key(k) && !stale_at(m[k].last_activity, now), |k: Seq<char>| m[k])
}

proof fn lemma_voice_usage_nonneg(ks: Seq<Seq<char>>, m: Map<Seq<char>, VoiceEngineResource>)
    ensures
        voice_usage(ks, m) >= 0,
    decreases ks.len(),
{
    if ks.len() > 0 {
        lemma_voice_usage_nonneg(ks.drop_last(), m);
    }
}

proof fn lemma_text_usage_nonneg(ks: Seq<Seq<char>>, m: Map<Seq<char>, TextProcessorResource>)
    ensures
        text_usage(ks, m) >= 0,
    decreases ks.len(),
{
    if ks.len() > 0 {
        lemma_text_usage_nonneg(ks.drop_last(), m);
    }
}

fn add_saturating(a: u64, b: u64) -> (r: u64)
    ensures
        r == saturate_u64(a + b),
{
    if a > u64::MAX - b {
        u64::MAX
    } else {
        a + b
    }
}

/// What a resource manager holds.
pub ghost struct ManagerView {
    pub voice_engines: Map<Seq<char>, VoiceEngineResource>,
    pub text_processors: Map<Seq<char>, TextProcessorResource>,
    pub cleanup_interval_ms: u64,
    /// Time of the last completed cleanup.
    pub last_cleanup: u64,
    /// The memory estimate as last computed, in bytes.
    pub total_memory: u64,
    pub cleanup_running: bool,
}

/// Tracks the long-lived resources of the application by id.
pub struct ResourceManager {
    voice_engines: NamedMap<VoiceEngineResource>,
    text_processors: NamedMap<TextProcessorResource>,
    cleanup_interval_ms: u64,
    last_cleanup: u64,
    total_memory: u64,
    cleanup_running: bool,
}

impl View for ResourceManager {
    type V = ManagerView;

    closed spec fn view(&self) -> ManagerView {
        ManagerView {
            voice_engines: self.voice_engines@,
            text_processors: self.text_processors@,
            cleanup_interval_ms: self.cleanup_interval_ms,
            last_cleanup: self.last_cleanup,
            total_memory: self.total_memory,
            cleanup_running: self.cleanup_running,
        }
    }
}

impl ResourceManager {
    /// The voice engine ids, in registration order.
    pub closed spec fn voice_order(&self) -> Seq<Seq<char>> {
        self.voice_engines.names()
    }

    /// The text processor ids, in registration order.
    pub closed spec fn text_order(&self) -> Seq<Seq<char>> {
        self.text_processors.names()
    }

    /// The sum of the estimates of every registered resource.
    pub open spec fn memory_estimate(&self) -> int {
        voice_usage(self.voice_order(), self@.voice_engines) + text_usage(
            self.text_order(),
            self@.text_processors,
        )
    }

    /// The invariant: well-formed maps.
    pub closed spec fn wf(&self) -> bool {
        &&& self.voice_engines.wf()
        &&& self.text_processors.wf()
    }

    /// The id orders hold each registered id once.
    pub proof fn lemma_orders(&self)
        requires
            self.wf(),
        ensures
            self.voice_order().no_duplicates(),
            self.text_order().no_duplicates(),
            forall|k: Seq<char>| #[trigger]
                self@.voice_engines.contains_key(k) <==> self.voice_order().contains(k),
            forall|k: Seq<char>| #[trigger]
                self@.text_processors.contains_key(k) <==> self.text_order().contains(k),
    {
        self.voice_engines.lemma_names();
        self.text_processors.lemma_names();
    }

    /// An empty manager whose last cleanup was at `now`.
    pub fn new(now: u64) -> (r: Self)
        ensures
            r.wf(),
            r@.voice_engines == Map::<Seq<char>, VoiceEngineResource>::empty(),
            r@.text_processors == Map::<Seq<char>, TextProcessorResource>::empty(),
            r@.cleanup_interval_ms == CLEANUP_INTERVAL_MS,
            r@.last_cleanup == now,
            r@.total_memory == 0,
            !r@.cleanup_running,
    {
        ResourceManager {
            voice_engines: NamedMap::new(),
            text_processors: NamedMap::new(),
            cleanup_interval_ms: CLEANUP_INTERVAL_MS,
            last_cleanup: now,
            total_memory: 0,
            cleanup_running: false,
        }
    }

    fn update_memory_estimate(&mut self)
        requires
            old(self).wf(),
        ensures
            final(self).wf(),
            final(self)@ == (ManagerView {
                total_memory: saturate_u64(old(self).memory_estimate()),
                ..old(self)@
            }),
            final(self).voice_order() == old(self).voice_order(),
            final(self).text_order() == old(self).text_order(),
    {
        let mut estimate: u64 = 0;
        let n = self.voice_engines.len();
        let mut i: usize = 0;
        while i < n
            invariant
                self.wf(),
                n == self.voice_order().len(),
                i <= n,
                estimate == saturate_u64(voice_usage(self.voice_order().take(i as int), self@.voice_engines)),
            decreases n - i,
        {
            let e = self.voice_engines.value_at(i);
            let u = e.estimate_memory_usage();
            proof {
                assert(self.voice_order().take(i + 1).drop_last() =~= self.voice_order().take(i as int));
                assert(self.voice_order().take(i + 1).last() == self.voice_order()[i as int]);
                lemma_voice_usage_nonneg(self.voice_order().take(i as int), self@.voice_engines);
            }
            estimate = add_saturating(estimate, u);
            i += 1;
        }
        assert(self.voice_order().take(n as int) =~= self.voice_order());
        let ghost voice_total = voice_usage(self.voice_order(), self@.voice_engines);
        proof {
            lemma_voice_usage_nonneg(self.voice_order(), self@.voice_engines);
            assert(self.text_order().take(0) =~= Seq::<Seq<char>>::empty());
        }
        let m = self.text_processors.len();
        let mut j: usize = 0;
        while j < m
            invariant
                self.wf(),
                m == self.text_order().len(),
                j <= m,
                voice_total == voice_usage(self.voice_order(), self@.voice_engines),
                voice_total >= 0,
                estimate == saturate_u64(voice_total + text_usage(self.text_order().take(j as int), self@.text_processors)),
            decreases m - j,
        {
            let t = self.text_processors.value_at(j);
            let u = t.estimate_memory_usage();
            proof {
                assert(self.text_order().take(j + 1).drop_last() =~= self.text_order().take(j as int));
                assert(self.text_order().take(j + 1).last() == self.text_order()[j as int]);
                lemma_text_usage_nonneg(self.text_order().take(j as int), self@.text_processors);
            }
            estimate = add_saturating(estimate, u);
            j += 1;
        }
        assert(self.text_order().take(m as int) =~= self.text_order());
        self.total_memory = estimate;
    }

    /// Registers a voice engine under `id`, replacing any registered under
    /// it, and recomputes the memory estimate.
    pub fn register_voice_engine(&mut self, id: String, engine: VoiceEngineResource)
        requires
            old(self).wf(),
        ensures
            final(self).wf(),
            final(self)@.voice_engines == old(self)@.voice_engines.insert(id@, engine),
            final(self)@.text_processors == old(self)@.text_processors,
            final(self)@.total_memory == saturate_u64(final(self).memory_estimate()),
            final(self)@.last_cleanup == old(self)@.last_cleanup,
            final(self)@.cleanup_running == old(self)@.cleanup_running,
            final(self)@.cleanup_interval_ms == old(self)@.cleanup_interval_ms,
    {
        self.voice_engines.insert(id, engine);
        self.update_memory_estimate();
    }

    /// Unregisters the voice engine under `id`, if any, and recomputes the
    /// memory estimate.
    pub fn unregister_voice_engine(&mut self, id: &str)
        requires
            old(self).wf(),
        ensures
            final(self).wf(),
            final(self)@.voice_engines == old(self)@.voice_engines.remove(id@),
            final(self)@.text_processors == old(self)@.text_processors,
            final(self)@.total_memory == saturate_u64(final(self).memory_estimate()),
            final(self)@.last_cleanup == old(self)@.last_cleanup,
            final(self)@.cleanup_running == old(self)@.cleanup_running,
            final(self)@.cleanup_interval_ms == old(self)@.cleanup_interval_ms,
    {
        self.voice_engines.remove(id);
        self.update_memory_estimate();
    }

    /// Registers a text processor under `id`, replacing any registered
    /// under it, and recomputes the memory estimate.
    pub fn register_text_processor(&mut self, id: String, processor: TextProcessorResource)
        requires
            old(self).wf(),
        ensures
            final(self).wf(),
            final(self)@.text_processors == old(self)@.text_processors.insert(id@, processor),
            final(self)@.voice_engines == old(self)@.voice_engines,
            final(self)@.total_memory == saturate_u64(final(self).memory_estimate()),
            final(self)@.last_cleanup == old(self)@.last_cleanup,
            final(self)@.cleanup_running == old(self)@.cleanup_running,
            final(self)@.cleanup_interval_ms == old(self)@.cleanup_interval_ms,
    {
        self.text_processors.insert(id, processor);
        self.update_memory_estimate();
    }

    /// Unregisters the text processor under `id`, if any, and recomputes
    /// the memory estimate.
    pub fn unregister_text_processor(&mut self, id: &str)
        requires
            old(self).wf(),
        ensures
            final(self).wf(),
            final(self)@.text_processors == old(self)@.text_processors.remove(id@),
            final(self)@.voice_engines == old(self)@.voice_engines,
            final(self)@.total_memory == saturate_u64(final(self).memory_estimate()),
            final(self)@.last_cleanup == old(self)@.last_cleanup,
            final(self)@.cleanup_running == old(self)@.cleanup_running,
            final(self)@.cleanup_interval_ms == old(self)@.cleanup_interval_ms,
    {
        self.text_processors.remove(id);
        self.update_memory_estimate();
    }

    /// Marks activity at `now` on the voice engine registered under `id`;
    /// false if there is none.
    pub fn mark_voice_engine_activity(&mut self, id: &str, now: u64) -> (r: bool)
        requires
            old(self).wf(),
        ensures
            final(self).wf(),
            r == old(self)@.voice_engines.contains_key(id@),
            final(self)@ == (ManagerView {
                voice_engines: if r {
                    old(self)@.voice_engines.insert(
                        id@,
                        VoiceEngineResource {
                            last_activity: now,
                            ..old(self)@.voice_engines[id@]
                        },
                    )
                } else {
                    old(self)@.voice_engines
                },
                ..old(self)@
            }),
            final(self).voice_order() == old(self).voice_order(),
            final(self).text_order() == old(self).text_order(),
    {
        match self.voice_engines.find(id) {
            Some(i) => {
                proof {
                    self.lemma_orders();
                    assert(self.voice_order().contains(id@));
                }
                let ghost before = self@.voice_engines;
                let mut spare = VoiceEngineResource::new(String::new(), 0);
                self.voice_engines.swap_value_at(i, &mut spare);
                spare.mark_activity(now);
                let ghost marked = spare;
                self.voice_engines.swap_value_at(i, &mut spare);
                assert(self@.voice_engines =~= before.insert(id@, marked));
                true
            },
            None => false,
        }
    }

    /// Marks activity at `now` on the text processor registered under `id`;
    /// false if there is none.
    pub fn mark_text_processor_activity(&mut self, id: &str, now: u64) -> (r: bool)
        requires
            old(self).wf(),
        ensures
            final(self).wf(),
            r == old(self)@.text_processors.contains_key(id@),
            final(self)@ == (ManagerView {
                text_processors: if r {
                    old(self)@.text_processors.insert(
                        id@,
                        TextProcessorResource {
                            last_activity: now,
                            ..old(self)@.text_processors[id@]
                        },
                    )
                } else {
                    old(self)@.text_processors
                },
                ..old(self)@
            }),
            final(self).voice_order() == old(self).voice_order(),
            final(self).text_order() == old(self).text_order(),
    {
        match self.text_processors.find(id) {
            Some(i) => {
                proof {
                    self.lemma_orders();
                    assert(self.text_order().contains(id@));
                }
                let ghost before = self@.text_processors;
                let mut spare = TextProcessorResource::new(String::new(), 0);
                self.text_processors.swap_value_at(i, &mut spare);
                spare.mark_activity(now);
                let ghost marked = spare;
                self.text_processors.swap_value_at(i, &mut spare);
                assert(self@.text_processors =~= before.insert(id@, marked));
                true
            },
            None => false,
        }
    }

    /// The voice engine registered under `id`, if any.
    pub fn get_voice_engine(&self, id: &str) -> (r: Option<&VoiceEngineResource>)
        requires
            self.wf(),
        ensures
            r is Some <==> self@.voice_engines.contains_key(id@),
            r is Some ==> *r->0 == self@.voice_engines[id@],
    {
        self.voice_engines.get(id)
    }

    /// The text processor registered under `id`, if any.
    pub fn get_text_processor(&self, id: &str) -> (r: Option<&TextProcessorResource>)
        requires
            self.wf(),
        ensures
            r is Some <==> self@.text_processors.contains_key(id@),
            r is Some ==> *r->0 == self@.text_processors[id@],
    {
        self.text_processors.get(id)
    }

    /// The current memory estimate, in bytes.
    pub fn get_memory_usage(&self) -> (r: u64)
        ensures
            r == self@.total_memory,
    {
        self.total_memory
    }

    /// The numbers of registered voice engines and text processors.
    pub fn get_active_resources(&self) -> (r: (usize, usize))
        requires
            self.wf(),
        ensures
            r.0 == self@.voice_engines.len(),
            r.1 == self@.text_processors.len(),
    {
        proof {
            self.lemma_orders();
            self.voice_order().unique_seq_to_set();
            self.text_order().unique_seq_to_set();
            assert(self@.voice_engines.dom() =~= self.voice_order().to_set());
            assert(self@.text_processors.dom() =~= self.text_order().to_set());
        }
        (self.voice_engines.len(), self.text_processors.len())
    }

    /// Whether more than the cleanup interval has passed since the last
    /// cleanup, at `now`.
    pub fn needs_cleanup(&self, now: u64) -> (r: bool)
        ensures
            r == (elapsed_ms(now, self@.last_cleanup) > self@.cleanup_interval_ms),
    {
        idle_for(now, self.last_cleanup) > self.cleanup_interval_ms
    }

    fn first_stale_voice_engine(&self, now: u64) -> (r: Option<usize>)
        requires
            self.wf(),
        ensures
            match r {
                Some(i) => i < self.voice_order().len() && stale_at(
                    self@.voice_engines[self.voice_order()[i as int]].last_activity,
                    now,
                ),
                None => forall|k: Seq<char>| #[trigger]
                    self@.voice_engines.contains_key(k) ==> !stale_at(
                        self@.voice_engines[k].last_activity,
                        now,
                    ),
            },
    {
        let n = self.voice_engines.len();
        let mut i: usize = 0;
        while i < n
            invariant
                self.wf(),
                n == self.voice_order().len(),
                i <= n,
                forall|j: int|
                    0 <= j < i ==> !stale_at(
                        #[trigger] self@.voice_engines[self.voice_order()[j]].last_activity,
                        now,
                    ),
            decreases n - i,
        {
            if self.voice_engines.value_at(i).is_stale(now) {
                return Some(i);
            }
            i += 1;
        }
        proof {
            self.lemma_orders();
            assert forall|k: Seq<char>| #[trigger] self@.voice_engines.contains_key(k) implies !stale_at(
                self@.voice_engines[k].last_activity,
                now,
            ) by {
                assert(self.voice_order().contains(k));
                let j = self.voice_order().index_of(k);
                assert(self.voice_order()[j] == k);
            }
        }
        None
    }

    fn first_stale_text_processor(&self, now: u64) -> (r: Option<usize>)
        requires
            self.wf(),
        ensures
            match r {
                Some(i) => i < self.text_order().len() && stale_at(
                    self@.text_processors[self.text_order()[i as int]].last_activity,
                    now,
                ),
                None => forall|k: Seq<char>| #[trigger]
                    self@.text_processors.contains_key(k) ==> !stale_at(
                        self@.text_processors[k].last_activity,
                        now,
                    ),
            },
    {
        let n = self.text_processors.len();
        let mut i: usize = 0;
        while i < n
            invariant
                self.wf(),
                n == self.text_order().len(),
                i <= n,
                forall|j: int|
                    0 <= j < i ==> !stale_at(
                        #[trigger] self@.text_processors[self.text_order()[j]].last_activity,
                        now,
                    ),
            decreases n - i,
        {
            if self.text_processors.value_at(i).is_stale(now) {
                return Some(i);
            }
            i += 1;
        }
        proof {
            self.lemma_orders();
            assert forall|k: Seq<char>| #[trigger] self@.text_processors.contains_key(k) implies !stale_at(
                self@.text_processors[k].last_activity,
                now,
            ) by {
                assert(self.text_order().contains(k));
                let j = self.text_order().index_of(k);
                assert(self.text_order()[j] == k);
            }
        }
        None
    }

    /// Unregisters every resource that is stale at `now`, keeping the
    /// others as they are; this is the first step of [`Self::cleanup`].
    pub fn remove_stale_resources(&mut self, now: u64)
        requires
            old(self).wf(),
        ensures
            final(self).wf(),
            final(self)@ == (ManagerView {
                voice_engines: fresh_voice_engines(old(self)@.voice_engines, now),
                text_processors: fresh_text_processors(old(self)@.text_processors, now),
                ..old(self)@
            }),
    {
        let ghost start = self@;
        loop
            invariant
                self.wf(),
                self@ == (ManagerView { voice_engines: self@.voice_engines, ..start }),
                forall|k: Seq<char>| #[trigger]
                    self@.voice_engines.contains_key(k) ==> start.voice_engines.contains_key(k)
                        && self@.voice_engines[k] == start.voice_engines[k],
                forall|k: Seq<char>| #[trigger]
                    start.voice_engines.contains_key(k) && !self@.voice_engines.contains_key(k)
                        ==> stale_at(start.voice_engines[k].last_activity, now),
            ensures
                self.wf(),
                self@ == (ManagerView { voice_engines: self@.voice_engines, ..start }),
                forall|k: Seq<char>| #[trigger]
                    self@.voice_engines.contains_key(k) ==> start.voice_engines.contains_key(k)
                        && self@.voice_engines[k] == start.voice_engines[k],
                forall|k: Seq<char>| #[trigger]
                    start.voice_engines.contains_key(k) && !self@.voice_engines.contains_key(k)
                        ==> stale_at(start.voice_engines[k].last_activity, now),
                forall|k: Seq<char>| #[trigger]
                    self@.voice_engines.contains_key(k) ==> !stale_at(
                        self@.voice_engines[k].last_activity,
                        now,
                    ),
            decreases self.voice_order().len(),
        {
            match self.first_stale_voice_engine(now) {
                Some(i) => {
                    let id = self.voice_engines.key_at(i).clone();
                    proof {
                        self.lemma_orders();
                        assert(self.voice_order().contains(id@));
                    }
                    self.voice_engines.remove(id.as_str());
                },
                None => {
                    break;
                },
            }
        }
        assert(self@.voice_engines =~= fresh_voice_engines(start.voice_engines, now));
        let ghost mid = self@;
        loop
            invariant
                self.wf(),
                self@ == (ManagerView { text_processors: self@.text_processors, ..mid }),
                forall|k: Seq<char>| #[trigger]
                    self@.text_processors.contains_key(k) ==> start.text_processors.contains_key(k)
                        && self@.text_processors[k] == start.text_processors[k],
                forall|k: Seq<char>| #[trigger]
                    start.text_processors.contains_key(k) && !self@.text_processors.contains_key(k)
                        ==> stale_at(start.text_processors[k].last_activity, now),
            ensures
                self.wf(),
                self@ == (ManagerView { text_processors: self@.text_processors, ..mid }),
                forall|k: Seq<char>| #[trigger]
                    self@.text_processors.contains_key(k) ==> start.text_processors.contains_key(k)
                        && self@.text_processors[k] == start.text_processors[k],
                forall|k: Seq<char>| #[trigger]
                    start.text_processors.contains_key(k) && !self@.text_processors.contains_key(k)
                        ==> stale_at(start.text_processors[k].last_activity, now),
                forall|k: Seq<char>| #[trigger]
                    self@.text_processors.contains_key(k) ==> !stale_at(
                        self@.text_processors[k].last_activity,
                        now,
                    ),
            decreases self.text_order().len(),
        {
            match self.first_stale_text_processor(now) {
                Some(i) => {
                    let id = self.text_processors.key_at(i).clone();
                    proof {
                        self.lemma_orders();
                        assert(self.text_order().contains(id@));
                    }
                    self.text_processors.remove(id.as_str());
                },
                None => {
                    break;
                },
            }
        }
        assert(self@.text_processors =~= fresh_text_processors(start.text_processors, now));
    }

    /// Cleans up every registered resource: buffers and queues released,
    /// memory estimates zeroed, resources marked uninitialized.
    pub fn force_cleanup(&mut self)
        requires
            old(self).wf(),
        ensures
            final(self).wf(),
            final(self).voice_order() == old(self).voice_order(),
            final(self).text_order() == old(self).text_order(),
            final(self)@.voice_engines.dom() == old(self)@.voice_engines.dom(),
            final(self)@.text_processors.dom() == old(self)@.text_processors.dom(),
            forall|k: Seq<char>| #[trigger]
                final(self)@.voice_engines.contains_key(k) ==> final(self)@.voice_engines[k].cleaned_from(
                    &old(self)@.voice_engines[k],
                ),
            forall|k: Seq<char>| #[trigger]
                final(self)@.text_processors.contains_key(k) ==> final(self)@.text_processors[k].cleaned_from(
                    &old(self)@.text_processors[k],
                ),
            final(self)@.cleanup_interval_ms == old(self)@.cleanup_interval_ms,
            final(self)@.last_cleanup == old(self)@.last_cleanup,
            final(self)@.total_memory == old(self)@.total_memory,
            final(self)@.cleanup_running == old(self)@.cleanup_running,
    {
        let ghost start = self@;
        let n = self.voice_engines.len();
        let mut spare = VoiceEngineResource::new(String::new(), 0);
        let mut i: usize = 0;
        while i < n
            invariant
                self.wf(),
                n == self.voice_order().len(),
                i <= n,
                self.voice_order() == old(self).voice_order(),
                self.text_order() == old(self).text_order(),
                self@ == (ManagerView { voice_engines: self@.voice_engines, ..start }),
                self@.voice_engines.dom() == start.voice_engines.dom(),
                forall|j: int|
                    0 <= j < n ==> if j < i {
                        (#[trigger] self@.voice_engines[self.voice_order()[j]]).cleaned_from(
                            &start.voice_engines[self.voice_order()[j]],
                        )
                    } else {
                        self@.voice_engines[self.voice_order()[j]] == start.voice_engines[self.voice_order()[j]]
                    },
            decreases n - i,
        {
            let ghost k = self.voice_order()[i as int];
            let ghost prev = self@.voice_engines;
            proof {
                self.lemma_orders();
                assert(self.voice_order().contains(k));
                assert(self@.voice_engines[self.voice_order()[i as int]] == start.voice_engines[k]);
            }
            self.voice_engines.swap_value_at(i, &mut spare);
            spare.cleanup();
            spare.clear_cache();
            let ghost fresh = spare;
            self.voice_engines.swap_value_at(i, &mut spare);
            proof {
                self.lemma_orders();
                assert(self@.voice_engines =~= prev.insert(k, fresh));
                assert(self@.voice_engines.dom() =~= start.voice_engines.dom());
                assert forall|j: int| 0 <= j < n implies if j < i + 1 {
                    (#[trigger] self@.voice_engines[self.voice_order()[j]]).cleaned_from(
                        &start.voice_engines[self.voice_order()[j]],
                    )
                } else {
                    self@.voice_engines[self.voice_order()[j]] == start.voice_engines[self.voice_order()[j]]
                } by {
                    if j != i {
                        assert(self.voice_order()[j] != self.voice_order()[i as int]);
                    }
                }
            }
            i += 1;
        }
        let ghost mid = self@;
        let m = self.text_processors.len();
        let mut spare_text = TextProcessorResource::new(String::new(), 0);
        let mut j: usize = 0;
        while j < m
            invariant
                self.wf(),
                m == self.text_order().len(),
                j <= m,
                self.voice_order() == old(self).voice_order(),
                self.text_order() == old(self).text_order(),
                self@ == (ManagerView { text_processors: self@.text_processors, ..mid }),
                self@.text_processors.dom() == start.text_processors.dom(),
                forall|x: int|
                    0 <= x < m ==> if x < j {
                        (#[trigger] self@.text_processors[self.text_order()[x]]).cleaned_from(
                            &start.text_processors[self.text_order()[x]],
                        )
                    } else {
                        self@.text_processors[self.text_order()[x]] == start.text_processors[self.text_order()[x]]
                    },
            decreases m - j,
        {
            let ghost k = self.text_order()[j as int];
            let ghost prev = self@.text_processors;
            proof {
                self.lemma_orders();
                assert(self.text_order().contains(k));
                assert(self@.text_processors[self.text_order()[j as int]] == start.text_processors[k]);
            }
            self.text_processors.swap_value_at(j, &mut spare_text);
            spare_text.cleanup();
            spare_text.clear_cache();
            let ghost fresh = spare_text;
            self.text_processors.swap_value_at(j, &mut spare_text);
            proof {
                self.lemma_orders();
                assert(self@.text_processors =~= prev.insert(k, fresh));
                assert(self@.text_processors.dom() =~= start.text_processors.dom());
                assert forall|x: int| 0 <= x < m implies if x < j + 1 {
                    (#[trigger] self@.text_processors[self.text_order()[x]]).cleaned_from(
                        &start.text_processors[self.text_order()[x]],
                    )
                } else {
                    self@.text_processors[self.text_order()[x]] == start.text_processors[self.text_order()[x]]
                } by {
                    if x != j {
                        assert(self.text_order()[x] != self.text_order()[j as int]);
                    }
                }
            }
            j += 1;
        }
        proof {
            self.lemma_orders();
            assert forall|k: Seq<char>| #[trigger] self@.voice_engines.contains_key(k) implies self@.voice_engines[k].cleaned_from(
                &start.voice_engines[k],
            ) by {
                assert(self.voice_order().contains(k));
                let x = self.voice_order().index_of(k);
                assert(self.voice_order()[x] == k);
            }
            assert forall|k: Seq<char>| #[trigger] self@.text_processors.contains_key(k) implies self@.text_processors[k].cleaned_from(
                &start.text_processors[k],
            ) by {
                assert(self.text_order().contains(k));
                let x = self.text_order().index_of(k);
                assert(self.text_order()[x] == k);
            }
        }
    }

    /// Claims the cleanup: true, with the running flag set, if no cleanup
    /// was running; false, with nothing changed, if one was.
    pub fn try_begin_cleanup(&mut self) -> (r: bool)
        requires
            old(self).wf(),
        ensures
            final(self).wf(),
            r == !old(self)@.cleanup_running,
            r ==> final(self)@ == (ManagerView { cleanup_running: true, ..old(self)@ }),
            !r ==> final(self)@ == old(self)@,
            final(self).voice_order() == old(self).voice_order(),
            final(self).text_order() == old(self).text_order(),
    {
        if self.cleanup_running {
            return false;
        }
        self.cleanup_running = true;
        true
    }

    /// Periodic cleanup at `now`. If a cleanup is already running, nothing
    /// happens and the result is false. Otherwise every stale resource is
    /// unregistered while the others keep their buffers and queues as they
    /// are, the cleanup time becomes `now`, the memory estimate is
    /// recomputed, and the result is true. Clearing every resource is left
    /// to [`Self::force_cleanup`], for teardown.
    pub fn cleanup(&mut self, now: u64) -> (r: bool)
        requires
            old(self).wf(),
        ensures
            final(self).wf(),
            r == !old(self)@.cleanup_running,
            !r ==> final(self)@ == old(self)@,
            r ==> final(self)@ == (ManagerView {
                voice_engines: fresh_voice_engines(old(self)@.voice_engines, now),
                text_processors: fresh_text_processors(old(self)@.text_processors, now),
                last_cleanup: now,
                total_memory: saturate_u64(final(self).memory_estimate()),
                cleanup_running: false,
                ..old(self)@
            }),
    {
        if !self.try_begin_cleanup() {
            return false;
        }
        self.remove_stale_resources(now);
        self.last_cleanup = now;
        self.cleanup_running = false;
        self.update_memory_estimate();
        true
    }
}

/// What a buffer pool holds: the idle buffers, the size of a buffer, and
/// how many idle buffers it keeps at most.
pub ghost struct PoolView {
    pub available: Seq<Seq<u32>>,
    pub buffer_size: usize,
    pub max_pool_size: usize,
}

/// Pool of reusable audio buffers. A sample is the bit pattern of a 32-bit
/// floating-point value; zero is silence.
pub struct AudioBufferPool {
    available_buffers: Vec<Vec<u32>>,
    buffer_size: usize,
    max_pool_size: usize,
}

impl View for AudioBufferPool {
    type V = PoolView;

    closed spec fn view(&self) -> PoolView {
        PoolView {
            available: self.available_buffers@.map_values(|b: Vec<u32>| b@),
            buffer_size: self.buffer_size,
            max_pool_size: self.max_pool_size,
        }
    }
}

impl AudioBufferPool {
    /// An empty pool of buffers of `buffer_size` samples keeping at most
    /// `max_pool_size` idle buffers.
    pub fn new(buffer_size: usize, max_pool_size: usize) -> (r: Self)
        ensures
            r@.available == Seq::<Seq<u32>>::empty(),
            r@.buffer_size == buffer_size,
            r@.max_pool_size == max_pool_size,
    {
        let r = AudioBufferPool { available_buffers: Vec::new(), buffer_size, max_pool_size };
        assert(r@.available =~= Seq::<Seq<u32>>::empty());
        r
    }

    /// Takes the most recently returned idle buffer, or a new silent one
    /// if none is idle.
    pub fn get_buffer(&mut self) -> (r: Vec<u32>)
        ensures
            old(self)@.available.len() > 0 ==> r@ == old(self)@.available.last()
                && final(self)@ == (PoolView {
                available: old(self)@.available.drop_last(),
                ..old(self)@
            }),
            old(self)@.available.len() == 0 ==> r@ == Seq::new(
                old(self)@.buffer_size as nat,
                |i: int| 0u32,
            ) && final(self)@ == old(self)@,
    {
        let ghost before = self@;
        match self.available_buffers.pop() {
            Some(b) => {
                assert(self@.available =~= before.available.drop_last());
                b
            },
            None => {
                let b = vec![0u32; self.buffer_size];
                assert(b@ =~= Seq::new(self.buffer_size as nat, |i: int| 0u32));
                b
            },
        }
    }

    /// Gives a buffer back. It is silenced and kept if it has the pool's
    /// buffer size and fewer than `max_pool_size` buffers are idle;
    /// otherwise it is dropped.
    pub fn return_buffer(&mut self, buffer: Vec<u32>)
        ensures
            old(self)@.available.len() < old(self)@.max_pool_size && buffer@.len()
                == old(self)@.buffer_size ==> final(self)@ == (PoolView {
                available: old(self)@.available.push(
                    Seq::new(old(self)@.buffer_size as nat, |i: int| 0u32),
                ),
                ..old(self)@
            }),
            !(old(self)@.available.len() < old(self)@.max_pool_size && buffer@.len()
                == old(self)@.buffer_size) ==> final(self)@ == old(self)@,
    {
        let mut buffer = buffer;
        if self.available_buffers.len() < self.max_pool_size && buffer.len() == self.buffer_size {
            let mut i: usize = 0;
            while i < buffer.len()
                invariant
                    i <= buffer@.len(),
                    buffer@.len() == old(self)@.buffer_size,
                    forall|j: int| 0 <= j < i ==> buffer@[j] == 0u32,
                decreases buffer@.len() - i,
            {
                buffer.set(i, 0);
                i += 1;
            }
            let ghost before = self@;
            assert(buffer@ =~= Seq::new(self.buffer_size as nat, |i: int| 0u32));
            self.available_buffers.push(buffer);
            assert(self@.available =~= before.available.push(
                Seq::new(self.buffer_size as nat, |i: int| 0u32),
            ));
        }
    }

    /// Drops every idle buffer.
    pub fn clear_pool(&mut self)
        ensures
            final(self)@ == (PoolView { available: Seq::empty(), ..old(self)@ }),
    {
        self.available_buffers.clear();
        assert(self@.available =~= Seq::<Seq<u32>>::empty());
    }
}

} // verus!

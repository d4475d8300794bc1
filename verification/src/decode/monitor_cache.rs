//! The decoded-frame cache behind the monitor.
//!
//! It retains one sparse anchor per traversed time bucket plus the exact latest target.
//! Continuous scrubbing therefore cannot fill the LRU with every intermediate request.
use crate::arith::{max_i64, nearest_i64, saturating_add_ticks};
use crate::decode::diagnostics::{FrameCacheDiagnostics, MonitorFrameCachePoolDiagnostics};
use crate::decode::request::{
    frame_cache_key, request_stream, stream_of_key, DecodeRequest, FrameStreamKey, RequestModel,
};
use crate::decode::scrub_index::{
    earliest_in_span, in_span, is_earliest, trimmed, ScrubIndex, MAX_SCRUB_CACHE_INDEX_ENTRIES,
};
use crate::frame_cache::{
    evicted_by_store, law_remove_takes_one_frame, law_stored_frame_is_found, lookup,
    saturated_count, stored, total_bytes, touched, without_key, FrameCache, FrameKey, FrameValue,
    Frames,
};
use crate::source_path::{PathModel, SourcePath};
use crate::table::Table;
use std::sync::Arc;
use vstd::prelude::*;

verus! {

/// The width of a sparse anchor's time bucket.
pub const SPARSE_CACHE_INTERVAL_TICKS: i64 = 250_000;

/// The width of a scrub traversal's time bucket where the source frame duration is unknown.
pub const SCRUB_CACHE_INTERVAL_TICKS: i64 = 50_000;

/// The most streams and the most sources that are told apart before the cache starts afresh.
pub const MAX_CACHE_STREAM_STATES: usize = 4_096;

/// The byte budget of a monitor that is given none.
pub const DEFAULT_FRAME_CACHE_BYTES: usize = 1_073_741_824;

/// One decoded, packed output frame of a traversal.
#[derive(Debug)]
pub struct DecodedRgba {
    pub request_id: u64,
    pub target_tick: i64,
    pub source_tick: i64,
    pub width: u32,
    pub height: u32,
    pub rgba: Arc<[u8]>,
}

/// The mathematical value of a [`MonitorFrameCache`].
#[verifier::ext_equal]
pub struct MonitorCacheModel {
    /// The retained frames, least recently used first.
    pub frames: Frames,
    pub capacity: nat,
    pub evictions: nat,
    /// The time bucket that last got an anchor, by stream.
    pub anchors: Map<FrameStreamKey, i64>,
    /// The latest target, and whether it is an anchor, by stream.
    pub latest: Map<FrameStreamKey, (FrameKey, bool)>,
    /// The frames that a scrub lookup can find.
    pub scrub: Set<FrameKey>,
    /// The order in which scrub frames were indexed.
    pub order: Seq<FrameKey>,
    pub project_epoch: Option<u64>,
    pub high_quality_scaling: Option<bool>,
    /// The path of each medium seen since the last reset.
    pub sources: Map<u32, PathModel>,
    pub diagnostics: FrameCacheDiagnostics,
}

/// The time bucket of a sparse anchor.
pub open spec fn anchor_bucket(source_tick: int) -> int {
    source_tick / (SPARSE_CACHE_INTERVAL_TICKS as int)
}

/// How far after its target a scrub lookup may look.
pub open spec fn scrub_tolerance(request: RequestModel) -> int {
    match request.source_frame_duration_tick {
        Some(duration) if duration > 0 => duration as int,
        _ => 0,
    }
}

/// The width of a scrub traversal's time bucket: half a source frame where that is known.
pub open spec fn scrub_interval(request: RequestModel) -> int {
    match request.source_frame_duration_tick {
        Some(duration) if duration > 0 => if duration / 2 < 1 {
            1
        } else {
            (duration / 2) as int
        },
        _ => SCRUB_CACHE_INTERVAL_TICKS as int,
    }
}

/// A tick of source time; time before the start counts as the start.
pub open spec fn source_time(tick: int) -> int {
    if tick < 0 {
        0
    } else {
        tick
    }
}

impl MonitorCacheModel {
    /// Nothing retained and nothing remembered but the account.
    pub open spec fn cleared(self) -> Self {
        MonitorCacheModel {
            frames: Seq::empty(),
            anchors: Map::empty(),
            latest: Map::empty(),
            scrub: Set::empty(),
            order: Seq::empty(),
            project_epoch: None,
            high_quality_scaling: None,
            sources: Map::empty(),
            diagnostics: self.diagnostics.published(0, self.evictions as int),
            ..self
        }
    }

    /// The account as it is published for the frames that are retained now.
    pub open spec fn republished(self) -> Self {
        MonitorCacheModel {
            diagnostics: self.diagnostics.published(
                total_bytes(self.frames) as int,
                self.evictions as int,
            ),
            ..self
        }
    }

    /// Whether pixels of another project, scaling policy or file would be mixed up with those
    /// of `request`, or a registry is full.
    pub open spec fn must_reset(self, request: RequestModel) -> bool {
        ||| self.project_epoch != Some(request.cache_epoch)
        ||| self.high_quality_scaling != Some(request.high_quality_scaling)
        ||| self.sources.contains_key(request.media_id) && self.sources[request.media_id]
            != request.path
        ||| !self.latest.contains_key(request.stream()) && self.latest.len()
            >= MAX_CACHE_STREAM_STATES
        ||| !self.sources.contains_key(request.media_id) && self.sources.len()
            >= MAX_CACHE_STREAM_STATES
    }

    /// The cache made ready for `request`.
    pub open spec fn prepared(self, request: RequestModel) -> Self {
        let base = if self.must_reset(request) {
            MonitorCacheModel { project_epoch: Some(request.cache_epoch), ..self.cleared() }
        } else {
            self
        };
        MonitorCacheModel {
            sources: if base.sources.contains_key(request.media_id) {
                base.sources
            } else {
                base.sources.insert(request.media_id, request.path)
            },
            high_quality_scaling: Some(request.high_quality_scaling),
            ..base
        }
    }

    /// Whether what is retained still belongs to what `request` reads.
    pub open spec fn accepts(self, request: RequestModel) -> bool {
        &&& self.project_epoch == Some(request.cache_epoch)
        &&& self.high_quality_scaling == Some(request.high_quality_scaling)
        &&& self.sources.contains_key(request.media_id)
        &&& self.sources[request.media_id] == request.path
    }

    /// The frame is stored within the budget, and the account published.
    pub open spec fn with_frame(self, key: FrameKey, value: FrameValue) -> Self {
        MonitorCacheModel {
            frames: stored(self.frames, key, value, self.capacity as int),
            evictions: saturated_count(
                self.evictions + evicted_by_store(self.frames, key, value, self.capacity as int),
            ) as nat,
            ..self
        }.republished()
    }

    /// Whether a frame at `key` opens a new anchor bucket of its stream.
    pub open spec fn opens_bucket(self, key: FrameKey) -> bool {
        !self.anchors.contains_key(stream_of_key(key)) || self.anchors[stream_of_key(key)]
            != anchor_bucket(key.source_tick as int)
    }

    /// The previous latest target of the stream, where a new one at `key` displaces it: it is
    /// another frame, no anchor, and no scrub lookup can find it.
    pub open spec fn displaced_by(self, key: FrameKey) -> Option<FrameKey> {
        let stream = stream_of_key(key);
        if self.latest.contains_key(stream) && self.latest[stream].0 != key
            && !self.latest[stream].1 && !self.scrub.contains(self.latest[stream].0) {
            Some(self.latest[stream].0)
        } else {
            None
        }
    }

    /// The cache after the exact target `key` was stored.
    pub open spec fn inserted(self, key: FrameKey, value: FrameValue) -> Self {
        let stream = stream_of_key(key);
        if value.spec_byte_len() > self.capacity {
            self.republished()
        } else {
            let with = MonitorCacheModel {
                anchors: if self.opens_bucket(key) {
                    self.anchors.insert(stream, anchor_bucket(key.source_tick as int) as i64)
                } else {
                    self.anchors
                },
                latest: self.latest.insert(stream, (key, self.opens_bucket(key))),
                ..self.with_frame(key, value)
            };
            match self.displaced_by(key) {
                Some(previous) => MonitorCacheModel {
                    frames: without_key(with.frames, previous),
                    ..with
                }.republished(),
                None => with,
            }
        }
    }

    /// The indexed frame that a scrub lookup goes for.
    pub open spec fn scrub_candidate(self, request: RequestModel) -> Option<FrameKey> {
        let target = source_time(request.source_tick as int);
        if request.is_scrubbing {
            earliest_in_span(
                self.scrub,
                request.stream(),
                target,
                nearest_i64(target + scrub_tolerance(request)),
            )
        } else {
            None
        }
    }

    /// What a scrub lookup returns: the retained candidate, unless its pixels are from before
    /// the target.
    pub open spec fn scrub_hit(self, request: RequestModel) -> Option<FrameValue> {
        match self.scrub_candidate(request) {
            None => None,
            Some(key) => match lookup(self.frames, key) {
                Some(value) if value.source_tick >= source_time(request.source_tick as int) => Some(
                    value,
                ),
                _ => None,
            },
        }
    }

    /// The cache after a scrub lookup: a hit is now most recently used, and a stale index
    /// entry is gone.
    pub open spec fn after_scrub_lookup(self, request: RequestModel) -> Self {
        match self.scrub_candidate(request) {
            None => self,
            Some(key) => MonitorCacheModel {
                frames: touched(self.frames, key),
                scrub: if self.scrub_hit(request) is Some {
                    self.scrub
                } else {
                    self.scrub.remove(key)
                },
                ..self
            },
        }
    }

    /// Whether the traversal bucket around `source_tick` holds an indexed frame already.
    pub open spec fn bucket_taken(self, request: RequestModel, source_tick: int) -> bool {
        let interval = scrub_interval(request);
        let start = (source_time(source_tick) / interval) * interval;
        earliest_in_span(
            self.scrub,
            request.stream(),
            start,
            nearest_i64(start + (interval - 1)),
        ) is Some
    }

    /// The cache after a traversal passed `value`.
    pub open spec fn traversed(self, request: RequestModel, value: FrameValue) -> Self {
        let key = request.frame_key(value.source_tick as int);
        if !request.is_scrubbing || !self.accepts(request) || self.bucket_taken(
            request,
            value.source_tick as int,
        ) {
            self
        } else if value.spec_byte_len() > self.capacity {
            self.republished()
        } else {
            let (scrub, order) = trimmed(self.scrub.insert(key), self.order.push(key));
            MonitorCacheModel { scrub, order, ..self.with_frame(key, value) }
        }
    }

    /// What holds of every cache: the budget is kept, the published account is exact, and both
    /// the registries and the scrub index are bounded.
    pub open spec fn valid(self) -> bool {
        &&& crate::frame_cache::unique_keys(self.frames)
        &&& total_bytes(self.frames) <= self.capacity
        &&& self.capacity <= usize::MAX
        &&& self.evictions <= u64::MAX
        &&& self.diagnostics.capacity_bytes == self.capacity
        &&& self.diagnostics.current_bytes == total_bytes(self.frames)
        &&& self.diagnostics.eviction_count == self.evictions
        &&& self.diagnostics.current_bytes <= self.diagnostics.peak_bytes <= self.capacity
        &&& self.order.len() <= MAX_SCRUB_CACHE_INDEX_ENTRIES
        &&& self.scrub.subset_of(self.order.to_set())
        &&& self.sources.dom().finite()
        &&& self.sources.len() <= MAX_CACHE_STREAM_STATES
    }
}

pub struct MonitorFrameCache {
    frames: FrameCache,
    cache_diagnostics: FrameCacheDiagnostics,
    last_anchor_bucket: Table<FrameStreamKey, i64>,
    latest: Table<FrameStreamKey, (FrameKey, bool)>,
    /// Source-time lookup for scrub traversal frames. The frame cache remains the byte owner;
    /// this index is separately capped and removes stale keys as they are observed.
    scrub_frames: ScrubIndex,
    project_epoch: Option<u64>,
    high_quality_scaling: Option<bool>,
    sources: Table<u32, SourcePath>,
}

impl View for MonitorFrameCache {
    type V = MonitorCacheModel;

    closed spec fn view(&self) -> MonitorCacheModel {
        MonitorCacheModel {
            frames: self.frames@,
            capacity: self.frames.capacity(),
            evictions: self.frames.evictions(),
            anchors: self.last_anchor_bucket@,
            latest: self.latest@,
            scrub: self.scrub_frames.keys(),
            order: self.scrub_frames.order(),
            project_epoch: self.project_epoch,
            high_quality_scaling: self.high_quality_scaling,
            sources: self.sources@.map_values(|path: SourcePath| path@),
            diagnostics: self.cache_diagnostics,
        }
    }
}

impl MonitorFrameCache {
    pub closed spec fn wf(&self) -> bool {
        &&& self.frames.wf()
        &&& self.last_anchor_bucket.wf()
        &&& self.latest.wf()
        &&& self.scrub_frames.wf()
        &&& self.sources.wf()
        &&& self@.valid()
    }

    /// Every cache keeps its budget, publishes an exact account, and bounds its registries.
    pub proof fn law_valid(&self)
        requires
            self.wf(),
        ensures
            self@.valid(),
    {
    }

    pub fn new(capacity_bytes: usize) -> (cache: Self)
        ensures
            cache.wf(),
            cache@ == (MonitorCacheModel {
                frames: Seq::empty(),
                capacity: capacity_bytes as nat,
                evictions: 0,
                anchors: Map::empty(),
                latest: Map::empty(),
                scrub: Set::empty(),
                order: Seq::empty(),
                project_epoch: None,
                high_quality_scaling: None,
                sources: Map::empty(),
                diagnostics: FrameCacheDiagnostics {
                    capacity_bytes,
                    current_bytes: 0,
                    peak_bytes: 0,
                    eviction_count: 0,
                },
            }),
    {
        let cache = MonitorFrameCache {
            frames: FrameCache::new(capacity_bytes),
            cache_diagnostics: FrameCacheDiagnostics::new(capacity_bytes),
            last_anchor_bucket: Table::new(),
            latest: Table::new(),
            scrub_frames: ScrubIndex::new(),
            project_epoch: None,
            high_quality_scaling: None,
            sources: Table::new(),
        };
        assert(cache@.sources =~= Map::empty());
        cache
    }

    /// What the cache has last published of itself.
    pub fn diagnostics(&self) -> (seen: MonitorFrameCachePoolDiagnostics)
        requires
            self.wf(),
        ensures
            seen == (MonitorFrameCachePoolDiagnostics {
                capacity_bytes: self@.capacity as usize,
                current_bytes: total_bytes(self@.frames) as usize,
                peak_bytes: self@.diagnostics.peak_bytes,
                eviction_count: self@.evictions as u64,
            }),
    {
        self.cache_diagnostics.snapshot()
    }

    /// Makes the cache ready for `request`. Returns true when all sticky decoder sessions must
    /// be retired too.
    pub fn prepare_request(&mut self, request: &DecodeRequest) -> (reset: bool)
        requires
            old(self).wf(),
        ensures
            final(self).wf(),
            reset == old(self)@.must_reset(request@),
            final(self)@ == old(self)@.prepared(request@),
    {
        let stream = request_stream(request);
        let project_changed = self.project_epoch != Some(request.cache_epoch);
        // FrameKey is shared with the generic cache and intentionally does not carry scaler
        // policy. Clearing at a scaler-policy transition prevents either quality from reusing
        // pixels produced by the other.
        let scaling_changed = self.high_quality_scaling != Some(request.high_quality_scaling);
        let known_path = self.sources.get(&request.media_id);
        let source_changed = match known_path {
            Some(path) => *path != request.path,
            None => false,
        };
        let source_known: bool = known_path.is_some();
        let stream_limit_reached = (!self.latest.contains(&stream) && self.latest.len()
            >= MAX_CACHE_STREAM_STATES) || (!source_known && self.sources.len()
            >= MAX_CACHE_STREAM_STATES);
        let reset_cache = project_changed || scaling_changed || stream_limit_reached
            || source_changed;
        proof {
            lemma_paths_len(self.sources@);
        }
        assert(reset_cache == self@.must_reset(request@));
        if reset_cache {
            self.clear();
            self.project_epoch = Some(request.cache_epoch);
        }
        let ghost base = self@;
        let ghost paths = self.sources@;
        if !self.sources.contains(&request.media_id) {
            let _ = self.sources.insert(request.media_id, request.path.clone());
            proof {
                lemma_paths_len(paths);
                lemma_paths_len(self.sources@);
            }
            assert(self@.sources =~= base.sources.insert(request.media_id, request@.path));
        }
        self.high_quality_scaling = Some(request.high_quality_scaling);
        assert(self@ =~= old(self)@.prepared(request@));
        reset_cache
    }

    pub fn clear(&mut self)
        requires
            old(self).wf(),
        ensures
            final(self).wf(),
            final(self)@ == old(self)@.cleared(),
    {
        self.frames.clear();
        self.publish_frame_cache_bytes();
        self.last_anchor_bucket.clear();
        self.latest.clear();
        self.scrub_frames.clear();
        self.sources.clear();
        self.project_epoch = None;
        self.high_quality_scaling = None;
        assert(self@.sources =~= Map::empty());
        assert(self@ =~= old(self)@.cleared());
    }

    /// The exact frame under `key`, which becomes the most recently used.
    pub fn get(&mut self, key: &FrameKey) -> (found: Option<FrameValue>)
        requires
            old(self).wf(),
        ensures
            final(self).wf(),
            found == lookup(old(self)@.frames, *key),
            final(self)@ == (MonitorCacheModel {
                frames: touched(old(self)@.frames, *key),
                ..old(self)@
            }),
    {
        proof {
            crate::frame_cache::law_lookup_changes_only_the_order(self@.frames, *key, *key);
        }
        match self.frames.get(key) {
            Some(value) => Some(value.clone()),
            None => None,
        }
    }

    pub fn accepts_request(&self, request: &DecodeRequest) -> (accepted: bool)
        requires
            self.wf(),
        ensures
            accepted == self@.accepts(request@),
    {
        self.project_epoch == Some(request.cache_epoch) && self.high_quality_scaling == Some(
            request.high_quality_scaling,
        ) && match self.sources.get(&request.media_id) {
            Some(path) => *path == request.path,
            None => false,
        }
    }

    pub fn get_scrub_at_or_after(&mut self, request: &DecodeRequest) -> (found: Option<FrameValue>)
        requires
            old(self).wf(),
        ensures
            final(self).wf(),
            found == old(self)@.scrub_hit(request@),
            final(self)@ == old(self)@.after_scrub_lookup(request@),
    {
        if !request.is_scrubbing {
            return None;
        }
        let stream = request_stream(request);
        let target: i64 = max_i64(request.source_tick, 0);
        let tolerance: i64 = match request.source_frame_duration_tick {
            Some(duration) => if duration > 0 {
                duration
            } else {
                0
            },
            None => 0,
        };
        let upper: i64 = saturating_add_ticks(target, tolerance);
        match self.scrub_frames.first_in_span(stream, target, upper) {
            None => None,
            Some(key) => {
                let found = self.get(&key);
                match found {
                    Some(frame) => if frame.source_tick >= target {
                        Some(frame)
                    } else {
                        self.scrub_frames.remove(key);
                        None
                    },
                    None => {
                        self.scrub_frames.remove(key);
                        None
                    },
                }
            },
        }
    }

    /// Retains a frame that a scrub passed on its way, one per time bucket.
    pub fn insert_scrub_traversal(&mut self, request: &DecodeRequest, frame: &DecodedRgba)
        requires
            old(self).wf(),
        ensures
            final(self).wf(),
            final(self)@ == old(self)@.traversed(
                request@,
                FrameValue {
                    source_tick: frame.source_tick,
                    width: frame.width,
                    height: frame.height,
                    rgba: frame.rgba,
                },
            ),
    {
        if !request.is_scrubbing || !self.accepts_request(request) {
            return;
        }
        let stream = request_stream(request);
        let source_tick: i64 = max_i64(frame.source_tick, 0);
        let interval: i64 = match request.source_frame_duration_tick {
            Some(duration) => if duration > 0 {
                max_i64(duration / 2, 1)
            } else {
                SCRUB_CACHE_INTERVAL_TICKS
            },
            None => SCRUB_CACHE_INTERVAL_TICKS,
        };
        proof {
            lemma_bucket_start(source_tick as int, interval as int);
        }
        let bucket_start: i64 = (source_tick / interval) * interval;
        let bucket_end: i64 = saturating_add_ticks(bucket_start, interval - 1);
        let taken = self.scrub_frames.first_in_span(stream, bucket_start, bucket_end);
        assert(taken is Some == self@.bucket_taken(request@, frame.source_tick as int));
        if taken.is_some() {
            return;
        }
        let key = frame_cache_key(request, source_tick);
        let value = FrameValue::new(
            frame.source_tick,
            frame.width,
            frame.height,
            frame.rgba.clone(),
        );
        let kept: bool = self.store(key, value);
        if !kept {
            return;
        }
        proof {
            lemma_trimmed_order(self@.scrub.insert(key), self@.order.push(key));
        }
        self.scrub_frames.push(key);
        proof {
            self.scrub_frames.law_bounded();
        }
    }

    /// Stores a frame within the budget, and publishes the account either way.
    fn store(&mut self, key: FrameKey, value: FrameValue) -> (fits: bool)
        requires
            old(self).wf(),
        ensures
            final(self).wf(),
            fits == (value.spec_byte_len() <= old(self)@.capacity),
            fits ==> final(self)@ == old(self)@.with_frame(key, value),
            !fits ==> final(self)@ == old(self)@.republished(),
    {
        proof {
            if value.spec_byte_len() <= self@.capacity {
                law_stored_frame_is_found(
                    self@.frames,
                    key,
                    value,
                    self@.capacity as int,
                    key,
                );
            }
        }
        let fits = self.frames.insert(key, value);
        self.publish_frame_cache_bytes();
        fits
    }

    /// Stores the exact target of a request, and gives the previous one of its stream up
    /// unless it is an anchor or indexed for scrubbing.
    pub fn insert(&mut self, key: FrameKey, value: FrameValue) -> (fits: bool)
        requires
            old(self).wf(),
        ensures
            final(self).wf(),
            fits == (value.spec_byte_len() <= old(self)@.capacity),
            final(self)@ == old(self)@.inserted(key, value),
    {
        let stream = FrameStreamKey::from(key);
        let bucket: i64 = euclidean_bucket(key.source_tick);
        let is_anchor = match self.last_anchor_bucket.get(&stream) {
            Some(last) => *last != bucket,
            None => true,
        };
        if !self.store(key, value) {
            return false;
        }
        if is_anchor {
            let _ = self.last_anchor_bucket.insert(stream, bucket);
        }
        if let Some(replaced) = self.latest.insert(stream, (key, is_anchor)) {
            let (previous, previous_is_anchor) = replaced;
            if previous != key && !previous_is_anchor && !self.scrub_frames.contains(previous) {
                proof {
                    law_remove_takes_one_frame(self@.frames, previous, previous);
                    crate::frame_cache::lemma_without_key(self@.frames, previous);
                }
                let _ = self.frames.remove(&previous);
                self.publish_frame_cache_bytes();
            }
        }
        assert(self@ =~= old(self)@.inserted(key, value));
        true
    }

    /// Stores the exact target of a request, unless the cache has moved on since.
    pub fn insert_if_current(
        &mut self,
        request: &DecodeRequest,
        key: FrameKey,
        value: FrameValue,
    ) -> (kept: bool)
        requires
            old(self).wf(),
        ensures
            final(self).wf(),
            kept == (old(self)@.accepts(request@) && value.spec_byte_len() <= old(self)@.capacity),
            final(self)@ == (if old(self)@.accepts(request@) {
                old(self)@.inserted(key, value)
            } else {
                old(self)@
            }),
    {
        self.accepts_request(request) && self.insert(key, value)
    }

    fn publish_frame_cache_bytes(&mut self)
        requires
            old(self).frames.wf(),
            old(self).frames.capacity() == old(self).cache_diagnostics.capacity_bytes,
        ensures
            final(self)@ == old(self)@.republished(),
            *final(self) == (MonitorFrameCache {
                cache_diagnostics: final(self).cache_diagnostics,
                ..*old(self)
            }),
    {
        let used_bytes: usize = self.frames.used_bytes();
        let eviction_count: u64 = self.frames.eviction_count();
        self.cache_diagnostics.publish(used_bytes, eviction_count);
    }

    /// How many scrub frames are indexed.
    pub fn scrub_index_len(&self) -> (count: usize)
        requires
            self.wf(),
        ensures
            count == self@.scrub.len(),
            count <= MAX_SCRUB_CACHE_INDEX_ENTRIES,
    {
        self.scrub_frames.len()
    }

    /// How many streams have a latest target.
    pub fn stream_count(&self) -> (count: usize)
        requires
            self.wf(),
        ensures
            count == self@.latest.len(),
    {
        self.latest.len()
    }

    /// How many streams have an anchor bucket.
    pub fn anchor_count(&self) -> (count: usize)
        requires
            self.wf(),
        ensures
            count == self@.anchors.len(),
    {
        self.last_anchor_bucket.len()
    }

    /// The project that the cache serves.
    pub fn project_epoch(&self) -> (epoch: Option<u64>)
        ensures
            epoch == self@.project_epoch,
    {
        self.project_epoch
    }

    /// How many media are told apart by their path.
    pub fn source_count(&self) -> (count: usize)
        requires
            self.wf(),
        ensures
            count == self@.sources.len(),
            count <= MAX_CACHE_STREAM_STATES,
    {
        proof {
            lemma_paths_len(self.sources@);
        }
        self.sources.len()
    }

    /// How many frames are retained.
    pub fn frame_count(&self) -> (count: usize)
        ensures
            count == self@.frames.len(),
    {
        self.frames.len()
    }
}

/// Ownership of one hard-capped decoded-frame cache.
///
/// Monitors that share a pool share decoded RGBA storage only. Decoder queues, events,
/// generations, and sticky sessions remain per-decoder.
pub struct MonitorFrameCachePool {
    pub cache: MonitorFrameCache,
}

impl MonitorFrameCachePool {
    /// Creates one application-wide decoded-frame cache with the supplied hard byte cap.
    pub fn new(capacity_bytes: usize) -> (pool: Self)
        ensures
            pool.cache.wf(),
            pool.cache@.capacity == capacity_bytes,
            pool.cache@.evictions == 0,
            pool.cache@.frames == Seq::<(FrameKey, FrameValue)>::empty(),
            pool.cache@ == pool.cache@.cleared(),
            pool.cache@.diagnostics.peak_bytes == 0,
    {
        let pool = MonitorFrameCachePool { cache: MonitorFrameCache::new(capacity_bytes) };
        assert(pool.cache@ =~= pool.cache@.cleared());
        pool
    }

    /// Returns exact usage for this physical cache. Do not sum this snapshot per decoder.
    pub fn diagnostics(&self) -> (seen: MonitorFrameCachePoolDiagnostics)
        requires
            self.cache.wf(),
        ensures
            seen == (MonitorFrameCachePoolDiagnostics {
                capacity_bytes: self.cache@.capacity as usize,
                current_bytes: total_bytes(self.cache@.frames) as usize,
                peak_bytes: self.cache@.diagnostics.peak_bytes,
                eviction_count: self.cache@.evictions as u64,
            }),
    {
        self.cache.diagnostics()
    }
}

/// The anchor bucket of a tick, rounded towards the past.
fn euclidean_bucket(source_tick: i64) -> (bucket: i64)
    ensures
        bucket == anchor_bucket(source_tick as int),
{
    if source_tick >= 0 {
        source_tick / SPARSE_CACHE_INTERVAL_TICKS
    } else {
        let below: i64 = -(source_tick + 1);
        let bucket: i64 = -(below / SPARSE_CACHE_INTERVAL_TICKS) - 1;
        assert(bucket == anchor_bucket(source_tick as int)) by {
            let width = SPARSE_CACHE_INTERVAL_TICKS as int;
            let b = below as int;
            let q = b / width;
            let r = b % width;
            assert(b == width * q + r) by {
                vstd::arithmetic::div_mod::lemma_fundamental_div_mod(b, width);
            }
            assert(source_tick == (-q - 1) * width + (width - 1 - r)) by (nonlinear_arith)
                requires
                    source_tick == -b - 1,
                    b == width * q + r,
            ;
            vstd::arithmetic::div_mod::lemma_fundamental_div_mod_converse(
                source_tick as int,
                width,
                -q - 1,
                width - 1 - r,
            );
        }
        bucket
    }
}

proof fn lemma_bucket_start(tick: int, interval: int)
    requires
        0 <= tick,
        1 <= interval,
    ensures
        0 <= (tick / interval) * interval <= tick,
{
    vstd::arithmetic::div_mod::lemma_fundamental_div_mod(tick, interval);
    vstd::arithmetic::div_mod::lemma_div_pos_is_pos(tick, interval);
    let q = tick / interval;
    assert(interval * q == q * interval) by (nonlinear_arith);
    assert(0 <= q * interval) by (nonlinear_arith)
        requires
            0 <= q,
            1 <= interval,
    ;
}

proof fn lemma_paths_len(paths: Map<u32, SourcePath>)
    ensures
        paths.map_values(|path: SourcePath| path@).dom() == paths.dom(),
        paths.map_values(|path: SourcePath| path@).len() == paths.len(),
{
    assert(paths.map_values(|path: SourcePath| path@).dom() =~= paths.dom());
}

proof fn lemma_trimmed_order(keys: Set<FrameKey>, order: Seq<FrameKey>)
    ensures
        trimmed(keys, order).1.len() <= MAX_SCRUB_CACHE_INDEX_ENTRIES,
    decreases order.len(),
{
    if order.len() > MAX_SCRUB_CACHE_INDEX_ENTRIES {
        lemma_trimmed_order(keys.remove(order[0]), order.drop_first());
    }
}

/// A request is served from a cache that was made ready for it, and making it ready again
/// changes nothing: no frame is lost to a repeated request.
pub proof fn law_prepared_cache_accepts_its_request(cache: MonitorCacheModel, request: RequestModel)
    requires
        cache.valid(),
    ensures
        cache.prepared(request).accepts(request),
        !cache.prepared(request).must_reset(request),
        cache.prepared(request).prepared(request) == cache.prepared(request),
{
    let ready = cache.prepared(request);
    assert(ready.prepared(request) =~= ready);
}

/// Pixels of another project, scaling policy or file are gone before a request is served, and
/// with them every index entry and every registered stream and source but its own.
pub proof fn law_reset_keeps_no_pixels(cache: MonitorCacheModel, request: RequestModel)
    requires
        cache.must_reset(request),
    ensures
        cache.prepared(request).frames.len() == 0,
        cache.prepared(request).scrub == Set::<FrameKey>::empty(),
        cache.prepared(request).latest == Map::<FrameStreamKey, (FrameKey, bool)>::empty(),
        cache.prepared(request).anchors == Map::<FrameStreamKey, i64>::empty(),
        cache.prepared(request).sources == Map::<u32, PathModel>::empty().insert(
            request.media_id,
            request.path,
        ),
        cache.prepared(request).diagnostics.current_bytes == 0,
        cache.prepared(request).diagnostics.peak_bytes == cache.diagnostics.peak_bytes,
{
}

/// The registries stay bounded however many requests fail or go uncached: after a request was
/// prepared, storing its frame keeps both of them within the limit.
pub proof fn law_prepare_bounds_the_registries(
    cache: MonitorCacheModel,
    request: RequestModel,
    tick: int,
    value: FrameValue,
)
    requires
        cache.valid(),
        cache.latest.dom().finite(),
        cache.latest.len() <= MAX_CACHE_STREAM_STATES,
    ensures
        cache.prepared(request).sources.len() <= MAX_CACHE_STREAM_STATES,
        cache.prepared(request).latest.len() <= MAX_CACHE_STREAM_STATES,
        cache.prepared(request).inserted(request.frame_key(tick), value).latest.len()
            <= MAX_CACHE_STREAM_STATES,
{
    let ready = cache.prepared(request);
    assert(stream_of_key(request.frame_key(tick)) == request.stream());
}

/// Two requests that one cache accepts read the same project with the same scaling policy, and
/// the same file where they name the same medium.
pub proof fn law_accepted_requests_share_their_source(
    cache: MonitorCacheModel,
    left: RequestModel,
    right: RequestModel,
)
    requires
        cache.accepts(left),
        cache.accepts(right),
    ensures
        left.cache_epoch == right.cache_epoch,
        left.high_quality_scaling == right.high_quality_scaling,
        left.media_id == right.media_id ==> left.path == right.path,
{
}

/// A scrub lookup never shows a frame from before its target, and goes no further after it
/// than one source frame; where the frame duration is unknown only the exact tick is found.
pub proof fn law_scrub_hit_is_at_or_just_after_target(
    cache: MonitorCacheModel,
    request: RequestModel,
)
    ensures
        cache.scrub_hit(request) matches Some(value) ==> value.source_tick >= source_time(
            request.source_tick as int,
        ),
        cache.scrub_hit(request) is Some ==> request.is_scrubbing
            && cache.scrub_candidate(request) is Some,
        cache.scrub_candidate(request) matches Some(key) ==> stream_of_key(key) == request.stream()
            && source_time(request.source_tick as int) <= key.source_tick <= source_time(
            request.source_tick as int,
        ) + scrub_tolerance(request),
        request.source_frame_duration_tick is None ==> (cache.scrub_candidate(
            request,
        ) matches Some(key) ==> key == request.frame_key(request.source_tick as int)),
{
    let target = source_time(request.source_tick as int);
    let upper = nearest_i64(target + scrub_tolerance(request));
    if let Some(key) = cache.scrub_candidate(request) {
        lemma_earliest_in_span(cache.scrub, request.stream(), target, upper);
    }
}

/// The earliest frame of a span lies in it.
proof fn lemma_earliest_in_span(
    keys: Set<FrameKey>,
    stream: FrameStreamKey,
    lower: int,
    upper: int,
)
    ensures
        earliest_in_span(keys, stream, lower, upper) matches Some(key) ==> is_earliest(
            keys,
            key,
            stream,
            lower,
            upper,
        ),
{
    if exists|key: FrameKey| in_span(keys, key, stream, lower, upper) {
        let witness = choose|key: FrameKey| in_span(keys, key, stream, lower, upper);
        lemma_some_earliest(keys, stream, lower, upper, witness);
    }
}

proof fn lemma_some_earliest(
    keys: Set<FrameKey>,
    stream: FrameStreamKey,
    lower: int,
    upper: int,
    witness: FrameKey,
)
    requires
        in_span(keys, witness, stream, lower, upper),
    ensures
        exists|key: FrameKey| is_earliest(keys, key, stream, lower, upper),
    decreases witness.source_tick - lower,
{
    if exists|other: FrameKey|
        #[trigger] in_span(keys, other, stream, lower, upper) && other.source_tick
            < witness.source_tick {
        let other = choose|other: FrameKey|
            #[trigger] in_span(keys, other, stream, lower, upper) && other.source_tick
                < witness.source_tick;
        lemma_some_earliest(keys, stream, lower, upper, other);
    } else {
        assert(is_earliest(keys, witness, stream, lower, upper));
    }
}

/// A stored target is found by its exact key, and the target that it displaces is not: a
/// continuous scrub retains its sparse anchors plus the exact latest frame.
pub proof fn law_latest_target_replaces_the_one_before(
    cache: MonitorCacheModel,
    key: FrameKey,
    value: FrameValue,
)
    requires
        cache.valid(),
        value.spec_byte_len() <= cache.capacity,
    ensures
        lookup(cache.inserted(key, value).frames, key) == Some(value),
        cache.displaced_by(key) matches Some(previous) ==> lookup(
            cache.inserted(key, value).frames,
            previous,
        ) is None,
        cache.inserted(key, value).latest[stream_of_key(key)].0 == key,
{
    law_stored_frame_is_found(cache.frames, key, value, cache.capacity as int, key);
    let with = stored(cache.frames, key, value, cache.capacity as int);
    if let Some(previous) = cache.displaced_by(key) {
        law_remove_takes_one_frame(with, previous, key);
    }
}

/// Two targets of one stream in one time bucket: the second one displaces the first, unless
/// the first opened the bucket or is indexed for scrubbing.
pub proof fn law_bucket_keeps_one_anchor_and_the_latest(
    cache: MonitorCacheModel,
    first: FrameKey,
    first_value: FrameValue,
    second: FrameKey,
)
    requires
        first_value.spec_byte_len() <= cache.capacity,
        stream_of_key(first) == stream_of_key(second),
        first != second,
        anchor_bucket(first.source_tick as int) == anchor_bucket(second.source_tick as int),
    ensures
        cache.inserted(first, first_value).displaced_by(second) == (if cache.opens_bucket(first)
            || cache.scrub.contains(first) {
            None
        } else {
            Some(first)
        }),
        !cache.inserted(first, first_value).opens_bucket(second),
{
    let bucket = anchor_bucket(first.source_tick as int);
    assert(i64::MIN <= bucket <= i64::MAX) by {
        let width = SPARSE_CACHE_INTERVAL_TICKS as int;
        vstd::arithmetic::div_mod::lemma_fundamental_div_mod(first.source_tick as int, width);
        assert(i64::MIN <= bucket <= i64::MAX) by (nonlinear_arith)
            requires
                first.source_tick == width * bucket + (first.source_tick as int) % width,
                0 <= (first.source_tick as int) % width < width,
                width == 250_000,
                i64::MIN <= first.source_tick <= i64::MAX,
        ;
    }
}

/// A traversal keeps at most one frame per time bucket: where the bucket is taken, passing
/// another frame changes nothing.
pub proof fn law_traversal_keeps_one_frame_per_bucket(
    cache: MonitorCacheModel,
    request: RequestModel,
    value: FrameValue,
)
    requires
        cache.bucket_taken(request, value.source_tick as int),
    ensures
        cache.traversed(request, value) == cache,
{
}

/// Anchors come one per quarter of a second, traversed frames one per half a source frame or, where
/// that is unknown, per twentieth of a second; a lookup reaches one source frame ahead and no
/// further.
pub proof fn law_buckets_and_spans(tick: int, request: RequestModel)
    ensures
        anchor_bucket(tick) * 250_000 <= tick < (anchor_bucket(tick) + 1) * 250_000,
        source_time(tick) == tick || (tick < 0 && source_time(tick) == 0),
        source_time(tick) >= 0,
        match request.source_frame_duration_tick {
            Some(duration) if duration > 0 => {
                &&& scrub_tolerance(request) == duration
                &&& scrub_interval(request) >= 1
                &&& duration >= 2 ==> 2 * scrub_interval(request) <= duration < 2 * scrub_interval(
                    request,
                ) + 2
                &&& duration == 1 ==> scrub_interval(request) == 1
            },
            _ => scrub_tolerance(request) == 0 && scrub_interval(request) == 50_000,
        },
{
    vstd::arithmetic::div_mod::lemma_fundamental_div_mod(tick, 250_000);
}

/// A cache starts afresh exactly where its pixels belong to another project, scaling policy or file,
/// or a registry that would grow holds 4,096 entries already.
pub proof fn law_cache_starts_afresh_only_for_a_reason(
    cache: MonitorCacheModel,
    request: RequestModel,
)
    ensures
        cache.must_reset(request) <==> {
            let stream = FrameStreamKey {
                project_epoch: request.cache_epoch,
                media_id: request.media_id,
                width: request.width,
                height: request.height,
            };
            ||| cache.project_epoch != Some(request.cache_epoch)
            ||| cache.high_quality_scaling != Some(request.high_quality_scaling)
            ||| cache.sources.contains_key(request.media_id) && cache.sources[request.media_id]
                != request.path
            ||| !cache.latest.contains_key(stream) && cache.latest.len() >= 4_096
            ||| !cache.sources.contains_key(request.media_id) && cache.sources.len() >= 4_096
        },
{
}

/// Making a cache ready keeps everything where it does not start afresh, registers the request's
/// file, and leaves the budget and the count of evictions alone in any case.
pub proof fn law_preparation_keeps_what_it_can(cache: MonitorCacheModel, request: RequestModel)
    ensures
        ({
            let ready = cache.prepared(request);
            &&& ready.project_epoch == Some(request.cache_epoch)
            &&& ready.high_quality_scaling == Some(request.high_quality_scaling)
            &&& ready.sources.contains_key(request.media_id)
            &&& ready.sources[request.media_id] == request.path
            &&& ready.capacity == cache.capacity
            &&& ready.evictions == cache.evictions
            &&& !cache.must_reset(request) ==> {
                &&& ready.frames == cache.frames
                &&& ready.anchors == cache.anchors
                &&& ready.latest == cache.latest
                &&& ready.scrub == cache.scrub
                &&& ready.order == cache.order
                &&& ready.diagnostics == cache.diagnostics
                &&& forall|media_id: u32|
                    media_id != request.media_id ==> (#[trigger] ready.sources.contains_key(
                        media_id,
                    ) <==> cache.sources.contains_key(media_id))
                &&& forall|media_id: u32|
                    #![trigger ready.sources[media_id]]
                    cache.sources.contains_key(media_id) ==> ready.sources[media_id]
                        == cache.sources[media_id]
            }
            &&& cache.must_reset(request) ==> {
                &&& ready.frames.len() == 0
                &&& ready.order.len() == 0
                &&& ready.latest.dom() == Set::<FrameStreamKey>::empty()
                &&& ready.anchors.dom() == Set::<FrameStreamKey>::empty()
            }
        }),
{
    let ready = cache.prepared(request);
    if cache.must_reset(request) {
        assert(ready.latest.dom() =~= Set::empty());
        assert(ready.anchors.dom() =~= Set::empty());
    }
}

/// A cleared cache holds nothing and belongs to nobody; its budget, its evictions and its peak stay.
pub proof fn law_cleared_cache_is_empty(cache: MonitorCacheModel)
    ensures
        ({
            let empty = cache.cleared();
            &&& empty.frames.len() == 0
            &&& empty.order.len() == 0
            &&& forall|key: FrameKey| !#[trigger] empty.scrub.contains(key)
            &&& forall|stream: FrameStreamKey| !#[trigger] empty.latest.contains_key(stream)
            &&& forall|stream: FrameStreamKey| !#[trigger] empty.anchors.contains_key(stream)
            &&& forall|media_id: u32| !#[trigger] empty.sources.contains_key(media_id)
            &&& empty.project_epoch is None
            &&& empty.high_quality_scaling is None
            &&& empty.capacity == cache.capacity
            &&& empty.evictions == cache.evictions
            &&& empty.diagnostics.current_bytes == 0
            &&& empty.diagnostics.peak_bytes == cache.diagnostics.peak_bytes
        }),
{
}

/// A cache accepts a request exactly where its pixels are of the request's project, scaling policy
/// and file.
pub proof fn law_acceptance_is_exact(cache: MonitorCacheModel, request: RequestModel)
    ensures
        cache.accepts(request) <==> {
            &&& cache.project_epoch == Some(request.cache_epoch)
            &&& cache.high_quality_scaling == Some(request.high_quality_scaling)
            &&& cache.sources.contains_key(request.media_id)
            &&& cache.sources[request.media_id] == request.path
        },
{
}

/// A stored target becomes the latest of its stream, and an anchor exactly where the stream has none
/// in its quarter of a second; other streams, the scrub index and the sources are as they were. A
/// frame that is too large changes none of it.
pub proof fn law_stored_target_is_registered(
    cache: MonitorCacheModel,
    key: FrameKey,
    value: FrameValue,
    other: FrameStreamKey,
)
    requires
        cache.valid(),
    ensures
        ({
            let after = cache.inserted(key, value);
            let stream = FrameStreamKey {
                project_epoch: key.project_epoch,
                media_id: key.media_id,
                width: key.width,
                height: key.height,
            };
            let bucket = key.source_tick as int / 250_000;
            let opens = !cache.anchors.contains_key(stream) || cache.anchors[stream] != bucket;
            &&& after.scrub == cache.scrub
            &&& after.order == cache.order
            &&& after.sources == cache.sources
            &&& after.project_epoch == cache.project_epoch
            &&& after.high_quality_scaling == cache.high_quality_scaling
            &&& after.capacity == cache.capacity
            &&& value.rgba@.len() > cache.capacity ==> after.frames == cache.frames && after.latest
                == cache.latest && after.anchors == cache.anchors && after.evictions
                == cache.evictions
            &&& value.rgba@.len() <= cache.capacity ==> {
                &&& after.latest.contains_key(stream)
                &&& after.latest[stream].0 == key
                &&& after.latest[stream].1 == opens
                &&& after.anchors.contains_key(stream)
                &&& after.anchors[stream] == bucket
                &&& other != stream ==> (after.latest.contains_key(other)
                    <==> cache.latest.contains_key(other)) && after.latest[other]
                    == cache.latest[other]
                &&& other != stream ==> (after.anchors.contains_key(other)
                    <==> cache.anchors.contains_key(other)) && after.anchors[other]
                    == cache.anchors[other]
            }
        }),
{
    lemma_bucket_fits(key.source_tick as int);
}

proof fn lemma_bucket_fits(tick: int)
    requires
        i64::MIN <= tick <= i64::MAX,
    ensures
        i64::MIN <= tick / 250_000 <= i64::MAX,
{
    vstd::arithmetic::div_mod::lemma_fundamental_div_mod(tick, 250_000);
}

/// The target before is given up exactly where it is another frame, no anchor, and not indexed for
/// scrubbing; every other frame is kept as a plain store within the budget keeps it.
pub proof fn law_only_the_target_before_is_displaced(
    cache: MonitorCacheModel,
    key: FrameKey,
    value: FrameValue,
    other: FrameKey,
)
    requires
        cache.valid(),
        value.rgba@.len() <= cache.capacity,
    ensures
        ({
            let stream = FrameStreamKey {
                project_epoch: key.project_epoch,
                media_id: key.media_id,
                width: key.width,
                height: key.height,
            };
            let kept = stored(cache.frames, key, value, cache.capacity as int);
            let after = cache.inserted(key, value);
            let displaced = cache.latest.contains_key(stream) && cache.latest[stream].0 != key
                && !cache.latest[stream].1 && !cache.scrub.contains(cache.latest[stream].0);
            &&& displaced ==> lookup(after.frames, cache.latest[stream].0) is None
            &&& displaced && other != cache.latest[stream].0 ==> lookup(after.frames, other)
                == lookup(kept, other)
            &&& !displaced ==> after.frames == kept
            &&& after.diagnostics.current_bytes == total_bytes(after.frames)
            &&& after.diagnostics.peak_bytes >= cache.diagnostics.peak_bytes
            &&& after.diagnostics.eviction_count == after.evictions
        }),
{
    law_stored_frame_is_found(cache.frames, key, value, cache.capacity as int, other);
    let kept = stored(cache.frames, key, value, cache.capacity as int);
    let with = cache.with_frame(key, value);
    assert(with.frames == kept);
    crate::frame_cache::lemma_evict_to_suffix(
        without_key(cache.frames, key),
        cache.capacity - value.spec_byte_len(),
    );
    if let Some(previous) = cache.displaced_by(key) {
        law_remove_takes_one_frame(kept, previous, other);
    }
}

/// A scrub lookup goes for the first indexed frame of its stream from the target on, no more than
/// one source frame after it, and only while scrubbing; it returns that frame exactly where it is
/// still retained and does not lie before the target.
pub proof fn law_scrub_lookup_is_exact(
    cache: MonitorCacheModel,
    request: RequestModel,
    other: FrameKey,
)
    requires
        cache.valid(),
        0 <= request.source_tick <= 0x3FFF_FFFF_FFFF_FFFF,
        request.source_frame_duration_tick matches Some(duration) ==> duration
            <= 0x3FFF_FFFF_FFFF_FFFF,
    ensures
        ({
            let reach = match request.source_frame_duration_tick {
                Some(duration) if duration > 0 => duration as int,
                _ => 0,
            };
            let eligible = cache.scrub.contains(other) && other.project_epoch == request.cache_epoch
                && other.media_id == request.media_id && other.width == request.width
                && other.height == request.height && request.source_tick <= other.source_tick
                <= request.source_tick + reach;
            let found = cache.scrub_candidate(request);
            &&& !request.is_scrubbing ==> found is None && cache.scrub_hit(request) is None
                && cache.after_scrub_lookup(request) == cache
            &&& request.is_scrubbing && eligible ==> (found matches Some(key) && key.source_tick
                <= other.source_tick)
            &&& found matches Some(key) ==> {
                &&& cache.scrub.contains(key)
                &&& key.project_epoch == request.cache_epoch
                &&& key.media_id == request.media_id
                &&& key.width == request.width
                &&& key.height == request.height
                &&& request.source_tick <= key.source_tick <= request.source_tick + reach
                &&& cache.scrub_hit(request) is Some <==> (lookup(cache.frames, key) matches Some(
                    value,
                ) && value.source_tick >= request.source_tick)
                &&& cache.scrub_hit(request) is Some ==> cache.scrub_hit(request) == lookup(
                    cache.frames,
                    key,
                )
            }
            &&& found is None ==> cache.scrub_hit(request) is None
        }),
{
    let target = source_time(request.source_tick as int);
    let upper = nearest_i64(target + scrub_tolerance(request));
    crate::decode::scrub_index::law_earliest_is_found(
        cache.scrub,
        request.stream(),
        target,
        upper,
        other,
    );
}

/// A scrub lookup moves the frame that it went for to the end of the order of use, forgets its entry
/// exactly where it led to nothing, and changes nothing else.
pub proof fn law_scrub_lookup_changes_little(
    cache: MonitorCacheModel,
    request: RequestModel,
    key: FrameKey,
    other: FrameKey,
)
    requires
        cache.scrub_candidate(request) == Some(key),
    ensures
        ({
            let after = cache.after_scrub_lookup(request);
            &&& after.frames == touched(cache.frames, key)
            &&& cache.scrub_hit(request) is Some ==> after.scrub == cache.scrub
            &&& cache.scrub_hit(request) is None ==> !after.scrub.contains(key)
            &&& other != key ==> (after.scrub.contains(other) <==> cache.scrub.contains(other))
            &&& after.latest == cache.latest
            &&& after.anchors == cache.anchors
            &&& after.order == cache.order
            &&& after.sources == cache.sources
            &&& after.evictions == cache.evictions
            &&& after.project_epoch == cache.project_epoch
        }),
{
}

/// A bucket is taken exactly where an indexed frame of the stream lies in the same one: whole buckets
/// of the interval counted from the start of the source are the same for both.
pub proof fn law_bucket_is_taken_by_a_frame_in_it(
    cache: MonitorCacheModel,
    request: RequestModel,
    tick: i64,
    other: FrameKey,
)
    requires
        tick >= 0,
    ensures
        ({
            let interval = scrub_interval(request);
            let in_bucket = cache.scrub.contains(other) && other.project_epoch
                == request.cache_epoch && other.media_id == request.media_id && other.width
                == request.width && other.height == request.height && other.source_tick as int
                / interval == tick as int / interval;
            in_bucket ==> cache.bucket_taken(request, tick as int)
        }),
        cache.bucket_taken(request, tick as int) ==> exists|key: FrameKey| #[trigger]
            cache.scrub.contains(key) && key.project_epoch == request.cache_epoch && key.media_id
                == request.media_id && key.width == request.width && key.height == request.height
                && key.source_tick as int / scrub_interval(request) == tick as int / scrub_interval(
                request,
            ),
{
    let interval = scrub_interval(request);
    let q = tick as int / interval;
    let start = q * interval;
    let end = nearest_i64(start + (interval - 1));
    crate::decode::scrub_index::law_earliest_is_found(
        cache.scrub,
        request.stream(),
        start,
        end,
        other,
    );
    vstd::arithmetic::div_mod::lemma_fundamental_div_mod(other.source_tick as int, interval);
    assert(interval * (other.source_tick as int / interval) == (other.source_tick as int / interval)
        * interval) by (nonlinear_arith);
    lemma_bucket_start(tick as int, interval);
    if cache.bucket_taken(request, tick as int) {
        let key = earliest_in_span(cache.scrub, request.stream(), start, end)->0;
        let r = key.source_tick - start;
        assert(key.source_tick as int == q * interval + r);
        vstd::arithmetic::div_mod::lemma_fundamental_div_mod_converse(
            key.source_tick as int,
            interval,
            q,
            r,
        );
        assert(cache.scrub.contains(key));
    }
}

/// A frame that a scrub passes is kept and indexed exactly where the request scrubs, the cache is
/// the request's, the frame fits and its bucket is free; it is then found under its own time. In any
/// other case nothing is kept.
pub proof fn law_passed_frames_are_indexed(
    cache: MonitorCacheModel,
    request: RequestModel,
    value: FrameValue,
    other: FrameKey,
)
    requires
        cache.valid(),
    ensures
        ({
            let after = cache.traversed(request, value);
            let key = FrameKey {
                project_epoch: request.cache_epoch,
                media_id: request.media_id,
                source_tick: if value.source_tick < 0 {
                    0
                } else {
                    value.source_tick
                },
                width: request.width,
                height: request.height,
            };
            let keeps = request.is_scrubbing && cache.accepts(request) && !cache.bucket_taken(
                request,
                value.source_tick as int,
            ) && value.rgba@.len() <= cache.capacity;
            &&& keeps ==> {
                &&& after.frames == stored(cache.frames, key, value, cache.capacity as int)
                &&& lookup(after.frames, key) == Some(value)
                &&& after.order.last() == key
                &&& cache.order.len() < 1_024 ==> after.order == cache.order.push(key)
                &&& cache.order.len() < 1_024 ==> (after.scrub.contains(other)
                    <==> cache.scrub.contains(other) || other == key)
                &&& cache.order.len() == 1_024 ==> after.order == cache.order.push(key).skip(1)
                &&& cache.order.len() == 1_024 && other != cache.order[0] ==> (
                after.scrub.contains(other) <==> cache.scrub.contains(other) || other == key)
                &&& cache.order.len() == 1_024 ==> !after.scrub.contains(cache.order[0])
            }
            &&& !keeps ==> after.frames == cache.frames && after.scrub == cache.scrub && after.order
                == cache.order && after.evictions == cache.evictions
            &&& after.latest == cache.latest
            &&& after.anchors == cache.anchors
            &&& after.sources == cache.sources
            &&& after.project_epoch == cache.project_epoch
            &&& after.high_quality_scaling == cache.high_quality_scaling
            &&& after.capacity == cache.capacity
        }),
{
    let key = request.frame_key(value.source_tick as int);
    let keys = cache.scrub.insert(key);
    let order = cache.order.push(key);
    if value.spec_byte_len() <= cache.capacity {
        law_stored_frame_is_found(cache.frames, key, value, cache.capacity as int, key);
    }
    crate::decode::scrub_index::law_index_forgets_the_oldest(keys, order, other);
    if cache.order.len() == 1_024 {
        crate::decode::scrub_index::law_index_forgets_the_oldest(keys, order, cache.order[0]);
        let gone = order.take(1);
        assert(gone.len() == 1 && gone[0] == cache.order[0]);
        assert(gone.contains(cache.order[0]));
    }
}

/// Making a cache ready tells exactly where it starts afresh; then no frame is left, and otherwise every
/// one is. It then serves the request.
pub proof fn law_prepared_cache_keeps_or_drops_everything(
    cache: &mut MonitorFrameCache,
    request: &DecodeRequest,
    reset: bool,
)
    requires
        call_ensures(MonitorFrameCache::prepare_request, (cache, request), reset),
    ensures
        reset ==> final(cache)@.frames.len() == 0,
        !reset ==> final(cache)@.frames == old(cache)@.frames && final(cache)@.scrub == old(cache)@.scrub && final(cache)@.latest == old(cache)@.latest,
        old(cache)@.project_epoch != Some(request.cache_epoch) ==> reset,
        old(cache)@.high_quality_scaling != Some(request.high_quality_scaling) ==> reset,
        old(cache)@.sources.contains_key(request.media_id) && old(cache)@.sources[request.media_id] != request.path@ ==> reset,
        old(cache)@.project_epoch == Some(request.cache_epoch) && old(cache)@.high_quality_scaling == Some(request.high_quality_scaling) && old(cache)@.sources.contains_key(request.media_id) && old(cache)@.sources[request.media_id]
            == request.path@ && old(cache)@.latest.len() < 4_096 ==> !reset,
        final(cache)@.project_epoch == Some(request.cache_epoch),
        final(cache)@.high_quality_scaling == Some(request.high_quality_scaling),
        final(cache)@.sources.contains_key(request.media_id),
        final(cache)@.sources[request.media_id] == request.path@,
{
    law_cache_starts_afresh_only_for_a_reason(old(cache)@, request@);
    law_preparation_keeps_what_it_can(old(cache)@, request@);
}

/// A decoded target goes to the cache exactly while the cache is its request's and has room for it.
pub proof fn law_stale_targets_are_not_kept(
    cache: &mut MonitorFrameCache,
    request: &DecodeRequest,
    key: FrameKey,
    value: FrameValue,
    kept: bool,
)
    requires
        call_ensures(MonitorFrameCache::insert_if_current, (cache, request, key, value), kept),
        old(cache)@.valid(),
    ensures
        ({
            let current = old(cache)@.project_epoch == Some(request.cache_epoch) && old(cache)@.high_quality_scaling == Some(request.high_quality_scaling) && old(cache)@.sources.contains_key(request.media_id) && old(cache)@.sources[request.media_id]
                == request.path@;
            &&& kept <==> current && value.rgba@.len() <= old(cache)@.capacity
            &&& !current ==> final(cache)@ == old(cache)@
            &&& kept ==> lookup(final(cache)@.frames, key) == Some(value)
        }),
{
    if kept {
        law_latest_target_replaces_the_one_before(old(cache)@, key, value);
    }
}

} // verus!

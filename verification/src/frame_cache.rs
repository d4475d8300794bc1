//! Bounded decoded-frame cache for timeline monitoring.
//!
//! The cache is independent of decode and rendering. Callers decide when a
//! decoded frame is useful; the cache only retains exact source frame keys
//! within its byte budget, and gives up the least recently used frame first.
use std::sync::Arc;
use vstd::prelude::*;

verus! {

/// Identifies one decoded source frame at one requested output size.
#[derive(Clone, Copy, Debug, Eq, Hash, Ord, PartialEq, PartialOrd, Structural)]
pub struct FrameKey {
    pub project_epoch: u64,
    pub media_id: u32,
    pub source_tick: i64,
    pub width: u32,
    pub height: u32,
}

/// A decoded RGBA frame retained by [`FrameCache`].
#[derive(Debug, Eq, PartialEq)]
pub struct FrameValue {
    pub source_tick: i64,
    pub width: u32,
    pub height: u32,
    pub rgba: Arc<[u8]>,
}

impl FrameValue {
    pub fn new(source_tick: i64, width: u32, height: u32, rgba: Arc<[u8]>) -> (value: Self)
        ensures
            value == (FrameValue { source_tick, width, height, rgba }),
    {
        FrameValue { source_tick, width, height, rgba }
    }

    /// The bytes that this frame counts against a cache's budget.
    pub open spec fn spec_byte_len(&self) -> nat {
        self.rgba@.len()
    }

    pub fn byte_len(&self) -> (bytes: usize)
        ensures
            bytes == self.spec_byte_len(),
    {
        self.rgba.len()
    }
}

impl Clone for FrameValue {
    fn clone(&self) -> (copy: Self)
        ensures
            copy == *self,
    {
        FrameValue {
            source_tick: self.source_tick,
            width: self.width,
            height: self.height,
            rgba: self.rgba.clone(),
        }
    }
}

/// The retained frames in order of use, least recently used first.
pub type Frames = Seq<(FrameKey, FrameValue)>;

/// The bytes that all frames of `frames` hold together.
pub open spec fn total_bytes(frames: Frames) -> nat
    decreases frames.len(),
{
    if frames.len() == 0 {
        0
    } else {
        frames[0].1.spec_byte_len() + total_bytes(frames.drop_first())
    }
}

/// Whether a frame is retained under `key`.
pub open spec fn has_key(frames: Frames, key: FrameKey) -> bool {
    exists|i: int| 0 <= i < frames.len() && (#[trigger] frames[i]).0 == key
}

/// Where the frame under `key` stands.
pub open spec fn index_of_key(frames: Frames, key: FrameKey) -> int {
    choose|i: int| 0 <= i < frames.len() && (#[trigger] frames[i]).0 == key
}

/// The frame retained under `key`.
pub open spec fn lookup(frames: Frames, key: FrameKey) -> Option<FrameValue> {
    if has_key(frames, key) {
        Some(frames[index_of_key(frames, key)].1)
    } else {
        None
    }
}

/// `frames` with the one under `key` taken out.
pub open spec fn without_key(frames: Frames, key: FrameKey) -> Frames {
    if has_key(frames, key) {
        frames.remove(index_of_key(frames, key))
    } else {
        frames
    }
}

/// What is left of `frames` once the oldest ones are given up, one by one,
/// until the rest fits into `room` bytes.
pub open spec fn evict_to(frames: Frames, room: int) -> Frames
    decreases frames.len(),
{
    if frames.len() == 0 || total_bytes(frames) <= room {
        frames
    } else {
        evict_to(frames.drop_first(), room)
    }
}

/// No key stands twice.
pub open spec fn unique_keys(frames: Frames) -> bool {
    forall|i: int, j: int|
        0 <= i < j < frames.len() ==> (#[trigger] frames[i]).0 != (#[trigger] frames[j]).0
}

/// `frames` after a lookup of `key`: a hit becomes the most recently used.
pub open spec fn touched(frames: Frames, key: FrameKey) -> Frames {
    match lookup(frames, key) {
        Some(value) => without_key(frames, key).push((key, value)),
        None => frames,
    }
}

/// `frames` after `value` was stored under `key` within `capacity` bytes.
pub open spec fn stored(frames: Frames, key: FrameKey, value: FrameValue, capacity: int) -> Frames {
    evict_to(without_key(frames, key), capacity - value.spec_byte_len()).push((key, value))
}

/// How many frames that store gives up to stay within `capacity` bytes.
pub open spec fn evicted_by_store(
    frames: Frames,
    key: FrameKey,
    value: FrameValue,
    capacity: int,
) -> int {
    without_key(frames, key).len() - evict_to(
        without_key(frames, key),
        capacity - value.spec_byte_len(),
    ).len()
}

struct Entry {
    key: FrameKey,
    value: FrameValue,
}

/// Exact-key, byte-bounded LRU cache for decoded monitor frames.
pub struct FrameCache {
    capacity_bytes: usize,
    used_bytes: usize,
    evictions: u64,
    entries: Vec<Entry>,
}

impl View for FrameCache {
    type V = Frames;

    closed spec fn view(&self) -> Frames {
        entries_view(self.entries@)
    }
}

closed spec fn entries_view(entries: Seq<Entry>) -> Frames {
    Seq::new(entries.len(), |i: int| (entries[i].key, entries[i].value))
}

impl FrameCache {
    /// The hard byte budget.
    pub closed spec fn capacity(&self) -> nat {
        self.capacity_bytes as nat
    }

    /// How many frames the budget has cost so far.
    pub closed spec fn evictions(&self) -> nat {
        self.evictions as nat
    }

    /// No key stands twice, the account is exact, and it keeps to the budget.
    pub closed spec fn wf(&self) -> bool {
        &&& unique_keys(self@)
        &&& self.used_bytes == total_bytes(self@)
        &&& self.used_bytes <= self.capacity_bytes
    }

    /// A well-formed cache holds each key once and keeps to its budget.
    pub proof fn law_within_budget(&self)
        requires
            self.wf(),
        ensures
            unique_keys(self@),
            total_bytes(self@) <= self.capacity(),
            self.capacity() <= usize::MAX,
            self.evictions() <= u64::MAX,
    {
    }

    pub fn new(capacity_bytes: usize) -> (cache: Self)
        ensures
            cache.wf(),
            cache@ == Seq::<(FrameKey, FrameValue)>::empty(),
            cache.capacity() == capacity_bytes,
            cache.evictions() == 0,
    {
        let cache = FrameCache { capacity_bytes, used_bytes: 0, evictions: 0, entries: Vec::new() };
        assert(cache@ =~= Seq::empty());
        cache
    }

    pub fn capacity_bytes(&self) -> (bytes: usize)
        ensures
            bytes == self.capacity(),
    {
        self.capacity_bytes
    }

    pub fn used_bytes(&self) -> (bytes: usize)
        requires
            self.wf(),
        ensures
            bytes == total_bytes(self@),
            bytes <= self.capacity(),
    {
        self.used_bytes
    }

    /// How many frames were given up to keep to the budget, over the cache's
    /// whole life.
    pub fn eviction_count(&self) -> (count: u64)
        ensures
            count == self.evictions(),
    {
        self.evictions
    }

    pub fn len(&self) -> (count: usize)
        ensures
            count == self@.len(),
    {
        self.entries.len()
    }

    pub fn is_empty(&self) -> (empty: bool)
        ensures
            empty == (self@.len() == 0),
    {
        self.entries.len() == 0
    }

    /// The place of `key` among the entries.
    fn find(&self, key: &FrameKey) -> (found: Option<usize>)
        requires
            unique_keys(self@),
        ensures
            found is Some == has_key(self@, *key),
            found matches Some(i) ==> i < self@.len() && i == index_of_key(self@, *key)
                && self@[i as int].0 == *key,
    {
        let mut i: usize = 0;
        while i < self.entries.len()
            invariant
                i <= self.entries.len(),
                unique_keys(self@),
                forall|j: int| 0 <= j < i ==> (#[trigger] self@[j]).0 != *key,
            decreases self.entries.len() - i,
        {
            if self.entries[i].key == *key {
                assert(self@[i as int].0 == *key);
                return Some(i);
            }
            assert(self@[i as int].0 != *key);
            i += 1;
        }
        None
    }

    /// Takes the entry at `index` out.
    fn take_at(&mut self, index: usize) -> (taken: Entry)
        requires
            old(self).wf(),
            index < old(self)@.len(),
        ensures
            final(self).wf(),
            final(self)@ == old(self)@.remove(index as int),
            final(self).capacity() == old(self).capacity(),
            final(self).evictions() == old(self).evictions(),
            (taken.key, taken.value) == old(self)@[index as int],
    {
        let ghost before = self@;
        proof {
            lemma_total_bytes_remove(before, index as int);
        }
        let taken = self.entries.remove(index);
        let bytes: usize = taken.value.byte_len();
        assert(self@ =~= before.remove(index as int));
        self.used_bytes = self.used_bytes - bytes;
        assert(self@ =~= before.remove(index as int));
        taken
    }

    /// Returns an exact cached frame and marks it most recently used.
    pub fn get(&mut self, key: &FrameKey) -> (found: Option<&FrameValue>)
        requires
            old(self).wf(),
        ensures
            final(self).wf(),
            final(self)@ == touched(old(self)@, *key),
            final(self).capacity() == old(self).capacity(),
            final(self).evictions() == old(self).evictions(),
            found is Some == has_key(old(self)@, *key),
            found matches Some(value) ==> Some(*value) == lookup(old(self)@, *key),
    {
        match self.find(key) {
            None => None,
            Some(index) => {
                let ghost before = self@;
                let entry = self.take_at(index);
                let bytes: usize = entry.value.byte_len();
                let ghost rest = self@;
                proof {
                    lemma_total_bytes_remove(before, index as int);
                    lemma_total_bytes_push(rest, (entry.key, entry.value));
                }
                self.used_bytes = self.used_bytes + bytes;
                self.entries.push(entry);
                assert(self@ =~= rest.push(before[index as int]));
                let last: usize = self.entries.len() - 1;
                Some(&self.entries[last].value)
            },
        }
    }

    /// Inserts or replaces a frame. Returns `false` without changing the cache
    /// when the value cannot ever fit within this cache's hard byte budget.
    pub fn insert(&mut self, key: FrameKey, value: FrameValue) -> (fits: bool)
        requires
            old(self).wf(),
        ensures
            final(self).wf(),
            fits == (value.spec_byte_len() <= old(self).capacity()),
            final(self).capacity() == old(self).capacity(),
            fits ==> final(self)@ == stored(
                old(self)@,
                key,
                value,
                old(self).capacity() as int,
            ),
            fits ==> final(self).evictions() == saturated_count(
                old(self).evictions() + evicted_by_store(
                    old(self)@,
                    key,
                    value,
                    old(self).capacity() as int,
                ),
            ),
            !fits ==> *final(self) == *old(self),
    {
        let value_bytes: usize = value.byte_len();
        if value_bytes > self.capacity_bytes {
            return false;
        }
        let found = self.find(&key);
        if let Some(index) = found {
            let _ = self.take_at(index);
        }
        let ghost rest = self@;
        assert(rest == without_key(old(self)@, key));
        proof {
            lemma_without_key(old(self)@, key);
        }
        self.evict_to_budget(self.capacity_bytes - value_bytes);
        let ghost kept = self@;
        proof {
            lemma_evict_to_suffix(rest, self.capacity_bytes - value_bytes);
            lemma_total_bytes_push(kept, (key, value));
        }
        self.used_bytes = self.used_bytes + value_bytes;
        self.entries.push(Entry { key, value });
        assert(self@ =~= kept.push((key, value)));
        true
    }

    pub fn clear(&mut self)
        requires
            old(self).wf(),
        ensures
            final(self).wf(),
            final(self)@ == Seq::<(FrameKey, FrameValue)>::empty(),
            final(self).capacity() == old(self).capacity(),
            final(self).evictions() == old(self).evictions(),
    {
        self.entries.clear();
        self.used_bytes = 0;
        assert(self@ =~= Seq::empty());
    }

    /// Removes one exact frame and returns it without disturbing other recency state.
    pub fn remove(&mut self, key: &FrameKey) -> (removed: Option<FrameValue>)
        requires
            old(self).wf(),
        ensures
            final(self).wf(),
            removed == lookup(old(self)@, *key),
            final(self)@ == without_key(old(self)@, *key),
            final(self).capacity() == old(self).capacity(),
            final(self).evictions() == old(self).evictions(),
    {
        match self.find(key) {
            None => None,
            Some(index) => {
                let taken = self.take_at(index);
                Some(taken.value)
            },
        }
    }

    /// Gives up the least recently used frames until the rest fits into `room`.
    fn evict_to_budget(&mut self, room: usize)
        requires
            old(self).wf(),
        ensures
            final(self).wf(),
            final(self)@ == evict_to(old(self)@, room as int),
            total_bytes(final(self)@) <= room,
            final(self).capacity() == old(self).capacity(),
            final(self).evictions() == saturated_count(
                old(self).evictions() + (old(self)@.len() - final(self)@.len()),
            ),
    {
        while self.used_bytes > room
            invariant
                self.wf(),
                evict_to(self@, room as int) == evict_to(old(self)@, room as int),
                self.capacity() == old(self).capacity(),
                self@.len() <= old(self)@.len(),
                self.evictions() == saturated_count(
                    old(self).evictions() + (old(self)@.len() - self@.len()),
                ),
            decreases self.entries.len(),
        {
            let ghost before = self@;
            assert(before.len() == self.entries@.len());
            assert(before.remove(0) =~= before.drop_first());
            let _ = self.take_at(0);
            self.evictions = self.evictions.saturating_add(1);
        }
    }
}

/// A count that sticks at the largest value of the counter.
pub open spec fn saturated_count(count: int) -> int {
    if count > u64::MAX {
        u64::MAX as int
    } else {
        count
    }
}

proof fn lemma_total_bytes_concat(a: Frames, b: Frames)
    ensures
        total_bytes(a + b) == total_bytes(a) + total_bytes(b),
    decreases a.len(),
{
    if a.len() == 0 {
        assert(a + b =~= b);
    } else {
        assert((a + b).drop_first() =~= a.drop_first() + b);
        lemma_total_bytes_concat(a.drop_first(), b);
    }
}

proof fn lemma_total_bytes_push(frames: Frames, frame: (FrameKey, FrameValue))
    ensures
        total_bytes(frames.push(frame)) == total_bytes(frames) + frame.1.spec_byte_len(),
{
    let one = seq![frame];
    assert(one.drop_first() =~= Seq::empty());
    assert(total_bytes(one) == frame.1.spec_byte_len() + total_bytes(one.drop_first()));
    assert(frames.push(frame) =~= frames + one);
    lemma_total_bytes_concat(frames, one);
}

proof fn lemma_total_bytes_remove(frames: Frames, index: int)
    requires
        0 <= index < frames.len(),
    ensures
        total_bytes(frames) == total_bytes(frames.remove(index))
            + frames[index].1.spec_byte_len(),
{
    let front = frames.take(index);
    let back = frames.skip(index + 1);
    let upto = front.push(frames[index]);
    assert(frames =~= upto + back);
    assert(frames.remove(index) =~= front + back);
    lemma_total_bytes_concat(upto, back);
    lemma_total_bytes_concat(front, back);
    lemma_total_bytes_push(front, frames[index]);
}

/// Taking the frame under a key out leaves no frame under it, and the others
/// as they were.
pub proof fn lemma_without_key(frames: Frames, key: FrameKey)
    requires
        unique_keys(frames),
    ensures
        !has_key(without_key(frames, key), key),
        unique_keys(without_key(frames, key)),
{
    if has_key(frames, key) {
        let at = index_of_key(frames, key);
        assert(frames[at].0 == key);
        let rest = frames.remove(at);
        assert forall|i: int| 0 <= i < rest.len() implies (#[trigger] rest[i]).0 != key by {
            if i < at {
                assert(rest[i] == frames[i]);
            } else {
                assert(rest[i] == frames[i + 1]);
            }
        }
    }
}

/// What is kept of an eviction is a suffix in the order of use: a frame is
/// never given up before one that was used less recently. No more is given up
/// than the budget asks for.
pub proof fn lemma_evict_to_suffix(frames: Frames, room: int)
    requires
        0 <= room,
    ensures
        evict_to(frames, room).len() <= frames.len(),
        evict_to(frames, room) == frames.skip(frames.len() - evict_to(frames, room).len()),
        total_bytes(evict_to(frames, room)) <= room,
        evict_to(frames, room).len() < frames.len() ==> total_bytes(
            frames.skip(frames.len() - evict_to(frames, room).len() - 1),
        ) > room,
    decreases frames.len(),
{
    if frames.len() == 0 || total_bytes(frames) <= room {
        assert(frames.skip(0) =~= frames);
    } else {
        let rest = frames.drop_first();
        lemma_evict_to_suffix(rest, room);
        let kept = evict_to(rest, room);
        assert(rest.skip(rest.len() - kept.len()) =~= frames.skip(frames.len() - kept.len()));
        if kept.len() < rest.len() {
            assert(rest.skip(rest.len() - kept.len() - 1) =~= frames.skip(
                frames.len() - kept.len() - 1,
            ));
        } else {
            assert(frames.skip(0) =~= frames);
        }
    }
}

/// With unique keys, the frame that stands under a key is the one looked up.
pub proof fn lemma_lookup_at(frames: Frames, i: int)
    requires
        unique_keys(frames),
        0 <= i < frames.len(),
    ensures
        has_key(frames, frames[i].0),
        index_of_key(frames, frames[i].0) == i,
        lookup(frames, frames[i].0) == Some(frames[i].1),
{
    let at = index_of_key(frames, frames[i].0);
    assert(frames[i].0 == frames[i].0);
    assert(0 <= at < frames.len() && frames[at].0 == frames[i].0);
    if at < i {
        assert(frames[at].0 != frames[i].0);
    } else if i < at {
        assert(frames[i].0 != frames[at].0);
    }
}

/// A removed frame is gone, and every other frame is still found.
pub proof fn law_remove_takes_one_frame(frames: Frames, key: FrameKey, other: FrameKey)
    requires
        unique_keys(frames),
    ensures
        lookup(without_key(frames, key), key) is None,
        other != key ==> lookup(without_key(frames, key), other) == lookup(frames, other),
        total_bytes(frames) == total_bytes(without_key(frames, key)) + (match lookup(frames, key) {
            Some(value) => value.spec_byte_len(),
            None => 0,
        }),
{
    lemma_without_key(frames, key);
    if has_key(frames, key) {
        let at = index_of_key(frames, key);
        let rest = frames.remove(at);
        lemma_total_bytes_remove(frames, at);
        if other != key {
            if has_key(frames, other) {
                let o = index_of_key(frames, other);
                assert(frames[o].0 == other && frames[at].0 == key);
                let r = if o < at { o } else { o - 1 };
                assert(rest[r] == frames[o]);
                lemma_lookup_at(rest, r);
            } else if has_key(rest, other) {
                let r = index_of_key(rest, other);
                assert(rest[r].0 == other);
                let o = if r < at { r } else { r + 1 };
                assert(frames[o] == rest[r]);
            }
        }
    }
}

proof fn lemma_push_lookup(frames: Frames, key: FrameKey, value: FrameValue, other: FrameKey)
    requires
        unique_keys(frames),
        !has_key(frames, key),
    ensures
        unique_keys(frames.push((key, value))),
        lookup(frames.push((key, value)), other) == (if other == key {
            Some(value)
        } else {
            lookup(frames, other)
        }),
{
    let pushed = frames.push((key, value));
    assert forall|i: int, j: int| 0 <= i < j < pushed.len() implies (#[trigger] pushed[i]).0 != (
    #[trigger] pushed[j]).0 by {
        assert(pushed[i] == frames[i]);
        if j < frames.len() {
            assert(pushed[j] == frames[j]);
        }
    }
    if other == key {
        assert(pushed[frames.len() as int] == (key, value));
        lemma_lookup_at(pushed, frames.len() as int);
    } else if has_key(frames, other) {
        let o = index_of_key(frames, other);
        assert(pushed[o] == frames[o]);
        lemma_lookup_at(pushed, o);
    } else if has_key(pushed, other) {
        let o = index_of_key(pushed, other);
        assert(pushed[o].0 == other);
        assert(o < frames.len());
        assert(frames[o] == pushed[o]);
    }
}

/// Looking a frame up changes the order of use and nothing else.
pub proof fn law_lookup_changes_only_the_order(frames: Frames, key: FrameKey, other: FrameKey)
    requires
        unique_keys(frames),
    ensures
        unique_keys(touched(frames, key)),
        lookup(touched(frames, key), other) == lookup(frames, other),
        total_bytes(touched(frames, key)) == total_bytes(frames),
        touched(frames, key).len() == frames.len(),
        has_key(frames, key) ==> touched(frames, key).last().0 == key,
{
    if has_key(frames, key) {
        let value = frames[index_of_key(frames, key)].1;
        law_remove_takes_one_frame(frames, key, other);
        lemma_without_key(frames, key);
        lemma_push_lookup(without_key(frames, key), key, value, other);
        lemma_total_bytes_push(without_key(frames, key), (key, value));
    }
}

proof fn lemma_suffix_lookup(frames: Frames, n: int, other: FrameKey)
    requires
        unique_keys(frames),
        0 <= n <= frames.len(),
    ensures
        unique_keys(frames.skip(n)),
        lookup(frames.skip(n), other) is Some ==> lookup(frames.skip(n), other) == lookup(
            frames,
            other,
        ),
{
    let kept = frames.skip(n);
    assert forall|i: int, j: int| 0 <= i < j < kept.len() implies (#[trigger] kept[i]).0 != (
    #[trigger] kept[j]).0 by {
        assert(kept[i] == frames[n + i] && kept[j] == frames[n + j]);
    }
    if has_key(kept, other) {
        let k = index_of_key(kept, other);
        assert(kept[k].0 == other);
        assert(kept[k] == frames[n + k]);
        lemma_lookup_at(frames, n + k);
    }
}

/// A frame that fits is found right after it was stored, no matter what was
/// retained before; the store keeps to the budget, and adds nothing else.
pub proof fn law_stored_frame_is_found(
    frames: Frames,
    key: FrameKey,
    value: FrameValue,
    capacity: int,
    other: FrameKey,
)
    requires
        unique_keys(frames),
        value.spec_byte_len() <= capacity,
    ensures
        lookup(stored(frames, key, value, capacity), key) == Some(value),
        unique_keys(stored(frames, key, value, capacity)),
        total_bytes(stored(frames, key, value, capacity)) <= capacity,
        other != key && lookup(stored(frames, key, value, capacity), other) is Some ==> lookup(
            stored(frames, key, value, capacity),
            other,
        ) == lookup(frames, other),
{
    let rest = without_key(frames, key);
    let room = capacity - value.spec_byte_len();
    let kept = evict_to(rest, room);
    lemma_without_key(frames, key);
    lemma_evict_to_suffix(rest, room);
    lemma_suffix_lookup(rest, rest.len() - kept.len(), key);
    lemma_suffix_lookup(rest, rest.len() - kept.len(), other);
    lemma_push_lookup(kept, key, value, key);
    lemma_push_lookup(kept, key, value, other);
    lemma_total_bytes_push(kept, (key, value));
    law_remove_takes_one_frame(frames, key, other);
}

/// A store that leaves room for every other frame gives none up.
pub proof fn law_store_with_room_evicts_nothing(
    frames: Frames,
    key: FrameKey,
    value: FrameValue,
    capacity: int,
    other: FrameKey,
)
    requires
        unique_keys(frames),
        total_bytes(without_key(frames, key)) + value.spec_byte_len() <= capacity,
        other != key,
    ensures
        evicted_by_store(frames, key, value, capacity) == 0,
        lookup(stored(frames, key, value, capacity), other) == lookup(frames, other),
{
    lemma_without_key(frames, key);
    lemma_push_lookup(without_key(frames, key), key, value, other);
    law_remove_takes_one_frame(frames, key, other);
}

/// The most recently used frame outlives a store of another key whenever both
/// fit into the budget together.
pub proof fn law_most_recent_frame_survives_a_store(
    frames: Frames,
    key: FrameKey,
    value: FrameValue,
    capacity: int,
)
    requires
        unique_keys(frames),
        frames.len() > 0,
        frames.last().0 != key,
        frames.last().1.spec_byte_len() + value.spec_byte_len() <= capacity,
    ensures
        lookup(stored(frames, key, value, capacity), frames.last().0) == Some(frames.last().1),
{
    let rest = without_key(frames, key);
    let room = capacity - value.spec_byte_len();
    let kept = evict_to(rest, room);
    lemma_without_key(frames, key);
    lemma_evict_to_suffix(rest, room);
    assert(rest.last() == frames.last());
    if kept.len() == 0 {
        let tail = rest.skip(rest.len() - 1);
        assert(tail =~= Seq::<(FrameKey, FrameValue)>::empty().push(rest.last()));
        lemma_total_bytes_push(Seq::empty(), rest.last());
        assert(false);
    }
    assert(kept.last() == rest.last());
    lemma_suffix_lookup(rest, rest.len() - kept.len(), key);
    lemma_lookup_at(kept, kept.len() - 1);
    lemma_push_lookup(kept, key, value, frames.last().0);
}

/// The order of use after a lookup: the frame that was hit comes last, and with it taken out the
/// others stand exactly as they stood before. A miss leaves everything where it is.
pub proof fn law_lookup_moves_one_frame(frames: Frames, key: FrameKey, at: int)
    requires
        forall|i: int, j: int|
            0 <= i < j < frames.len() ==> (#[trigger] frames[i]).0 != (#[trigger] frames[j]).0,
    ensures
        0 <= at < frames.len() && frames[at].0 == key ==> {
            &&& touched(frames, key).len() == frames.len()
            &&& touched(frames, key).last() == frames[at]
            &&& touched(frames, key).drop_last() == frames.remove(at)
            &&& lookup(frames, key) == Some(frames[at].1)
            &&& has_key(frames, key)
        },
        (forall|i: int| 0 <= i < frames.len() ==> (#[trigger] frames[i]).0 != key) ==> {
            &&& touched(frames, key) == frames
            &&& lookup(frames, key) is None
            &&& !has_key(frames, key)
        },
{
    if 0 <= at < frames.len() && frames[at].0 == key {
        lemma_lookup_at(frames, at);
        assert(touched(frames, key).drop_last() =~= frames.remove(at));
    }
}

/// A lookup leaves any two other frames in the order in which they stood.
pub proof fn law_lookup_keeps_the_order_of_others(
    frames: Frames,
    key: FrameKey,
    i: int,
    j: int,
) -> (places: (int, int))
    requires
        unique_keys(frames),
        0 <= i < j < frames.len(),
        frames[i].0 != key,
        frames[j].0 != key,
    ensures
        0 <= places.0 < places.1 < touched(frames, key).len(),
        touched(frames, key)[places.0] == frames[i],
        touched(frames, key)[places.1] == frames[j],
{
    if has_key(frames, key) {
        let at = index_of_key(frames, key);
        assert(frames[at].0 == key);
        law_lookup_moves_one_frame(frames, key, at);
        let after = touched(frames, key);
        let p = if i < at { i } else { i - 1 };
        let q = if j < at { j } else { j - 1 };
        assert(after.drop_last()[p] == frames[i]);
        assert(after.drop_last()[q] == frames[j]);
        (p, q)
    } else {
        (i, j)
    }
}

/// Removing a frame takes exactly that one out and leaves the others in their order.
pub proof fn law_remove_keeps_the_order(frames: Frames, key: FrameKey, at: int)
    requires
        unique_keys(frames),
    ensures
        0 <= at < frames.len() && frames[at].0 == key ==> without_key(frames, key)
            == frames.remove(at),
        (forall|i: int| 0 <= i < frames.len() ==> (#[trigger] frames[i]).0 != key)
            ==> without_key(frames, key) == frames,
{
    if 0 <= at < frames.len() && frames[at].0 == key {
        lemma_lookup_at(frames, at);
    }
}

/// What frames hold together is what each of them holds, added up.
pub proof fn law_bytes_add_up(frames: Frames, key: FrameKey, value: FrameValue, at: int)
    ensures
        total_bytes(Seq::empty()) == 0,
        total_bytes(frames.push((key, value))) == total_bytes(frames) + value.rgba@.len(),
        0 <= at < frames.len() ==> total_bytes(frames) == total_bytes(frames.remove(at))
            + frames[at].1.rgba@.len(),
{
    lemma_total_bytes_push(frames, (key, value));
    if 0 <= at < frames.len() {
        lemma_total_bytes_remove(frames, at);
    }
}

/// A store gives up the least recently used frames first, and no more of them than the budget asks
/// for. `others` are the frames under other keys in their order; `given_up` says how many of the
/// oldest of them went.
pub proof fn law_store_gives_up_the_oldest(
    frames: Frames,
    key: FrameKey,
    value: FrameValue,
    capacity: int,
    at: int,
) -> (given_up: int)
    requires
        unique_keys(frames),
        value.rgba@.len() <= capacity,
        0 <= at <= frames.len(),
        at < frames.len() ==> frames[at].0 == key,
        at == frames.len() ==> forall|i: int|
            0 <= i < frames.len() ==> (#[trigger] frames[i]).0 != key,
    ensures
        ({
            let others = if at < frames.len() {
                frames.remove(at)
            } else {
                frames
            };
            &&& 0 <= given_up <= others.len()
            &&& evicted_by_store(frames, key, value, capacity) == given_up
            &&& stored(frames, key, value, capacity) == others.skip(given_up).push((key, value))
            &&& total_bytes(others.skip(given_up)) + value.rgba@.len() <= capacity
            &&& given_up > 0 ==> total_bytes(others.skip(given_up - 1)) + value.rgba@.len()
                > capacity
        }),
{
    let others = if at < frames.len() {
        frames.remove(at)
    } else {
        frames
    };
    if at < frames.len() {
        lemma_lookup_at(frames, at);
    }
    assert(without_key(frames, key) == others);
    let room = capacity - value.spec_byte_len();
    lemma_evict_to_suffix(others, room);
    others.len() - evict_to(others, room).len()
}

/// Evictions are counted one for one as long as the counter has room, and stick there.
pub proof fn law_evictions_are_counted(before: int, given_up: int)
    requires
        0 <= before <= u64::MAX,
        0 <= given_up,
    ensures
        before + given_up <= u64::MAX ==> saturated_count(before + given_up) == before + given_up,
        before + given_up > u64::MAX ==> saturated_count(before + given_up) == u64::MAX,
{
}

/// A lookup in the cache: the frame under the key is found and is now the most recently used, the others
/// keep their order, and nothing is given up. Without such a frame nothing changes.
pub proof fn law_get_finds_and_refreshes(
    cache: &mut FrameCache,
    key: &FrameKey,
    found: Option<&FrameValue>,
    at: int,
)
    requires
        call_ensures(FrameCache::get, (cache, key), found),
        unique_keys(old(cache)@),
    ensures
        final(cache).evictions() == old(cache).evictions(),
        final(cache).capacity() == old(cache).capacity(),
        0 <= at < old(cache)@.len() && old(cache)@[at].0 == *key ==> {
            &&& found matches Some(value) && *value == old(cache)@[at].1
            &&& final(cache)@.last() == old(cache)@[at]
            &&& final(cache)@.drop_last() == old(cache)@.remove(at)
        },
        (forall|i: int| 0 <= i < old(cache)@.len() ==> (#[trigger] old(cache)@[i]).0 != *key) ==> {
            &&& found is None
            &&& final(cache)@ == old(cache)@
        },
{
    law_lookup_moves_one_frame(old(cache)@, *key, at);
}

/// A store in the cache: a frame larger than the budget is refused and changes nothing; any other is
/// kept as the most recently used, in place of one under its key, and of the others the least recently
/// used go first, no more than the budget asks for, each counted.
pub proof fn law_insert_keeps_the_most_recent(
    cache: &mut FrameCache,
    key: FrameKey,
    value: FrameValue,
    fits: bool,
    at: int,
) -> (given_up: int)
    requires
        call_ensures(FrameCache::insert, (cache, key, value), fits),
        unique_keys(old(cache)@),
        old(cache).evictions() + old(cache)@.len() <= u64::MAX,
        0 <= at <= old(cache)@.len(),
        at < old(cache)@.len() ==> old(cache)@[at].0 == key,
        at == old(cache)@.len() ==> forall|i: int|
            0 <= i < old(cache)@.len() ==> (#[trigger] old(cache)@[i]).0 != key,
    ensures
        fits <==> value.rgba@.len() <= old(cache).capacity(),
        final(cache).capacity() == old(cache).capacity(),
        !fits ==> final(cache)@ == old(cache)@ && final(cache).evictions() == old(cache).evictions(),
        fits ==> {
            let others = if at < old(cache)@.len() {
                old(cache)@.remove(at)
            } else {
                old(cache)@
            };
            &&& 0 <= given_up <= others.len()
            &&& final(cache)@ == others.skip(given_up).push((key, value))
            &&& total_bytes(others.skip(given_up)) + value.rgba@.len() <= old(cache).capacity()
            &&& given_up > 0 ==> total_bytes(others.skip(given_up - 1)) + value.rgba@.len() > old(cache).capacity()
            &&& final(cache).evictions() == old(cache).evictions() + given_up
        },
{
    if value.rgba@.len() <= old(cache).capacity() {
        law_store_gives_up_the_oldest(
            old(cache)@,
            key,
            value,
            old(cache).capacity() as int,
            at,
        )
    } else {
        0
    }
}

/// A removal takes exactly the frame under its key out and hands it over; the others keep their order.
pub proof fn law_remove_hands_the_frame_over(
    cache: &mut FrameCache,
    key: &FrameKey,
    removed: Option<FrameValue>,
    at: int,
)
    requires
        call_ensures(FrameCache::remove, (cache, key), removed),
        unique_keys(old(cache)@),
    ensures
        final(cache).evictions() == old(cache).evictions(),
        0 <= at < old(cache)@.len() && old(cache)@[at].0 == *key ==> removed == Some(
            old(cache)@[at].1,
        ) && final(cache)@ == old(cache)@.remove(at),
        (forall|i: int| 0 <= i < old(cache)@.len() ==> (#[trigger] old(cache)@[i]).0 != *key)
            ==> removed is None && final(cache)@ == old(cache)@,
{
    law_remove_keeps_the_order(old(cache)@, *key, at);
    law_lookup_moves_one_frame(old(cache)@, *key, at);
}

/// What was stored is what is found next.
pub proof fn law_stored_frames_are_found_again(
    storing: &mut FrameCache,
    key: FrameKey,
    value: FrameValue,
    fits: bool,
    reading: &mut FrameCache,
    found: Option<&FrameValue>,
)
    requires
        call_ensures(FrameCache::insert, (storing, key, value), fits),
        call_ensures(FrameCache::get, (reading, &key), found),
        *final(storing) == *old(reading),
        unique_keys(old(storing)@),
        value.rgba@.len() <= old(storing).capacity(),
    ensures
        found matches Some(kept) && *kept == value,
        final(reading)@ == old(reading)@,
{
    law_stored_frame_is_found(old(storing)@, key, value, old(storing).capacity() as int, key);
    let frames = stored(old(storing)@, key, value, old(storing).capacity() as int);
    let last = frames.len() - 1;
    law_lookup_moves_one_frame(frames, key, last);
    let after = touched(frames, key);
    assert(frames.remove(last) =~= frames.drop_last());
    assert(after =~= after.drop_last().push(after.last()));
    assert(frames =~= frames.drop_last().push(frames.last()));
}

/// What a cache says of itself is what it holds.
pub proof fn law_cache_reports_what_it_holds(
    cache: &FrameCache,
    used: usize,
    count: usize,
    empty: bool,
    capacity: usize,
    evictions: u64,
)
    requires
        call_ensures(FrameCache::used_bytes, (cache,), used),
        call_ensures(FrameCache::len, (cache,), count),
        call_ensures(FrameCache::is_empty, (cache,), empty),
        call_ensures(FrameCache::capacity_bytes, (cache,), capacity),
        call_ensures(FrameCache::eviction_count, (cache,), evictions),
    ensures
        used == total_bytes(cache@),
        count == cache@.len(),
        empty <==> cache@.len() == 0,
        capacity == cache.capacity(),
        used <= capacity,
        evictions == cache.evictions(),
{
}

/// A cleared cache holds nothing and has the budget it had.
pub proof fn law_cleared_frame_cache_is_empty(cache: &mut FrameCache)
    requires
        call_ensures(FrameCache::clear, (cache,), ()),
    ensures
        final(cache)@.len() == 0,
        final(cache).capacity() == old(cache).capacity(),
        final(cache).evictions() == old(cache).evictions(),
{
}

} // verus!

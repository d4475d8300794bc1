//! Source-time index over the frames that a scrub has traversed.
use crate::decode::request::{stream_of_key, FrameStreamKey};
use crate::frame_cache::FrameKey;
use vstd::prelude::*;

verus! {

/// The most frames that the index remembers.
pub const MAX_SCRUB_CACHE_INDEX_ENTRIES: usize = 1_024;

/// Whether `key` is an indexed frame of `stream` between two ticks, both counted in.
pub open spec fn in_span(
    keys: Set<FrameKey>,
    key: FrameKey,
    stream: FrameStreamKey,
    lower: int,
    upper: int,
) -> bool {
    keys.contains(key) && stream_of_key(key) == stream && lower <= key.source_tick <= upper
}

/// The earliest indexed frame of `stream` between two ticks.
pub open spec fn earliest_in_span(
    keys: Set<FrameKey>,
    stream: FrameStreamKey,
    lower: int,
    upper: int,
) -> Option<FrameKey> {
    if exists|key: FrameKey| in_span(keys, key, stream, lower, upper) {
        Some(choose|key: FrameKey| is_earliest(keys, key, stream, lower, upper))
    } else {
        None
    }
}

/// Whether `key` is in the span and no other frame of the span is before it.
pub open spec fn is_earliest(
    keys: Set<FrameKey>,
    key: FrameKey,
    stream: FrameStreamKey,
    lower: int,
    upper: int,
) -> bool {
    &&& in_span(keys, key, stream, lower, upper)
    &&& forall|other: FrameKey| #[trigger]
        in_span(keys, other, stream, lower, upper) ==> key.source_tick <= other.source_tick
}

/// `order` cut at the front until no more than the bound is left, and `keys` without the
/// frames that were cut off.
pub open spec fn trimmed(keys: Set<FrameKey>, order: Seq<FrameKey>) -> (Set<FrameKey>, Seq<FrameKey>)
    decreases order.len(),
{
    if order.len() <= MAX_SCRUB_CACHE_INDEX_ENTRIES {
        (keys, order)
    } else {
        trimmed(keys.remove(order[0]), order.drop_first())
    }
}

/// The indexed frames, with the order in which they were indexed. A frame that was dropped
/// from the index on its own stays in the order until it reaches the front.
pub struct ScrubIndex {
    keys: Vec<FrameKey>,
    order: Vec<FrameKey>,
}

impl ScrubIndex {
    /// The indexed frames.
    pub closed spec fn keys(&self) -> Set<FrameKey> {
        self.keys@.to_set()
    }

    /// The frames in the order in which they were indexed, oldest first.
    pub closed spec fn order(&self) -> Seq<FrameKey> {
        self.order@
    }

    /// Each frame is held once and stands in the order, which keeps to the bound.
    pub closed spec fn wf(&self) -> bool {
        &&& self.keys@.no_duplicates()
        &&& self.order@.len() <= MAX_SCRUB_CACHE_INDEX_ENTRIES
        &&& forall|key: FrameKey| #[trigger]
            self.keys().contains(key) ==> self.order@.contains(key)
    }

    /// A well-formed index remembers a bounded number of frames.
    pub proof fn law_bounded(&self)
        requires
            self.wf(),
        ensures
            self.keys().finite(),
            self.keys().len() <= MAX_SCRUB_CACHE_INDEX_ENTRIES,
            self.order().len() <= MAX_SCRUB_CACHE_INDEX_ENTRIES,
            self.keys().subset_of(self.order().to_set()),
    {
        broadcast use vstd::seq_lib::group_seq_properties;
        self.keys@.unique_seq_to_set();
        let ordered = self.order@.to_set();
        assert(self.keys().subset_of(ordered));
        self.order@.lemma_cardinality_of_set();
        vstd::set_lib::lemma_len_subset(self.keys(), ordered);
    }

    pub fn new() -> (index: Self)
        ensures
            index.wf(),
            index.keys() == Set::<FrameKey>::empty(),
            index.order() == Seq::<FrameKey>::empty(),
    {
        let index = ScrubIndex { keys: Vec::new(), order: Vec::new() };
        assert(index.keys() =~= Set::empty());
        assert(index.order() =~= Seq::empty());
        index
    }

    pub fn clear(&mut self)
        ensures
            final(self).wf(),
            final(self).keys() == Set::<FrameKey>::empty(),
            final(self).order() == Seq::<FrameKey>::empty(),
    {
        self.keys.clear();
        self.order.clear();
        assert(self.keys() =~= Set::empty());
        assert(self.order() =~= Seq::empty());
    }

    pub fn len(&self) -> (count: usize)
        requires
            self.wf(),
        ensures
            count == self.keys().len(),
            count <= MAX_SCRUB_CACHE_INDEX_ENTRIES,
    {
        proof {
            self.law_bounded();
            self.keys@.unique_seq_to_set();
        }
        self.keys.len()
    }

    #[verifier::loop_isolation(false)]
    fn position(&self, key: FrameKey) -> (found: Option<usize>)
        requires
            self.wf(),
        ensures
            found is Some == self.keys().contains(key),
            found matches Some(i) ==> i < self.keys@.len() && self.keys@[i as int] == key,
    {
        let mut i: usize = 0;
        while i < self.keys.len()
            invariant
                i <= self.keys@.len(),
                forall|j: int| 0 <= j < i ==> self.keys@[j] != key,
            decreases self.keys@.len() - i,
        {
            if self.keys[i] == key {
                assert(self.keys@.contains(key));
                return Some(i);
            }
            i += 1;
        }
        None
    }

    pub fn contains(&self, key: FrameKey) -> (found: bool)
        requires
            self.wf(),
        ensures
            found == self.keys().contains(key),
    {
        self.position(key).is_some()
    }

    /// The earliest indexed frame of `stream` from `lower` up to `upper`.
    #[verifier::loop_isolation(false)]
    pub fn first_in_span(&self, stream: FrameStreamKey, lower: i64, upper: i64) -> (found: Option<
        FrameKey,
    >)
        requires
            self.wf(),
        ensures
            found == earliest_in_span(self.keys(), stream, lower as int, upper as int),
            found matches Some(key) ==> is_earliest(
                self.keys(),
                key,
                stream,
                lower as int,
                upper as int,
            ),
    {
        let mut found: Option<FrameKey> = None;
        let mut i: usize = 0;
        while i < self.keys.len()
            invariant
                i <= self.keys@.len(),
                found matches Some(key) ==> in_span(
                    self.keys(),
                    key,
                    stream,
                    lower as int,
                    upper as int,
                ),
                forall|j: int|
                    0 <= j < i && stream_of_key(#[trigger] self.keys@[j]) == stream && lower
                        <= self.keys@[j].source_tick <= upper ==> (found matches Some(key)
                        && key.source_tick <= self.keys@[j].source_tick),
            decreases self.keys@.len() - i,
        {
            let key = self.keys[i];
            assert(self.keys@.contains(key));
            if FrameStreamKey::from(key) == stream && lower <= key.source_tick && key.source_tick
                <= upper {
                let earlier = match found {
                    Some(other) => key.source_tick < other.source_tick,
                    None => true,
                };
                if earlier {
                    found = Some(key);
                }
            }
            i += 1;
        }
        proof {
            let (lo, hi) = (lower as int, upper as int);
            assert forall|other: FrameKey| #[trigger]
                in_span(self.keys(), other, stream, lo, hi) implies (found matches Some(key)
                && key.source_tick <= other.source_tick) by {
                let j = choose|j: int| 0 <= j < self.keys@.len() && self.keys@[j] == other;
                assert(self.keys@[j] == other);
            }
            if let Some(key) = found {
                assert(is_earliest(self.keys(), key, stream, lo, hi));
                let chosen = choose|k: FrameKey| is_earliest(self.keys(), k, stream, lo, hi);
                assert(is_earliest(self.keys(), chosen, stream, lo, hi));
                assert(in_span(self.keys(), key, stream, lo, hi));
                assert(in_span(self.keys(), chosen, stream, lo, hi));
                assert(key.source_tick == chosen.source_tick);
                assert(key == chosen);
            }
        }
        found
    }

    /// Forgets one frame.
    pub fn remove(&mut self, key: FrameKey)
        requires
            old(self).wf(),
        ensures
            final(self).wf(),
            final(self).keys() == old(self).keys().remove(key),
            final(self).order() == old(self).order(),
    {
        match self.position(key) {
            Some(i) => {
                let ghost before = self.keys@;
                self.keys.remove(i);
                proof {
                    lemma_remove_from_set(before, i as int);
                }
            },
            None => {
                assert(self.keys().remove(key) =~= self.keys());
            },
        }
    }

    /// Remembers one frame, and forgets the oldest ones beyond the bound.
    pub fn push(&mut self, key: FrameKey)
        requires
            old(self).wf(),
        ensures
            final(self).wf(),
            (final(self).keys(), final(self).order()) == trimmed(
                old(self).keys().insert(key),
                old(self).order().push(key),
            ),
    {
        let ghost keys = self.keys@;
        let known: bool = self.contains(key);
        if !known {
            assert(forall|i: int| 0 <= i < keys.len() ==> keys[i] != key) by {
                if exists|i: int| 0 <= i < keys.len() && keys[i] == key {
                    assert(keys.contains(key));
                }
            }
            self.keys.push(key);
            assert(self.keys() =~= keys.to_set().insert(key)) by {
                assert forall|k: FrameKey| self.keys().contains(k) <==> keys.to_set().insert(
                    key,
                ).contains(k) by {
                    lemma_push_contains(keys, key, k);
                }
            }
        } else {
            assert(self.keys() =~= keys.to_set().insert(key));
        }
        let ghost order = self.order@;
        self.order.push(key);
        assert forall|k: FrameKey| #[trigger] self.keys().contains(k) implies self.order@.contains(
            k,
        ) by {
            lemma_push_contains(order, key, k);
        }
        if self.order.len() > MAX_SCRUB_CACHE_INDEX_ENTRIES {
            let ghost long = self.order@;
            let ghost indexed = self.keys();
            let oldest = self.order.remove(0);
            assert(self.order@ =~= long.drop_first());
            proof {
                reveal_with_fuel(trimmed, 2);
            }
            // The index may now hold a frame that is no longer in the order: the oldest one.
            let ghost keys_before = self.keys@;
            let mut i: usize = 0;
            let mut at: Option<usize> = None;
            while i < self.keys.len() && at.is_none()
                invariant
                    i <= self.keys@.len(),
                    at is None ==> forall|j: int| 0 <= j < i ==> self.keys@[j] != oldest,
                    at matches Some(p) ==> p < self.keys@.len() && self.keys@[p as int] == oldest,
                decreases self.keys@.len() - i, if at is None { 1int } else { 0 },
            {
                if self.keys[i] == oldest {
                    at = Some(i);
                } else {
                    i += 1;
                }
            }
            if let Some(p) = at {
                self.keys.remove(p);
                proof {
                    lemma_remove_from_set(keys_before, p as int);
                }
            }
            assert(self.keys() =~= indexed.remove(oldest));
            assert forall|k: FrameKey| #[trigger]
                self.keys().contains(k) implies self.order@.contains(k) by {
                let q = choose|q: int| 0 <= q < long.len() && long[q] == k;
                assert(q != 0);
                assert(self.order@[q - 1] == k);
            }
        }
    }
}

proof fn lemma_push_contains(keys: Seq<FrameKey>, key: FrameKey, other: FrameKey)
    ensures
        keys.push(key).contains(other) == (keys.contains(other) || other == key),
{
    let pushed = keys.push(key);
    if keys.contains(other) {
        let i = choose|i: int| 0 <= i < keys.len() && keys[i] == other;
        assert(pushed[i] == other);
    }
    if other == key {
        assert(pushed[keys.len() as int] == key);
    }
    if pushed.contains(other) {
        let i = choose|i: int| 0 <= i < pushed.len() && pushed[i] == other;
        if i < keys.len() {
            assert(keys[i] == other);
        }
    }
}

proof fn lemma_remove_from_set(keys: Seq<FrameKey>, at: int)
    requires
        keys.no_duplicates(),
        0 <= at < keys.len(),
    ensures
        keys.remove(at).no_duplicates(),
        keys.remove(at).to_set() == keys.to_set().remove(keys[at]),
{
    let rest = keys.remove(at);
    assert forall|k: FrameKey| rest.to_set().contains(k) <==> keys.to_set().remove(
        keys[at],
    ).contains(k) by {
        if rest.contains(k) {
            let i = choose|i: int| 0 <= i < rest.len() && rest[i] == k;
            let p = if i < at { i } else { i + 1 };
            assert(keys[p] == k);
        }
        if keys.contains(k) && k != keys[at] {
            let p = choose|p: int| 0 <= p < keys.len() && keys[p] == k;
            let i = if p < at { p } else { p - 1 };
            assert(rest[i] == k);
        }
    }
    assert(rest.to_set() =~= keys.to_set().remove(keys[at]));
}

/// The earliest frame of a span is an indexed frame of the stream in it, and none of them is before
/// it; there is none exactly where no indexed frame of the stream lies in the span.
pub proof fn law_earliest_is_found(
    keys: Set<FrameKey>,
    stream: FrameStreamKey,
    lower: int,
    upper: int,
    other: FrameKey,
)
    ensures
        ({
            let in_it = keys.contains(other) && other.project_epoch == stream.project_epoch
                && other.media_id == stream.media_id && other.width == stream.width
                && other.height == stream.height && lower <= other.source_tick <= upper;
            let found = earliest_in_span(keys, stream, lower, upper);
            &&& in_it ==> (found matches Some(key) && key.source_tick <= other.source_tick)
            &&& found matches Some(key) ==> {
                &&& keys.contains(key)
                &&& key.project_epoch == stream.project_epoch
                &&& key.media_id == stream.media_id
                &&& key.width == stream.width
                &&& key.height == stream.height
                &&& lower <= key.source_tick <= upper
            }
        }),
{
    if keys.contains(other) && other.project_epoch == stream.project_epoch && other.media_id
        == stream.media_id && other.width == stream.width && other.height == stream.height && lower
        <= other.source_tick <= upper {
        assert(in_span(keys, other, stream, lower, upper));
    }
    if exists|key: FrameKey| in_span(keys, key, stream, lower, upper) {
        let witness = choose|key: FrameKey| in_span(keys, key, stream, lower, upper);
        lemma_an_earliest(keys, stream, lower, upper, witness);
    }
}

proof fn lemma_an_earliest(
    keys: Set<FrameKey>,
    stream: FrameStreamKey,
    lower: int,
    upper: int,
    witness: FrameKey,
)
    requires
        in_span(keys, witness, stream, lower, upper),
    ensures
        exists|key: FrameKey| is_earliest(keys, key, stream, lower, upper),
    decreases witness.source_tick - lower,
{
    if exists|other: FrameKey|
        #[trigger] in_span(keys, other, stream, lower, upper) && other.source_tick
            < witness.source_tick {
        let other = choose|other: FrameKey|
            #[trigger] in_span(keys, other, stream, lower, upper) && other.source_tick
                < witness.source_tick;
        lemma_an_earliest(keys, stream, lower, upper, other);
    } else {
        assert(is_earliest(keys, witness, stream, lower, upper));
    }
}

/// An index that is over its bound forgets the oldest entries, one for each that is too many, and
/// no frame but those.
pub proof fn law_index_forgets_the_oldest(
    keys: Set<FrameKey>,
    order: Seq<FrameKey>,
    key: FrameKey,
)
    ensures
        order.len() <= 1_024 ==> trimmed(keys, order) == (keys, order),
        order.len() > 1_024 ==> trimmed(keys, order).1 == order.skip(order.len() - 1_024),
        order.len() > 1_024 ==> (trimmed(keys, order).0.contains(key) <==> keys.contains(key)
            && !order.take(order.len() - 1_024).contains(key)),
    decreases order.len(),
{
    if order.len() > 1_024 {
        let rest = order.drop_first();
        let over = order.len() - 1_024;
        law_index_forgets_the_oldest(keys.remove(order[0]), rest, key);
        let gone = order.take(over);
        if rest.len() > 1_024 {
            assert(rest.skip(rest.len() - 1_024) =~= order.skip(over));
            let later = rest.take(rest.len() - 1_024);
            if gone.contains(key) {
                let i = choose|i: int| 0 <= i < gone.len() && gone[i] == key;
                if i > 0 {
                    assert(later[i - 1] == key);
                }
            }
            if later.contains(key) {
                let i = choose|i: int| 0 <= i < later.len() && later[i] == key;
                assert(gone[i + 1] == key);
            }
            assert(gone[0] == order[0]);
        } else {
            assert(rest =~= order.skip(over));
            assert(gone.len() == 1);
            assert(gone[0] == order[0]);
        }
    }
}

} // verus!

//! Aggregates of completed CPU timing samples.
use crate::arith::{larger, max_u64, nearest_u64};
use vstd::prelude::*;

verus! {

/// A fixed aggregate of completed CPU timing samples for one decoder-worker stage.
/// Durations use monotonic wall-clock time around the named CPU call boundary; they do not
/// represent GPU completion or display presentation.
#[derive(Clone, Copy, Debug, PartialEq, Eq, Structural)]
pub struct MonitorStageTiming {
    pub samples: u64,
    pub total_nanos: u64,
    pub max_nanos: u64,
}

impl Default for MonitorStageTiming {
    fn default() -> (empty: Self)
        ensures
            empty == MonitorStageTiming::none(),
    {
        MonitorStageTiming { samples: 0, total_nanos: 0, max_nanos: 0 }
    }
}

impl MonitorStageTiming {
    /// No sample at all.
    pub open spec fn none() -> Self {
        MonitorStageTiming { samples: 0, total_nanos: 0, max_nanos: 0 }
    }

    /// Both aggregates together. Sums stick at the largest counter value.
    pub open spec fn merged(self, other: Self) -> Self {
        MonitorStageTiming {
            samples: nearest_u64(self.samples + other.samples) as u64,
            total_nanos: nearest_u64(self.total_nanos + other.total_nanos) as u64,
            max_nanos: larger(self.max_nanos as int, other.max_nanos as int) as u64,
        }
    }

    /// The aggregate of one sample.
    pub open spec fn one(nanos: u64) -> Self {
        MonitorStageTiming { samples: 1, total_nanos: nanos, max_nanos: nanos }
    }

    pub fn merge(&mut self, other: Self)
        ensures
            *final(self) == old(self).merged(other),
    {
        self.samples = self.samples.saturating_add(other.samples);
        self.total_nanos = self.total_nanos.saturating_add(other.total_nanos);
        self.max_nanos = max_u64(self.max_nanos, other.max_nanos);
    }

    /// Counts one completed span. A span longer than the counter holds counts as the longest
    /// one it holds.
    pub fn record(&mut self, nanos: u128)
        ensures
            *final(self) == old(self).merged(
                MonitorStageTiming::one(nearest_u64(nanos as int) as u64),
            ),
    {
        let nanos: u64 = if nanos > u64::MAX as u128 {
            u64::MAX
        } else {
            nanos as u64
        };
        self.samples = self.samples.saturating_add(1);
        self.max_nanos = max_u64(self.max_nanos, nanos);
        self.total_nanos = self.total_nanos.saturating_add(nanos);
    }
}

/// Runtime-only aggregate CPU timings shared by every bounded monitor-worker lane.
#[derive(Clone, Copy, Debug, PartialEq, Eq, Structural)]
pub struct MonitorDecoderStageTimings {
    pub cache_lookup: MonitorStageTiming,
    pub demux_packet: MonitorStageTiming,
    pub decoder_calls: MonitorStageTiming,
    pub hardware_transfer: MonitorStageTiming,
    pub scaler: MonitorStageTiming,
    pub rgba_copy_letterbox: MonitorStageTiming,
    pub worker_request: MonitorStageTiming,
}

impl Default for MonitorDecoderStageTimings {
    fn default() -> (empty: Self)
        ensures
            empty == MonitorDecoderStageTimings::none(),
    {
        let none = MonitorStageTiming { samples: 0, total_nanos: 0, max_nanos: 0 };
        MonitorDecoderStageTimings {
            cache_lookup: none,
            demux_packet: none,
            decoder_calls: none,
            hardware_transfer: none,
            scaler: none,
            rgba_copy_letterbox: none,
            worker_request: none,
        }
    }
}

impl MonitorDecoderStageTimings {
    /// No sample of any stage.
    pub open spec fn none() -> Self {
        MonitorDecoderStageTimings {
            cache_lookup: MonitorStageTiming::none(),
            demux_packet: MonitorStageTiming::none(),
            decoder_calls: MonitorStageTiming::none(),
            hardware_transfer: MonitorStageTiming::none(),
            scaler: MonitorStageTiming::none(),
            rgba_copy_letterbox: MonitorStageTiming::none(),
            worker_request: MonitorStageTiming::none(),
        }
    }

    /// Both aggregates together, stage by stage.
    pub open spec fn merged(self, other: Self) -> Self {
        MonitorDecoderStageTimings {
            cache_lookup: self.cache_lookup.merged(other.cache_lookup),
            demux_packet: self.demux_packet.merged(other.demux_packet),
            decoder_calls: self.decoder_calls.merged(other.decoder_calls),
            hardware_transfer: self.hardware_transfer.merged(other.hardware_transfer),
            scaler: self.scaler.merged(other.scaler),
            rgba_copy_letterbox: self.rgba_copy_letterbox.merged(other.rgba_copy_letterbox),
            worker_request: self.worker_request.merged(other.worker_request),
        }
    }

    pub fn merge(&mut self, other: Self)
        ensures
            *final(self) == old(self).merged(other),
    {
        self.cache_lookup.merge(other.cache_lookup);
        self.demux_packet.merge(other.demux_packet);
        self.decoder_calls.merge(other.decoder_calls);
        self.hardware_transfer.merge(other.hardware_transfer);
        self.scaler.merge(other.scaler);
        self.rgba_copy_letterbox.merge(other.rgba_copy_letterbox);
        self.worker_request.merge(other.worker_request);
    }
}

/// The aggregate over the first lanes.
pub open spec fn merged_lanes(lanes: Seq<MonitorDecoderStageTimings>) -> MonitorDecoderStageTimings
    decreases lanes.len(),
{
    if lanes.len() == 0 {
        MonitorDecoderStageTimings::none()
    } else {
        merged_lanes(lanes.drop_last()).merged(lanes.last())
    }
}

/// The aggregate across all worker lanes.
pub fn stage_timings(lanes: &Vec<MonitorDecoderStageTimings>) -> (aggregate:
    MonitorDecoderStageTimings)
    ensures
        aggregate == merged_lanes(lanes@),
{
    let mut aggregate = MonitorDecoderStageTimings::default();
    let mut i: usize = 0;
    while i < lanes.len()
        invariant
            i <= lanes@.len(),
            aggregate == merged_lanes(lanes@.take(i as int)),
        decreases lanes@.len() - i,
    {
        assert(lanes@.take(i + 1).drop_last() =~= lanes@.take(i as int));
        aggregate.merge(lanes[i]);
        i += 1;
    }
    assert(lanes@.take(i as int) =~= lanes@);
    aggregate
}

/// Aggregates come together in any order, and no sample at all changes nothing.
pub proof fn law_merge_is_a_commutative_monoid(
    a: MonitorStageTiming,
    b: MonitorStageTiming,
    c: MonitorStageTiming,
)
    ensures
        a.merged(b) == b.merged(a),
        a.merged(b).merged(c) == a.merged(b.merged(c)),
        a.merged(MonitorStageTiming::none()) == a,
{
}

/// A reader may trust what it read of a record that one writer keeps under a sequence number:
/// the number was even before and is the same after.
pub fn snapshot_is_settled(before: u64, after: u64) -> (settled: bool)
    ensures
        settled == (before % 2 == 0 && before == after),
{
    before % 2 == 0 && before == after
}

/// One moment of a record that one writer keeps under a sequence number. The number counts the
/// writer's announcements: it is odd exactly while a span is being recorded.
pub struct RecordMoment {
    pub sequence: nat,
    pub timing: MonitorStageTiming,
}

/// What may happen between two moments: nothing, the announcement of a span, a change of one
/// field under an announcement, or the end of one.
pub open spec fn writer_step(before: RecordMoment, after: RecordMoment) -> bool {
    ||| after == before
    ||| after.sequence == before.sequence + 1 && after.timing == before.timing
    ||| after.sequence == before.sequence && before.sequence % 2 == 1
}

/// A history of one writer.
pub open spec fn is_history(moments: Seq<RecordMoment>) -> bool {
    forall|i: int|
        0 <= i && i + 1 < moments.len() ==> #[trigger] writer_step(moments[i], moments[i + 1])
}

proof fn lemma_sequence_never_falls(moments: Seq<RecordMoment>, from: int, to: int)
    requires
        is_history(moments),
        0 <= from <= to < moments.len(),
    ensures
        moments[from].sequence <= moments[to].sequence,
        moments[from].sequence == moments[to].sequence && moments[from].sequence % 2 == 0
            ==> moments[from].timing == moments[to].timing,
    decreases to - from,
{
    if from < to {
        lemma_sequence_never_falls(moments, from, to - 1);
        assert(writer_step(moments[to - 1], moments[to - 1 + 1]));
    }
}

/// A reader that finds the same even number before and after has read one coherent aggregate,
/// although it read the fields one after another while the writer went on.
pub proof fn law_settled_snapshot_is_coherent(
    moments: Seq<RecordMoment>,
    before: int,
    samples: int,
    total: int,
    max: int,
    after: int,
)
    requires
        is_history(moments),
        0 <= before <= samples <= total <= max <= after < moments.len(),
        moments[before].sequence % 2 == 0,
        moments[before].sequence == moments[after].sequence,
    ensures
        (MonitorStageTiming {
            samples: moments[samples].timing.samples,
            total_nanos: moments[total].timing.total_nanos,
            max_nanos: moments[max].timing.max_nanos,
        }) == moments[before].timing,
{
    lemma_sequence_never_falls(moments, before, samples);
    lemma_sequence_never_falls(moments, before, total);
    lemma_sequence_never_falls(moments, before, max);
    lemma_sequence_never_falls(moments, samples, after);
    lemma_sequence_never_falls(moments, total, after);
    lemma_sequence_never_falls(moments, max, after);
}

/// A recorded span counts as one sample, adds its length, and is the longest where none was longer;
/// sums stick at the end of their counter.
pub proof fn law_spans_add_up(timing: MonitorStageTiming, other: MonitorStageTiming, nanos: u64)
    ensures
        ({
            let after = timing.merged(MonitorStageTiming::one(nanos));
            &&& timing.samples < u64::MAX ==> after.samples == timing.samples + 1
            &&& timing.samples == u64::MAX ==> after.samples == u64::MAX
            &&& timing.total_nanos + nanos <= u64::MAX ==> after.total_nanos == timing.total_nanos
                + nanos
            &&& timing.total_nanos + nanos > u64::MAX ==> after.total_nanos == u64::MAX
            &&& nanos > timing.max_nanos ==> after.max_nanos == nanos
            &&& nanos <= timing.max_nanos ==> after.max_nanos == timing.max_nanos
        }),
        ({
            let both = timing.merged(other);
            &&& timing.samples + other.samples <= u64::MAX ==> both.samples == timing.samples
                + other.samples
            &&& timing.total_nanos + other.total_nanos <= u64::MAX ==> both.total_nanos
                == timing.total_nanos + other.total_nanos
            &&& both.max_nanos >= timing.max_nanos && both.max_nanos >= other.max_nanos
            &&& both.max_nanos == timing.max_nanos || both.max_nanos == other.max_nanos
        }),
        MonitorStageTiming::none().samples == 0,
        MonitorStageTiming::none().total_nanos == 0,
        MonitorStageTiming::none().max_nanos == 0,
{
}

/// Stages are merged each with its own kind, over all lanes.
pub proof fn law_stages_are_merged_by_kind(
    left: MonitorDecoderStageTimings,
    right: MonitorDecoderStageTimings,
    lanes: Seq<MonitorDecoderStageTimings>,
)
    ensures
        left.merged(right).cache_lookup == left.cache_lookup.merged(right.cache_lookup),
        left.merged(right).demux_packet == left.demux_packet.merged(right.demux_packet),
        left.merged(right).decoder_calls == left.decoder_calls.merged(right.decoder_calls),
        left.merged(right).hardware_transfer == left.hardware_transfer.merged(
            right.hardware_transfer,
        ),
        left.merged(right).scaler == left.scaler.merged(right.scaler),
        left.merged(right).rgba_copy_letterbox == left.rgba_copy_letterbox.merged(
            right.rgba_copy_letterbox,
        ),
        left.merged(right).worker_request == left.worker_request.merged(right.worker_request),
        merged_lanes(lanes.push(right)) == merged_lanes(lanes).merged(right),
        merged_lanes(Seq::empty()).worker_request.samples == 0,
        merged_lanes(Seq::empty()).scaler.samples == 0,
        merged_lanes(Seq::empty()).cache_lookup.samples == 0,
        merged_lanes(Seq::empty()).demux_packet.samples == 0,
        merged_lanes(Seq::empty()).decoder_calls.samples == 0,
        merged_lanes(Seq::empty()).hardware_transfer.samples == 0,
        merged_lanes(Seq::empty()).rgba_copy_letterbox.samples == 0,
{
    assert(lanes.push(right).drop_last() =~= lanes);
}

/// A snapshot is trusted exactly where no span was being recorded before it, and none has been since.
pub proof fn law_snapshots_are_trusted_between_spans(before: u64, after: u64, settled: bool)
    requires
        call_ensures(snapshot_is_settled, (before, after), settled),
    ensures
        settled <==> before % 2 == 0 && after == before,
{
}

} // verus!

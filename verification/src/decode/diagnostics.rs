//! Point-in-time views of what the monitor decoder holds.
use crate::arith::{larger, max_usize};
use vstd::prelude::*;

verus! {

/// The bounded pool of monitor lanes.
pub const MONITOR_WORKER_COUNT: usize = 4;

/// A point-in-time view of bounded monitor decoder resource use.
///
/// Counts are runtime diagnostics only: they do not alter cache eviction or sticky-session
/// ownership policy.
#[derive(Clone, Copy, Debug, PartialEq, Eq, Structural)]
pub struct MonitorDecoderDiagnostics {
    pub frame_cache_capacity_bytes: usize,
    pub current_frame_cache_bytes: usize,
    pub peak_frame_cache_bytes: usize,
    pub active_sticky_sessions: usize,
    pub peak_sticky_sessions: usize,
    pub session_cap: usize,
}

impl Default for MonitorDecoderDiagnostics {
    fn default() -> (empty: Self)
        ensures
            empty == (MonitorDecoderDiagnostics {
                frame_cache_capacity_bytes: 0,
                current_frame_cache_bytes: 0,
                peak_frame_cache_bytes: 0,
                active_sticky_sessions: 0,
                peak_sticky_sessions: 0,
                session_cap: 0,
            }),
    {
        MonitorDecoderDiagnostics {
            frame_cache_capacity_bytes: 0,
            current_frame_cache_bytes: 0,
            peak_frame_cache_bytes: 0,
            active_sticky_sessions: 0,
            peak_sticky_sessions: 0,
            session_cap: 0,
        }
    }
}

/// Exact, shared decoded-frame cache usage. A snapshot represents one physical cache, even
/// when several monitor decoders reference its pool.
#[derive(Clone, Copy, Debug, PartialEq, Eq, Structural)]
pub struct MonitorFrameCachePoolDiagnostics {
    pub capacity_bytes: usize,
    pub current_bytes: usize,
    pub peak_bytes: usize,
    pub eviction_count: u64,
}

impl Default for MonitorFrameCachePoolDiagnostics {
    fn default() -> (empty: Self)
        ensures
            empty == (MonitorFrameCachePoolDiagnostics {
                capacity_bytes: 0,
                current_bytes: 0,
                peak_bytes: 0,
                eviction_count: 0,
            }),
    {
        MonitorFrameCachePoolDiagnostics {
            capacity_bytes: 0,
            current_bytes: 0,
            peak_bytes: 0,
            eviction_count: 0,
        }
    }
}

/// What a frame cache has last published of itself.
#[derive(Clone, Copy, Debug, PartialEq, Eq, Structural)]
pub struct FrameCacheDiagnostics {
    pub capacity_bytes: usize,
    pub current_bytes: usize,
    pub peak_bytes: usize,
    pub eviction_count: u64,
}

impl FrameCacheDiagnostics {
    pub fn new(capacity_bytes: usize) -> (diagnostics: Self)
        ensures
            diagnostics == (FrameCacheDiagnostics {
                capacity_bytes,
                current_bytes: 0,
                peak_bytes: 0,
                eviction_count: 0,
            }),
    {
        FrameCacheDiagnostics { capacity_bytes, current_bytes: 0, peak_bytes: 0, eviction_count: 0 }
    }

    pub fn snapshot(&self) -> (seen: MonitorFrameCachePoolDiagnostics)
        ensures
            seen == (MonitorFrameCachePoolDiagnostics {
                capacity_bytes: self.capacity_bytes,
                current_bytes: self.current_bytes,
                peak_bytes: larger(self.peak_bytes as int, self.current_bytes as int) as usize,
                eviction_count: self.eviction_count,
            }),
    {
        MonitorFrameCachePoolDiagnostics {
            capacity_bytes: self.capacity_bytes,
            current_bytes: self.current_bytes,
            peak_bytes: max_usize(self.peak_bytes, self.current_bytes),
            eviction_count: self.eviction_count,
        }
    }

    /// What stands after a cache published its use: the peak never falls.
    pub open spec fn published(self, used_bytes: int, eviction_count: int) -> Self {
        FrameCacheDiagnostics {
            capacity_bytes: self.capacity_bytes,
            current_bytes: used_bytes as usize,
            peak_bytes: larger(self.peak_bytes as int, used_bytes) as usize,
            eviction_count: eviction_count as u64,
        }
    }

    pub fn publish(&mut self, used_bytes: usize, eviction_count: u64)
        requires
            used_bytes <= old(self).capacity_bytes,
        ensures
            *final(self) == old(self).published(used_bytes as int, eviction_count as int),
    {
        self.peak_bytes = max_usize(self.peak_bytes, used_bytes);
        self.current_bytes = used_bytes;
        self.eviction_count = eviction_count;
    }
}

/// How many entries of `active` are set.
pub open spec fn count_set(active: Seq<bool>) -> nat
    decreases active.len(),
{
    if active.len() == 0 {
        0
    } else {
        count_set(active.drop_last()) + (if active.last() {
            1nat
        } else {
            0nat
        })
    }
}

/// Which monitor lanes hold a sticky session, and how many did at most.
#[derive(Debug)]
pub struct DecoderResourceDiagnostics {
    active_sticky_sessions: [bool; 4],
    peak_sticky_sessions: usize,
}

impl DecoderResourceDiagnostics {
    /// Lane by lane, whether it holds a session.
    pub closed spec fn active(&self) -> Seq<bool> {
        self.active_sticky_sessions@
    }

    /// The most sessions ever published at once.
    pub closed spec fn peak(&self) -> nat {
        self.peak_sticky_sessions as nat
    }

    /// The peak covers what is active, and keeps to the number of lanes.
    pub open spec fn wf(&self) -> bool {
        &&& self.active().len() == MONITOR_WORKER_COUNT
        &&& count_set(self.active()) <= self.peak() <= MONITOR_WORKER_COUNT
    }

    pub fn new() -> (diagnostics: Self)
        ensures
            diagnostics.wf(),
            diagnostics.active() == seq![false, false, false, false],
            diagnostics.peak() == 0,
    {
        let diagnostics = DecoderResourceDiagnostics {
            active_sticky_sessions: [false, false, false, false],
            peak_sticky_sessions: 0,
        };
        assert(diagnostics.active() =~= seq![false, false, false, false]);
        assert(count_set(diagnostics.active()) == 0) by {
            reveal_with_fuel(count_set, 5);
        }
        diagnostics
    }

    fn count_active(&self) -> (count: usize)
        ensures
            count == count_set(self.active()),
            count <= MONITOR_WORKER_COUNT,
    {
        let mut count: usize = 0;
        let mut i: usize = 0;
        while i < 4
            invariant
                i <= 4,
                count <= i,
                self.active().len() == 4,
                count == count_set(self.active().take(i as int)),
            decreases 4 - i,
        {
            assert(self.active().take(i + 1).drop_last() =~= self.active().take(i as int));
            if self.active_sticky_sessions[i] {
                count += 1;
            }
            i += 1;
        }
        assert(self.active().take(4) =~= self.active());
        count
    }

    pub fn snapshot(&self, cache: MonitorFrameCachePoolDiagnostics) -> (seen:
        MonitorDecoderDiagnostics)
        requires
            self.wf(),
        ensures
            seen == (MonitorDecoderDiagnostics {
                frame_cache_capacity_bytes: cache.capacity_bytes,
                current_frame_cache_bytes: cache.current_bytes,
                peak_frame_cache_bytes: cache.peak_bytes,
                active_sticky_sessions: count_set(self.active()) as usize,
                peak_sticky_sessions: self.peak() as usize,
                session_cap: MONITOR_WORKER_COUNT,
            }),
            seen.active_sticky_sessions <= seen.peak_sticky_sessions <= seen.session_cap,
    {
        let active_sticky_sessions: usize = self.count_active();
        MonitorDecoderDiagnostics {
            frame_cache_capacity_bytes: cache.capacity_bytes,
            current_frame_cache_bytes: cache.current_bytes,
            peak_frame_cache_bytes: cache.peak_bytes,
            active_sticky_sessions,
            peak_sticky_sessions: max_usize(self.peak_sticky_sessions, active_sticky_sessions),
            session_cap: MONITOR_WORKER_COUNT,
        }
    }

    pub fn publish_worker_session(&mut self, worker_index: usize, active: bool)
        requires
            old(self).wf(),
            worker_index < MONITOR_WORKER_COUNT,
        ensures
            final(self).wf(),
            final(self).active() == old(self).active().update(worker_index as int, active),
            final(self).peak() == larger(
                old(self).peak() as int,
                count_set(final(self).active()) as int,
            ),
    {
        self.active_sticky_sessions[worker_index] = active;
        let count: usize = self.count_active();
        self.peak_sticky_sessions = max_usize(self.peak_sticky_sessions, count);
    }
}

/// What a cache publishes is what is read: its use and its evictions as they are, the peak no lower
/// than either, and the budget unchanged.
pub proof fn law_published_use_is_exact(
    seen: FrameCacheDiagnostics,
    used_bytes: usize,
    eviction_count: u64,
)
    ensures
        ({
            let after = seen.published(used_bytes as int, eviction_count as int);
            &&& after.current_bytes == used_bytes
            &&& after.eviction_count == eviction_count
            &&& after.capacity_bytes == seen.capacity_bytes
            &&& used_bytes > seen.peak_bytes ==> after.peak_bytes == used_bytes
            &&& used_bytes <= seen.peak_bytes ==> after.peak_bytes == seen.peak_bytes
        }),
{
}

/// Each lane counts for one: a lane that takes a session adds one, and one that gives it up takes
/// one away.
pub proof fn law_each_lane_counts_for_one(active: Seq<bool>, lane: int)
    requires
        0 <= lane < active.len(),
    ensures
        count_set(active.update(lane, true)) == count_set(active.update(lane, false)) + 1,
        count_set(active) <= active.len(),
        active[lane] ==> count_set(active) == count_set(active.update(lane, true)),
        !active[lane] ==> count_set(active) == count_set(active.update(lane, false)),
        (forall|i: int| 0 <= i < active.len() ==> !#[trigger] active[i]) ==> count_set(active) == 0,
    decreases active.len(),
{
    let rest = active.drop_last();
    if lane < rest.len() {
        law_each_lane_counts_for_one(rest, lane);
        assert(active.update(lane, true).drop_last() =~= rest.update(lane, true));
        assert(active.update(lane, false).drop_last() =~= rest.update(lane, false));
    } else {
        assert(active.update(lane, true).drop_last() =~= rest);
        assert(active.update(lane, false).drop_last() =~= rest);
        if rest.len() > 0 {
            law_each_lane_counts_for_one(rest, 0);
        }
    }
    if active[lane] {
        assert(active.update(lane, true) =~= active);
    } else {
        assert(active.update(lane, false) =~= active);
    }
    if forall|i: int| 0 <= i < active.len() ==> !#[trigger] active[i] {
        assert forall|i: int| 0 <= i < rest.len() implies !#[trigger] rest[i] by {
            assert(rest[i] == active[i]);
        }
        assert(!active[active.len() - 1]);
    }
}

/// What a decoder reports of its lanes is how many hold a session now and at most.
pub proof fn law_decoder_reports_its_sessions(
    diagnostics: &DecoderResourceDiagnostics,
    cache: MonitorFrameCachePoolDiagnostics,
    seen: MonitorDecoderDiagnostics,
)
    requires
        call_ensures(DecoderResourceDiagnostics::snapshot, (diagnostics, cache), seen),
        diagnostics.wf(),
    ensures
        seen.active_sticky_sessions == count_set(diagnostics.active()),
        seen.peak_sticky_sessions == diagnostics.peak(),
        seen.session_cap == 4,
        seen.frame_cache_capacity_bytes == cache.capacity_bytes,
        seen.current_frame_cache_bytes == cache.current_bytes,
        seen.peak_frame_cache_bytes == cache.peak_bytes,
{
}

/// A lane that publishes its session changes its own mark alone, and the peak never falls.
pub proof fn law_lanes_publish_their_own_session(
    diagnostics: &mut DecoderResourceDiagnostics,
    worker_index: usize,
    active: bool,
    other: int,
)
    requires
        call_ensures(
            DecoderResourceDiagnostics::publish_worker_session,
            (diagnostics, worker_index, active),
            (),
        ),
        old(diagnostics).wf(),
        worker_index < 4,
    ensures
        final(diagnostics).active()[worker_index as int] == active,
        0 <= other < 4 && other != worker_index ==> final(diagnostics).active()[other] == old(diagnostics).active()[other],
        final(diagnostics).peak() >= old(diagnostics).peak(),
        final(diagnostics).peak() >= count_set(final(diagnostics).active()),
        final(diagnostics).peak() == old(diagnostics).peak() || final(diagnostics).peak()
            == count_set(final(diagnostics).active()),
{
}

} // verus!

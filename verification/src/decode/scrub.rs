//! When a scrub shows the frames that it decodes on its way.
use crate::arith::nearest_u64;
use vstd::prelude::*;

verus! {

/// The shortest time between two progressive scrub frames, in nanoseconds.
pub const SCRUB_PROGRESS_INTERVAL: u64 = 8_000_000;

/// Whether `interval` nanoseconds have passed since the last publication. A clock that went
/// back counts as no time passed.
pub open spec fn progress_due(last_published: Option<u64>, now: int, interval: int) -> bool {
    match last_published {
        Some(last) => nearest_u64(now - last) >= interval,
        None => true,
    }
}

/// Limits progressive scrub publication by elapsed wall time, not media time. Times are
/// readings of one monotonic clock in nanoseconds.
///
/// Source timestamps vary by frame rate and can be irregular for VFR media, so
/// they must not determine how often the monitor receives a decoded frame.
pub fn scrub_progress_due(last_published: Option<u64>, now: u64, interval: u64) -> (due: bool)
    ensures
        due == progress_due(last_published, now as int, interval as int),
{
    match last_published {
        Some(last) => now.saturating_sub(last) >= interval,
        None => true,
    }
}

/// Whether showing `source_tick` moves the visible frame towards the target, never past the
/// visible frame in the other direction.
pub open spec fn moves_toward_target(
    last_visible_tick: Option<i64>,
    target_tick: int,
    source_tick: int,
) -> bool {
    match last_visible_tick {
        Some(visible) => if target_tick >= visible {
            visible <= source_tick
        } else {
            target_tick <= source_tick <= visible
        },
        None => target_tick <= source_tick,
    }
}

/// Allows preroll only when it moves the visible monitor frame toward the target.
///
/// A forward seek may reveal frames after the current visible frame. A reverse (or
/// unanchored) seek must not reveal frames before its target: the decoder reaches those
/// by replaying from a keyframe, which makes the monitor jump in the wrong direction.
pub fn scrub_progress_moves_toward_target(
    last_visible_tick: Option<i64>,
    target_tick: i64,
    source_tick: i64,
) -> (shown: bool)
    ensures
        shown == moves_toward_target(last_visible_tick, target_tick as int, source_tick as int),
{
    match last_visible_tick {
        Some(visible) => if target_tick >= visible {
            source_tick >= visible
        } else {
            source_tick >= target_tick && source_tick <= visible
        },
        None => source_tick >= target_tick,
    }
}

/// A shown preroll frame never takes the monitor further from its target than the frame it
/// replaces, as long as it does not overshoot the target.
pub proof fn law_progress_never_moves_away(visible: i64, target_tick: i64, source_tick: i64)
    requires
        moves_toward_target(Some(visible), target_tick as int, source_tick as int),
        target_tick >= visible ==> source_tick <= target_tick,
    ensures
        target_tick >= visible ==> target_tick - source_tick <= target_tick - visible,
        target_tick < visible ==> source_tick - target_tick <= visible - target_tick,
{
}

/// Without a visible frame, and on the way back, nothing from before the target is shown.
pub proof fn law_reverse_preroll_is_hidden(
    last_visible_tick: Option<i64>,
    target_tick: i64,
    source_tick: i64,
)
    requires
        last_visible_tick matches Some(visible) ==> target_tick < visible,
        source_tick < target_tick,
    ensures
        !moves_toward_target(last_visible_tick, target_tick as int, source_tick as int),
{
}

/// Progress is due with the first frame, and from then on exactly once the interval has passed.
pub proof fn law_progress_is_due_after_the_interval(last: u64, now: u64, interval: u64)
    ensures
        progress_due(None, now as int, interval as int),
        now >= last ==> (progress_due(Some(last), now as int, interval as int) <==> now - last
            >= interval),
        now < last && interval > 0 ==> !progress_due(Some(last), now as int, interval as int),
{
}

/// Exactly these preroll frames are shown: on the way forward those that do not lie before the
/// visible one, on the way back those between the target and the visible one, and without a visible
/// one those from the target on.
pub proof fn law_shown_preroll_is_exact(visible: i64, target_tick: i64, source_tick: i64)
    ensures
        target_tick >= visible ==> (moves_toward_target(
            Some(visible),
            target_tick as int,
            source_tick as int,
        ) <==> source_tick >= visible),
        target_tick < visible ==> (moves_toward_target(
            Some(visible),
            target_tick as int,
            source_tick as int,
        ) <==> source_tick >= target_tick && source_tick <= visible),
        moves_toward_target(None, target_tick as int, source_tick as int) <==> source_tick
            >= target_tick,
{
}

} // verus!

//! The device clock, and what it means for decoded audio.
use crate::arith::{
    larger, nearest_i64, nearest_u64, saturating_add_ticks, saturating_mul_u64, saturating_sub_ticks,
    smaller,
};
use vstd::prelude::*;

verus! {

/// The complete mix, rather than each lane, is limited to one second of PCM.
pub const MIX_BUFFER_SECONDS: usize = 1;

/// A sample rate that can be divided by.
pub open spec fn divisor(sample_rate: u32) -> int {
    larger(sample_rate as int, 1)
}

/// The ticks that `frames` device frames take.
pub open spec fn frames_to_ticks(frames: int, sample_rate: u32) -> int {
    smaller(nearest_u64(frames * 1_000_000) / divisor(sample_rate), i64::MAX as int)
}

pub fn elapsed_ticks(frames: u64, sample_rate: u32) -> (ticks: i64)
    ensures
        ticks == frames_to_ticks(frames as int, sample_rate),
        ticks >= 0,
{
    let rate: u64 = if sample_rate == 0 {
        1
    } else {
        sample_rate as u64
    };
    let micros: u64 = saturating_mul_u64(frames, 1_000_000);
    let ticks: u64 = micros / rate;
    if ticks > i64::MAX as u64 {
        i64::MAX
    } else {
        ticks as i64
    }
}

/// Where the source stands once the device has consumed frames; nowhere before the first one.
pub open spec fn source_tick_at(source_tick: i64, consumed_frames: u64, sample_rate: u32) -> Option<
    i64,
> {
    if consumed_frames > 0 {
        Some(
            nearest_i64(source_tick + frames_to_ticks(consumed_frames as int, sample_rate)) as i64,
        )
    } else {
        None
    }
}

pub fn playback_source_tick(source_tick: i64, consumed_frames: u64, sample_rate: u32) -> (tick:
    Option<i64>)
    ensures
        tick == source_tick_at(source_tick, consumed_frames, sample_rate),
{
    if consumed_frames > 0 {
        Some(saturating_add_ticks(source_tick, elapsed_ticks(consumed_frames, sample_rate)))
    } else {
        None
    }
}

/// The clock after `frames` more device frames. It stands still while nothing plays.
pub fn advance_device_clock(device_frames: u64, playing: bool, frames: usize) -> (advanced: u64)
    ensures
        playing ==> advanced == (device_frames + frames) % 0x1_0000_0000_0000_0000,
        !playing ==> advanced == device_frames,
{
    if playing {
        device_frames.wrapping_add(frames as u64)
    } else {
        device_frames
    }
}

/// How many frames the device is ahead of the next decoded one.
pub open spec fn frames_behind(consumed_frames: int, decoded_frame: int) -> int {
    smaller(
        larger(nearest_i64(smaller(consumed_frames, i64::MAX as int) - decoded_frame), 0),
        usize::MAX as int,
    )
}

pub fn stale_frames_to_skip(consumed_frames: u64, decoded_frame: i64) -> (stale: usize)
    ensures
        stale == frames_behind(consumed_frames as int, decoded_frame as int),
{
    let consumed: i64 = if consumed_frames > i64::MAX as u64 {
        i64::MAX
    } else {
        consumed_frames as i64
    };
    let behind: i64 = saturating_sub_ticks(consumed, decoded_frame);
    if behind <= 0 {
        0
    } else if behind as u64 > usize::MAX as u64 {
        usize::MAX
    } else {
        behind as usize
    }
}

/// The ticks that `samples` samples take. A product that leaves the range sticks at its end.
pub open spec fn samples_to_ticks(samples: int, sample_rate: u32) -> int {
    nearest_i64(smaller(samples, i64::MAX as int) * 1_000_000) / divisor(sample_rate)
}

pub fn sample_duration_ticks(samples: usize, sample_rate: u32) -> (ticks: i64)
    ensures
        ticks == samples_to_ticks(samples as int, sample_rate),
        ticks >= 0,
{
    let rate: i64 = if sample_rate == 0 {
        1
    } else {
        sample_rate as i64
    };
    let counted: i64 = if samples as u64 > i64::MAX as u64 {
        i64::MAX
    } else {
        samples as i64
    };
    let micros: i64 = match counted.checked_mul(1_000_000) {
        Some(micros) => micros,
        None => i64::MAX,
    };
    micros / rate
}

/// The largest even number that is not above `samples`. Stereo frames must never be split.
pub open spec fn whole_frames(samples: int) -> int {
    samples - samples % 2
}

/// The samples that one of `lane_count` lanes may hold.
pub open spec fn lane_capacity(sample_rate: u32, lane_count: int) -> int {
    larger(
        whole_frames(
            smaller(sample_rate * 2, usize::MAX as int) / larger(lane_count, 1),
        ),
        2,
    )
}

pub fn lane_capacity_samples(sample_rate: u32, lane_count: usize) -> (samples: usize)
    ensures
        samples == lane_capacity(sample_rate, lane_count as int),
        samples >= 2,
        samples % 2 == 0,
{
    let total: usize = match (sample_rate as usize).checked_mul(2 * MIX_BUFFER_SECONDS) {
        Some(total) => total,
        None => usize::MAX,
    };
    let lanes: usize = if lane_count == 0 {
        1
    } else {
        lane_count
    };
    let share: usize = total / lanes;
    let even: usize = share - share % 2;
    if even < 2 {
        2
    } else {
        even
    }
}

/// The transport's position never goes back while the device consumes frames.
pub proof fn law_position_never_goes_back(
    source_tick: i64,
    earlier: u64,
    later: u64,
    sample_rate: u32,
)
    requires
        0 < earlier <= later,
    ensures
        source_tick_at(source_tick, earlier, sample_rate)->0 <= source_tick_at(
            source_tick,
            later,
            sample_rate,
        )->0,
        source_tick <= source_tick_at(source_tick, earlier, sample_rate)->0,
{
    let d = divisor(sample_rate);
    let a = nearest_u64(earlier * 1_000_000);
    let b = nearest_u64(later * 1_000_000);
    assert(a <= b);
    vstd::arithmetic::div_mod::lemma_div_is_ordered(a, b, d);
    vstd::arithmetic::div_mod::lemma_div_pos_is_pos(a, d);
}

/// The lanes of a mix share one budget: together they may hold no more than it, as long as it
/// leaves each of them at least one stereo frame.
pub proof fn law_lane_budgets_share_the_mix(sample_rate: u32, lane_count: int)
    requires
        lane_count >= 1,
        smaller(sample_rate * 2, usize::MAX as int) >= 2 * lane_count,
    ensures
        lane_count * lane_capacity(sample_rate, lane_count) <= smaller(
            sample_rate * 2,
            usize::MAX as int,
        ),
{
    let total = smaller(sample_rate * 2, usize::MAX as int);
    let share = total / lane_count;
    vstd::arithmetic::div_mod::lemma_fundamental_div_mod(total, lane_count);
    assert(share >= 2) by (nonlinear_arith)
        requires
            total == lane_count * share + total % lane_count,
            0 <= total % lane_count < lane_count,
            total >= 2 * lane_count,
            lane_count >= 1,
    ;
    let capacity = lane_capacity(sample_rate, lane_count);
    assert(capacity <= share);
    assert(lane_count * capacity <= lane_count * share) by (nonlinear_arith)
        requires
            capacity <= share,
            lane_count >= 1,
    ;
}

/// Frames take their share of a second: a million ticks to as many frames as the rate says, rounded
/// down. A rate of zero counts as one, and what leaves the range of the counters sticks at its end.
pub proof fn law_frames_take_their_time(frames: u64, sample_rate: u32)
    ensures
        ({
            let ticks = frames_to_ticks(frames as int, sample_rate);
            let rate = if sample_rate == 0 {
                1
            } else {
                sample_rate as int
            };
            let micros = if frames * 1_000_000 > u64::MAX {
                u64::MAX as int
            } else {
                frames * 1_000_000
            };
            &&& 0 <= ticks <= i64::MAX
            &&& ticks * rate <= micros
            &&& ticks < i64::MAX ==> micros < (ticks + 1) * rate
        }),
{
    let rate = divisor(sample_rate);
    let micros = nearest_u64(frames * 1_000_000);
    let q = micros / rate;
    vstd::arithmetic::div_mod::lemma_fundamental_div_mod(micros, rate);
    vstd::arithmetic::div_mod::lemma_div_pos_is_pos(micros, rate);
    let ticks = frames_to_ticks(frames as int, sample_rate);
    assert(q * rate <= micros < (q + 1) * rate) by (nonlinear_arith)
        requires
            micros == rate * q + micros % rate,
            0 <= micros % rate < rate,
    ;
    assert(ticks * rate <= q * rate) by (nonlinear_arith)
        requires
            ticks <= q,
            1 <= rate,
    ;
}

/// The transport stands nowhere before the device has consumed a frame, and from then on where it
/// started, plus the time that the consumed frames take.
pub proof fn law_position_is_start_plus_elapsed(
    source_tick: i64,
    consumed_frames: u64,
    sample_rate: u32,
)
    ensures
        source_tick_at(source_tick, consumed_frames, sample_rate) is None <==> consumed_frames == 0,
        source_tick_at(source_tick, consumed_frames, sample_rate) matches Some(tick) ==> {
            let elapsed = frames_to_ticks(consumed_frames as int, sample_rate);
            &&& source_tick + elapsed <= i64::MAX ==> tick == source_tick + elapsed
            &&& source_tick + elapsed > i64::MAX ==> tick == i64::MAX
        },
{
    law_frames_take_their_time(consumed_frames, sample_rate);
}

/// Decoded audio is late by as many frames as the device is ahead of it, and never by less than
/// none.
pub proof fn law_lateness_is_the_lead_of_the_device(consumed_frames: u64, decoded_frame: i64)
    requires
        consumed_frames <= i64::MAX,
        0 <= decoded_frame,
    ensures
        consumed_frames <= decoded_frame ==> frames_behind(
            consumed_frames as int,
            decoded_frame as int,
        ) == 0,
        consumed_frames > decoded_frame && consumed_frames - decoded_frame <= usize::MAX
            ==> frames_behind(consumed_frames as int, decoded_frame as int) == consumed_frames
            - decoded_frame,
{
}

/// Samples take their share of a second, rounded down.
pub proof fn law_samples_take_their_time(samples: int, sample_rate: u32)
    requires
        0 <= samples,
        samples * 1_000_000 <= i64::MAX,
    ensures
        ({
            let ticks = samples_to_ticks(samples, sample_rate);
            let rate = if sample_rate == 0 {
                1
            } else {
                sample_rate as int
            };
            &&& 0 <= ticks
            &&& ticks * rate <= samples * 1_000_000 < (ticks + 1) * rate
        }),
{
    let rate = divisor(sample_rate);
    let micros = samples * 1_000_000;
    let q = micros / rate;
    vstd::arithmetic::div_mod::lemma_fundamental_div_mod(micros, rate);
    vstd::arithmetic::div_mod::lemma_div_pos_is_pos(micros, rate);
    assert(q * rate <= micros < (q + 1) * rate) by (nonlinear_arith)
        requires
            micros == rate * q + micros % rate,
            0 <= micros % rate < rate,
    ;
}

/// Whole stereo frames are an even number of samples, and leave out one sample at most.
pub proof fn law_whole_frames_are_even(samples: int)
    requires
        0 <= samples,
    ensures
        whole_frames(samples) % 2 == 0,
        whole_frames(samples) <= samples <= whole_frames(samples) + 1,
{
}

/// A lane may hold its share of one second of stereo samples, in whole frames and at least one of
/// them: the largest such number of which all lanes together fit into the second.
pub proof fn law_lane_share_is_the_largest_that_fits(sample_rate: u32, lane_count: int)
    requires
        1 <= lane_count,
        sample_rate * 2 <= usize::MAX,
    ensures
        ({
            let share = lane_capacity(sample_rate, lane_count);
            &&& share % 2 == 0
            &&& share >= 2
            &&& sample_rate >= lane_count ==> share * lane_count <= sample_rate * 2 < (share + 2)
                * lane_count
            &&& sample_rate < lane_count ==> share == 2
        }),
        lane_capacity(sample_rate, 0) == lane_capacity(sample_rate, 1),
{
    let total = sample_rate * 2;
    let q = total / lane_count;
    vstd::arithmetic::div_mod::lemma_fundamental_div_mod(total, lane_count);
    vstd::arithmetic::div_mod::lemma_div_pos_is_pos(total, lane_count);
    assert(q * lane_count <= total < (q + 1) * lane_count) by (nonlinear_arith)
        requires
            total == lane_count * q + total % lane_count,
            0 <= total % lane_count < lane_count,
    ;
    let even = q - q % 2;
    if sample_rate >= lane_count {
        assert(q >= 2) by (nonlinear_arith)
            requires
                total < (q + 1) * lane_count,
                total >= 2 * lane_count,
                lane_count >= 1,
        ;
        let share = lane_capacity(sample_rate, lane_count);
        assert(share == even);
        assert(share * lane_count <= total) by (nonlinear_arith)
            requires
                share <= q,
                q * lane_count <= total,
                lane_count >= 1,
        ;
        assert(total < (share + 2) * lane_count) by (nonlinear_arith)
            requires
                q + 1 <= share + 2,
                total < (q + 1) * lane_count,
                lane_count >= 1,
        ;
    } else {
        assert(q < 2) by (nonlinear_arith)
            requires
                q * lane_count <= total,
                total < 2 * lane_count,
                lane_count >= 1,
        ;
    }
}

} // verus!

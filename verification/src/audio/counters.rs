//! Cumulative diagnostics of the audio transport.
use crate::arith::{larger, max_u64, nearest_u64};
use crate::audio::target::{is_nan, magnitude, Level};
use vstd::prelude::*;

verus! {

/// Cumulative CPU-side timing for native output callbacks, in nanoseconds.
#[derive(Clone, Copy, Debug, PartialEq, Eq, Structural)]
pub struct AudioCallbackCpuTiming {
    pub samples: u64,
    pub total_nanos: u64,
    pub max_nanos: u64,
}

impl Default for AudioCallbackCpuTiming {
    fn default() -> (empty: Self)
        ensures
            empty == (AudioCallbackCpuTiming { samples: 0, total_nanos: 0, max_nanos: 0 }),
    {
        AudioCallbackCpuTiming { samples: 0, total_nanos: 0, max_nanos: 0 }
    }
}

/// Cumulative diagnostics from the native audio transport.
///
/// `output_callback_cpu_timing` aggregates elapsed CPU-side time spent in each
/// output callback. `callback_lock_failures` counts output callbacks that could not acquire the
/// mixer lock and therefore produced silence. `underrun_device_frames` counts
/// playing device frames for which every active lane was empty, including an
/// entire lock-contended callback. Paused callbacks never contribute to the
/// underrun-frame count. `late_decoded_frames_discarded` counts decoded stereo
/// frames dropped by the decode worker because the device clock had already
/// advanced past them.
#[derive(Clone, Copy, Debug, PartialEq, Eq, Structural)]
pub struct AudioRuntimeDiagnostics {
    pub output_callback_cpu_timing: AudioCallbackCpuTiming,
    pub callback_lock_failures: u64,
    pub underrun_device_frames: u64,
    pub late_decoded_frames_discarded: u64,
}

impl Default for AudioRuntimeDiagnostics {
    fn default() -> (empty: Self)
        ensures
            empty == AudioRuntimeDiagnostics::none(),
    {
        AudioRuntimeDiagnostics {
            output_callback_cpu_timing: AudioCallbackCpuTiming {
                samples: 0,
                total_nanos: 0,
                max_nanos: 0,
            },
            callback_lock_failures: 0,
            underrun_device_frames: 0,
            late_decoded_frames_discarded: 0,
        }
    }
}

/// The larger of a peak and the magnitude of a sample. Patterns of magnitudes are ordered like the
/// magnitudes, and what is no number does not count.
pub open spec fn peak_with(peak: Level, sample: Level) -> Level {
    if is_nan(sample.bits) || (!is_nan(peak.bits) && magnitude(sample.bits) <= magnitude(
        peak.bits,
    )) {
        peak
    } else {
        Level { bits: magnitude(sample.bits) }
    }
}

fn raised_peak(peak: Level, sample: Level) -> (raised: Level)
    ensures
        raised == peak_with(peak, sample),
{
    let before: u32 = peak.bits % 0x8000_0000;
    let bits: u32 = sample.bits % 0x8000_0000;
    if bits > 0x7F80_0000 || (before <= 0x7F80_0000 && bits <= before) {
        peak
    } else {
        Level { bits }
    }
}

/// What one output callback has come to.
#[derive(Clone, Copy, Debug, PartialEq)]
pub struct CallbackTally {
    /// The frames that no lane contributed to.
    pub underrun_frames: usize,
    pub peak_left: Level,
    pub peak_right: Level,
}

impl CallbackTally {
    /// The tally of a callback that has written nothing.
    pub fn new() -> (tally: Self)
        ensures
            tally == (CallbackTally {
                underrun_frames: 0,
                peak_left: Level { bits: 0 },
                peak_right: Level { bits: 0 },
            }),
    {
        CallbackTally {
            underrun_frames: 0,
            peak_left: Level { bits: 0 },
            peak_right: Level { bits: 0 },
        }
    }

    /// The tally once a device frame was written that `lanes` lanes contributed to.
    pub open spec fn with_frame(self, lanes: int, left: Level, right: Level) -> Self {
        CallbackTally {
            underrun_frames: if lanes == 0 && self.underrun_frames < usize::MAX {
                (self.underrun_frames + 1) as usize
            } else {
                self.underrun_frames
            },
            peak_left: peak_with(self.peak_left, left),
            peak_right: peak_with(self.peak_right, right),
        }
    }

    /// Counts a device frame that was written.
    pub fn frame_written(&mut self, lanes: usize, left: Level, right: Level)
        ensures
            *final(self) == old(self).with_frame(lanes as int, left, right),
    {
        if lanes == 0 {
            self.underrun_frames = self.underrun_frames.saturating_add(1);
        }
        self.peak_left = raised_peak(self.peak_left, left);
        self.peak_right = raised_peak(self.peak_right, right);
    }
}

/// What the output callbacks come to that found the mixer locked.
#[derive(Clone, Copy, Debug, PartialEq, Eq, Structural)]
pub struct MissedCallbacks {
    pub count: u64,
    /// The device frames that they owed while the transport was playing.
    pub frames: u64,
    pub total_nanos: u64,
    pub max_nanos: u64,
}

/// A counter that starts afresh beyond its largest value.
pub open spec fn wrapped(count: int) -> u64 {
    (count % 0x1_0000_0000_0000_0000) as u64
}

impl AudioRuntimeDiagnostics {
    /// Nothing has happened yet.
    pub open spec fn none() -> Self {
        AudioRuntimeDiagnostics {
            output_callback_cpu_timing: AudioCallbackCpuTiming {
                samples: 0,
                total_nanos: 0,
                max_nanos: 0,
            },
            callback_lock_failures: 0,
            underrun_device_frames: 0,
            late_decoded_frames_discarded: 0,
        }
    }

    /// One more callback took `nanos`.
    pub open spec fn with_callback(self, nanos: u64) -> Self {
        let before = self.output_callback_cpu_timing;
        AudioRuntimeDiagnostics {
            output_callback_cpu_timing: AudioCallbackCpuTiming {
                samples: nearest_u64(before.samples + 1) as u64,
                total_nanos: nearest_u64(before.total_nanos + nanos) as u64,
                max_nanos: larger(before.max_nanos as int, nanos as int) as u64,
            },
            ..self
        }
    }

    /// One more callback found the mixer locked.
    pub open spec fn with_lock_failure(self) -> Self {
        AudioRuntimeDiagnostics {
            callback_lock_failures: wrapped(self.callback_lock_failures + 1),
            ..self
        }
    }

    /// Callbacks found the mixer locked: each counts as one, was silent from end to end, and took
    /// its time.
    pub open spec fn with_missed(self, missed: MissedCallbacks) -> Self {
        let before = self.output_callback_cpu_timing;
        AudioRuntimeDiagnostics {
            output_callback_cpu_timing: AudioCallbackCpuTiming {
                samples: nearest_u64(before.samples + missed.count) as u64,
                total_nanos: nearest_u64(before.total_nanos + missed.total_nanos) as u64,
                max_nanos: larger(before.max_nanos as int, missed.max_nanos as int) as u64,
            },
            callback_lock_failures: wrapped(self.callback_lock_failures + missed.count),
            underrun_device_frames: wrapped(self.underrun_device_frames + missed.frames),
            ..self
        }
    }

    /// `frames` more device frames were silent; a paused device does not count.
    pub open spec fn with_underrun(self, playing: bool, frames: int) -> Self {
        AudioRuntimeDiagnostics {
            underrun_device_frames: if playing {
                wrapped(self.underrun_device_frames + frames)
            } else {
                self.underrun_device_frames
            },
            ..self
        }
    }

    /// `frames` more decoded frames came too late.
    pub open spec fn with_late_discard(self, frames: int) -> Self {
        AudioRuntimeDiagnostics {
            late_decoded_frames_discarded: wrapped(self.late_decoded_frames_discarded + frames),
            ..self
        }
    }

    pub fn record_output_callback_cpu_nanos(&mut self, nanos: u64)
        ensures
            *final(self) == old(self).with_callback(nanos),
    {
        let before = self.output_callback_cpu_timing;
        self.output_callback_cpu_timing =
        AudioCallbackCpuTiming {
            samples: before.samples.saturating_add(1),
            total_nanos: before.total_nanos.saturating_add(nanos),
            max_nanos: max_u64(before.max_nanos, nanos),
        };
    }

    pub fn record_callback_lock_failure(&mut self)
        ensures
            *final(self) == old(self).with_lock_failure(),
    {
        self.callback_lock_failures = self.callback_lock_failures.wrapping_add(1);
    }

    pub fn record_missed(&mut self, missed: &MissedCallbacks)
        ensures
            *final(self) == old(self).with_missed(*missed),
    {
        let before = self.output_callback_cpu_timing;
        self.output_callback_cpu_timing =
        AudioCallbackCpuTiming {
            samples: before.samples.saturating_add(missed.count),
            total_nanos: before.total_nanos.saturating_add(missed.total_nanos),
            max_nanos: max_u64(before.max_nanos, missed.max_nanos),
        };
        self.callback_lock_failures = self.callback_lock_failures.wrapping_add(missed.count);
        self.underrun_device_frames = self.underrun_device_frames.wrapping_add(missed.frames);
    }

    pub fn record_underrun_frames(&mut self, playing: bool, frames: usize)
        ensures
            *final(self) == old(self).with_underrun(playing, frames as int),
    {
        if playing && frames > 0 {
            self.underrun_device_frames = self.underrun_device_frames.wrapping_add(frames as u64);
        }
    }

    pub fn record_late_discard(&mut self, frames: usize)
        ensures
            *final(self) == old(self).with_late_discard(frames as int),
    {
        if frames > 0 {
            self.late_decoded_frames_discarded =
            self.late_decoded_frames_discarded.wrapping_add(frames as u64);
        }
    }
}

/// Accounting for callbacks that found the mixer locked together is the same as one by one: the
/// account of one is that of a lock failure, its silent frames and its time, and accounts add up.
pub proof fn law_missed_callbacks_add_up(
    diagnostics: AudioRuntimeDiagnostics,
    earlier: MissedCallbacks,
    frames: u64,
    nanos: u64,
)
    requires
        earlier.count < u64::MAX,
        earlier.frames + frames <= u64::MAX,
        earlier.total_nanos + nanos <= u64::MAX,
    ensures
        diagnostics.with_missed(earlier).with_lock_failure().with_underrun(
            true,
            frames as int,
        ).with_callback(nanos) == diagnostics.with_missed(
            MissedCallbacks {
                count: (earlier.count + 1) as u64,
                frames: (earlier.frames + frames) as u64,
                total_nanos: (earlier.total_nanos + nanos) as u64,
                max_nanos: larger(earlier.max_nanos as int, nanos as int) as u64,
            },
        ),
        diagnostics.with_missed(
            MissedCallbacks { count: 0, frames: 0, total_nanos: 0, max_nanos: 0 },
        ) == diagnostics,
{
}

/// A callback counts as one, adds its time and is the longest where none was longer; nothing else of
/// the account changes with it.
pub proof fn law_callbacks_are_timed(diagnostics: AudioRuntimeDiagnostics, nanos: u64)
    ensures
        ({
            let before = diagnostics.output_callback_cpu_timing;
            let after = diagnostics.with_callback(nanos).output_callback_cpu_timing;
            &&& before.samples < u64::MAX ==> after.samples == before.samples + 1
            &&& before.samples == u64::MAX ==> after.samples == u64::MAX
            &&& before.total_nanos + nanos <= u64::MAX ==> after.total_nanos == before.total_nanos
                + nanos
            &&& before.total_nanos + nanos > u64::MAX ==> after.total_nanos == u64::MAX
            &&& after.max_nanos >= before.max_nanos && after.max_nanos >= nanos
            &&& after.max_nanos == before.max_nanos || after.max_nanos == nanos
            &&& diagnostics.with_callback(nanos).callback_lock_failures
                == diagnostics.callback_lock_failures
            &&& diagnostics.with_callback(nanos).underrun_device_frames
                == diagnostics.underrun_device_frames
            &&& diagnostics.with_callback(nanos).late_decoded_frames_discarded
                == diagnostics.late_decoded_frames_discarded
        }),
{
}

/// Lock failures, silent frames and late frames are each counted on their own, silent frames only
/// while something plays.
pub proof fn law_failures_are_counted_apart(diagnostics: AudioRuntimeDiagnostics, frames: u64)
    ensures
        ({
            let locked = diagnostics.with_lock_failure();
            let silent = diagnostics.with_underrun(true, frames as int);
            let paused = diagnostics.with_underrun(false, frames as int);
            let late = diagnostics.with_late_discard(frames as int);
            &&& diagnostics.callback_lock_failures < u64::MAX ==> locked.callback_lock_failures
                == diagnostics.callback_lock_failures + 1
            &&& locked.underrun_device_frames == diagnostics.underrun_device_frames
            &&& locked.late_decoded_frames_discarded == diagnostics.late_decoded_frames_discarded
            &&& locked.output_callback_cpu_timing == diagnostics.output_callback_cpu_timing
            &&& diagnostics.underrun_device_frames + frames <= u64::MAX
                ==> silent.underrun_device_frames == diagnostics.underrun_device_frames + frames
            &&& silent.callback_lock_failures == diagnostics.callback_lock_failures
            &&& silent.late_decoded_frames_discarded == diagnostics.late_decoded_frames_discarded
            &&& silent.output_callback_cpu_timing == diagnostics.output_callback_cpu_timing
            &&& paused == diagnostics
            &&& diagnostics.late_decoded_frames_discarded + frames <= u64::MAX
                ==> late.late_decoded_frames_discarded == diagnostics.late_decoded_frames_discarded
                + frames
            &&& late.underrun_device_frames == diagnostics.underrun_device_frames
            &&& late.callback_lock_failures == diagnostics.callback_lock_failures
            &&& late.output_callback_cpu_timing == diagnostics.output_callback_cpu_timing
        }),
        AudioRuntimeDiagnostics::none().callback_lock_failures == 0,
        AudioRuntimeDiagnostics::none().underrun_device_frames == 0,
        AudioRuntimeDiagnostics::none().late_decoded_frames_discarded == 0,
        AudioRuntimeDiagnostics::none().output_callback_cpu_timing.samples == 0,
{
}

/// A peak is the largest magnitude of its channel: it never falls, it is reached by every sample that
/// is a number, and it is one of them. A device frame is silent exactly where no lane contributed.
pub proof fn law_tally_keeps_peaks_and_silence(
    tally: CallbackTally,
    lanes: nat,
    left: Level,
    right: Level,
)
    requires
        tally.peak_left.bits <= 0x7F80_0000,
        tally.peak_right.bits <= 0x7F80_0000,
    ensures
        ({
            let after = tally.with_frame(lanes as int, left, right);
            let left_magnitude = left.bits % 0x8000_0000;
            let right_magnitude = right.bits % 0x8000_0000;
            &&& after.peak_left.bits >= tally.peak_left.bits
            &&& after.peak_right.bits >= tally.peak_right.bits
            &&& left_magnitude <= 0x7F80_0000 ==> after.peak_left.bits >= left_magnitude
            &&& right_magnitude <= 0x7F80_0000 ==> after.peak_right.bits >= right_magnitude
            &&& after.peak_left.bits == tally.peak_left.bits || after.peak_left.bits
                == left_magnitude
            &&& after.peak_right.bits == tally.peak_right.bits || after.peak_right.bits
                == right_magnitude
            &&& left_magnitude > 0x7F80_0000 ==> after.peak_left == tally.peak_left
            &&& right_magnitude > 0x7F80_0000 ==> after.peak_right == tally.peak_right
            &&& lanes > 0 ==> after.underrun_frames == tally.underrun_frames
            &&& lanes == 0 && tally.underrun_frames < usize::MAX ==> after.underrun_frames
                == tally.underrun_frames + 1
        }),
{
}

} // verus!

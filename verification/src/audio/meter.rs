//! Peak levels of what was played.
use crate::audio::target::{magnitude, Level};
use vstd::prelude::*;

verus! {

/// The pattern of one.
pub const FULL_SCALE_BITS: u32 = 0x3F80_0000;

/// The pattern from which on a magnitude is no finite number.
pub const INFINITE_BITS: u32 = 0x7F80_0000;

/// What a meter shows for a sample: its magnitude up to full scale, and silence for what is no
/// finite number. Patterns of magnitudes are ordered like the magnitudes.
pub open spec fn shown(sample: Level) -> Level {
    Level {
        bits: if magnitude(sample.bits) >= INFINITE_BITS {
            0
        } else if magnitude(sample.bits) > FULL_SCALE_BITS {
            FULL_SCALE_BITS
        } else {
            magnitude(sample.bits)
        },
    }
}

pub fn meter_value(sample: Level) -> (level: Level)
    ensures
        level == shown(sample),
{
    let bits: u32 = sample.bits % 0x8000_0000;
    if bits >= INFINITE_BITS {
        Level { bits: 0 }
    } else if bits > FULL_SCALE_BITS {
        Level { bits: FULL_SCALE_BITS }
    } else {
        Level { bits }
    }
}

/// The peaks of the two channels.
#[derive(Clone, Copy, Debug, PartialEq)]
pub struct AudioMeter {
    pub left: Level,
    pub right: Level,
}

impl AudioMeter {
    pub fn new() -> (meter: Self)
        ensures
            meter == (AudioMeter { left: Level { bits: 0 }, right: Level { bits: 0 } }),
    {
        AudioMeter { left: Level { bits: 0 }, right: Level { bits: 0 } }
    }

    pub fn store(&mut self, left: Level, right: Level)
        ensures
            *final(self) == (AudioMeter { left: shown(left), right: shown(right) }),
    {
        self.left = meter_value(left);
        self.right = meter_value(right);
    }

    pub fn load(&self) -> (levels: (Level, Level))
        ensures
            levels == (self.left, self.right),
    {
        (self.left, self.right)
    }

    pub fn clear(&mut self)
        ensures
            *final(self) == (AudioMeter { left: Level { bits: 0 }, right: Level { bits: 0 } }),
    {
        self.left = Level { bits: 0 };
        self.right = Level { bits: 0 };
    }
}

/// A meter always shows a finite level between silence and full scale, without a sign.
pub proof fn law_meter_is_sanitized(sample: Level)
    ensures
        shown(sample).bits <= FULL_SCALE_BITS,
        shown(shown(sample)) == shown(sample),
{
}

/// A meter shows the magnitude of a level up to full scale, which is one, and nothing for what is no
/// finite number; the sign makes no difference.
pub proof fn law_meter_shows_magnitudes(sample: Level)
    ensures
        ({
            let bits = sample.bits % 0x8000_0000;
            &&& bits <= 0x3F80_0000 ==> shown(sample).bits == bits
            &&& 0x3F80_0000 < bits < 0x7F80_0000 ==> shown(sample).bits == 0x3F80_0000
            &&& bits >= 0x7F80_0000 ==> shown(sample).bits == 0
        }),
{
}

/// What was stored is what is shown, each channel for itself, until the meter is cleared.
pub proof fn law_meter_shows_what_was_stored(
    storing: &mut AudioMeter,
    left: Level,
    right: Level,
    levels: (Level, Level),
    clearing: &mut AudioMeter,
)
    requires
        call_ensures(AudioMeter::store, (storing, left, right), ()),
        call_ensures(AudioMeter::load, (final(storing),), levels),
        call_ensures(AudioMeter::clear, (clearing,), ()),
        left.bits <= 0x3F80_0000,
        right.bits <= 0x3F80_0000,
    ensures
        levels.0.bits == left.bits,
        levels.1.bits == right.bits,
        final(clearing).left.bits == 0,
        final(clearing).right.bits == 0,
{
}

} // verus!

//! Live peak metering.
//!
//! One shared most-recent peak value in [0, `UNIT`], written by whichever
//! capture path is active and polled by status readers.  The single-device
//! engine stores the last buffer's maximum and decays it once per idle poll;
//! the multi-speaker receiver stores a per-tick maximum without decay.

use vstd::prelude::*;
use crate::sample::{abs_capped, amp_abs, UNIT};

verus! {

/// Peak level after which decay no longer applies (amplitudes this small
/// read as zero on a level display).
pub const DECAY_FLOOR: i32 = 1000;

/// The capped maximum absolute amplitude of a sample sequence.
pub open spec fn peak_of(s: Seq<i32>) -> int
    decreases s.len(),
{
    if s.len() == 0 {
        0
    } else {
        let rest = peak_of(s.drop_last());
        let last = if amp_abs(s.last() as int) > UNIT as int {
            UNIT as int
        } else {
            amp_abs(s.last() as int)
        };
        if last > rest {
            last
        } else {
            rest
        }
    }
}

/// The capped maximum absolute amplitude of one buffer.
pub fn buffer_peak(samples: &Vec<i32>) -> (r: i32)
    ensures
        r as int == peak_of(samples@),
        0 <= r <= UNIT,
{
    let mut peak: i32 = 0;
    let mut i: usize = 0;
    while i < samples.len()
        invariant
            0 <= i <= samples.len(),
            0 <= peak <= UNIT,
            peak as int == peak_of(samples@.take(i as int)),
        decreases samples.len() - i,
    {
        let a = abs_capped(samples[i]);
        if a > peak {
            peak = a;
        }
        proof {
            assert(samples@.take(i + 1).drop_last() =~= samples@.take(i as int));
            assert(samples@.take(i + 1).last() == samples@[i as int]);
        }
        i = i + 1;
    }
    proof {
        assert(samples@.take(samples@.len() as int) =~= samples@);
    }
    peak
}

/// The shared peak-level cell.
pub struct PeakMeter {
    level: i32,
}

impl PeakMeter {
    /// The meter's current level, in fixed-point amplitude units.
    pub closed spec fn spec_level(&self) -> int {
        self.level as int
    }

    /// The meter always reads inside [0, 1.0].
    pub closed spec fn wf(&self) -> bool {
        0 <= self.level <= UNIT
    }

    /// A fresh meter reads zero.
    pub fn new() -> (r: PeakMeter)
        ensures
            r.wf(),
            r.spec_level() == 0,
    {
        PeakMeter { level: 0 }
    }

    /// Non-blocking read of the current level.
    pub fn level(&self) -> (r: i32)
        ensures
            r as int == self.spec_level(),
    {
        self.level
    }

    /// Store a delivered buffer's peak, replacing the previous reading
    /// (last write wins; no aggregation across buffers).
    pub fn observe_buffer(&mut self, samples: &Vec<i32>)
        ensures
            final(self).wf(),
            final(self).spec_level() == peak_of(samples@),
    {
        self.level = buffer_peak(samples);
    }

    /// Store a reading computed elsewhere (the per-tick maximum across all
    /// speakers).
    pub fn set_level(&mut self, level: i32)
        requires
            0 <= level <= UNIT,
        ensures
            final(self).wf(),
            final(self).spec_level() == level as int,
    {
        self.level = level;
    }

    /// Raise the reading to a single sample's magnitude if it is louder
    /// (per-sample update used by the packet-drain capture path).
    pub fn observe_sample(&mut self, sample: i32)
        requires
            old(self).wf(),
        ensures
            final(self).wf(),
            final(self).spec_level() == if amp_abs(sample as int) > UNIT as int {
                UNIT as int
            } else if amp_abs(sample as int) > old(self).spec_level() {
                amp_abs(sample as int)
            } else {
                old(self).spec_level()
            },
    {
        let a = abs_capped(sample);
        if a > self.level {
            self.level = a;
        }
    }

    /// One idle-poll decay step: multiply by 0.95 (truncating), except that
    /// readings at or below `DECAY_FLOOR` are left alone.
    pub fn decay(&mut self)
        requires
            old(self).wf(),
        ensures
            final(self).wf(),
            final(self).spec_level() == if old(self).spec_level() > DECAY_FLOOR as int {
                (old(self).spec_level() * 95) / 100
            } else {
                old(self).spec_level()
            },
    {
        if self.level > DECAY_FLOOR {
            let scaled: u64 = ((self.level as u64) * 95) / 100;
            proof {
                vstd::arithmetic::div_mod::lemma_div_is_ordered(
                    (self.level as u64 * 95) as int,
                    95000000int,
                    100int,
                );
                vstd::arithmetic::div_mod::lemma_div_is_ordered(
                    0,
                    (self.level as u64 * 95) as int,
                    100int,
                );
            }
            self.level = scaled as i32;
        }
    }

    /// Reset to zero (done when capture stops).
    pub fn reset(&mut self)
        ensures
            final(self).wf(),
            final(self).spec_level() == 0,
    {
        self.level = 0;
    }
}

} // verus!

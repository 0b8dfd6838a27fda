//! The per-fixture ambient twinkle generator: an independent periodic
//! oscillator contributing a small brightness even while a fixture rests.
//!
//! Given the cumulative elapsed time `t`, the phase is
//! `(t + offset * duration) mod duration`; the raw oscillation is
//! `0.5 + 0.5 * cos(2 pi phase / duration)`, and the output is the raw
//! value raised to the fourth power, which sharpens the oscillation into
//! brief pulses. All values are fixed-point fractions of [`SCALE`]; the
//! cosine is the library's fixed-point sine shifted by a quarter turn.
use crate::ease::{lemma_div_le, sin_turn, sin_turn_s};
use crate::{is_brightness, SCALE};
use vstd::arithmetic::div_mod::{
    lemma_div_is_ordered, lemma_div_pos_is_pos, lemma_mod_multiples_vanish,
};
use vstd::arithmetic::mul::{lemma_mul_inequality, lemma_mul_upper_bound};
use vstd::prelude::*;

verus! {

/// A quarter turn on the fixed-point phase scale.
pub const QUARTER_TURN: u32 = 16384;

/// The phase of the oscillator at cumulative time `time`.
pub open spec fn twinkle_phase(time: int, offset: int, duration: int) -> int {
    (time + offset * duration) % duration
}

/// The twinkle output at a given phase: the sharpened (fourth-power)
/// raised cosine, on the fixed-point scale.
pub open spec fn twinkle_wave(phase: int, duration: int) -> int {
    let s: int = SCALE as int;
    let frac: int = (phase * s) / duration;
    let c: int = sin_turn_s((frac + QUARTER_TURN) % s);
    let raw: int = (s + c) / 2;
    let sq: int = (raw * raw) / s;
    (sq * sq) / s
}

/// One fixture's ambient oscillator. The period and phase offset are drawn
/// once at fixture creation; the brightness bounds are configuration kept
/// with the generator.
#[derive(Clone, Copy, Debug)]
pub struct Twinkle {
    /// Oscillation period in milliseconds; always positive.
    pub duration: u32,
    /// Phase offset, in whole periods.
    pub offset: u32,
    /// Configured lower brightness bound.
    pub min_brightness: u32,
    /// Configured upper brightness bound.
    pub max_brightness: u32,
    /// The output computed by the latest update.
    pub cur_brightness: u32,
}

impl Twinkle {
    /// The period is positive and every brightness is on the scale.
    pub open spec fn wf(self) -> bool {
        &&& self.duration > 0
        &&& is_brightness(self.min_brightness)
        &&& is_brightness(self.max_brightness)
        &&& is_brightness(self.cur_brightness)
    }

    /// Create a generator with output zero until the first update.
    pub fn new(duration: u32, offset: u32, min_brightness: u32, max_brightness: u32) -> (r:
        Twinkle)
        requires
            duration > 0,
            is_brightness(min_brightness),
            is_brightness(max_brightness),
        ensures
            r == (Twinkle { duration, offset, min_brightness, max_brightness, cur_brightness: 0 }),
            r.wf(),
    {
        Twinkle { duration, offset, min_brightness, max_brightness, cur_brightness: 0 }
    }

    /// Recompute the output for the cumulative elapsed time `time`.
    pub fn update(&mut self, time: u64)
        requires
            old(self).wf(),
        ensures
            *final(self) == (Twinkle {
                cur_brightness: final(self).cur_brightness,
                ..*old(self)
            }),
            final(self).cur_brightness == twinkle_wave(
                twinkle_phase(time as int, old(self).offset as int, old(self).duration as int),
                old(self).duration as int,
            ),
            final(self).wf(),
    {
        let sc: u64 = SCALE as u64;
        let dur: u64 = self.duration as u64;
        proof {
            lemma_mod_multiples_vanish(self.offset as int, time as int, self.duration as int);
            assert((self.duration as int) * (self.offset as int) == (self.offset as int) * (
            self.duration as int)) by (nonlinear_arith);
        }
        let phase: u64 = time % dur;
        proof {
            lemma_mul_inequality(phase as int, (self.duration - 1) as int, SCALE as int);
            lemma_div_is_ordered(
                (phase as int) * (SCALE as int),
                ((self.duration - 1) as int) * (SCALE as int),
                self.duration as int,
            );
            assert((((self.duration - 1) as int) * (SCALE as int)) / (self.duration as int) < (
            SCALE as int)) by (nonlinear_arith)
                requires
                    self.duration >= 1,
            ;
            lemma_div_pos_is_pos((phase as int) * (SCALE as int), self.duration as int);
        }
        let frac: u64 = (phase * sc) / dur;
        let shifted: u64 = (frac + QUARTER_TURN as u64) % sc;
        let c: i64 = sin_turn(shifted as u32);
        let lifted: u64 = ((SCALE as i64) + c) as u64;
        let raw: u64 = lifted / 2;
        proof {
            lemma_mul_upper_bound(raw as int, SCALE as int, raw as int, SCALE as int);
            lemma_div_le((raw as int) * (raw as int), SCALE as int, SCALE as int);
        }
        let sq: u64 = (raw * raw) / sc;
        proof {
            lemma_mul_upper_bound(sq as int, SCALE as int, sq as int, SCALE as int);
            lemma_div_le((sq as int) * (sq as int), SCALE as int, SCALE as int);
        }
        let out: u64 = (sq * sq) / sc;
        self.cur_brightness = out as u32;
    }

    /// The output computed by the latest update.
    pub fn get_brightness(&self) -> (r: u32)
        ensures
            r == self.cur_brightness,
    {
        self.cur_brightness
    }
}

} // verus!

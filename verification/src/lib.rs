//! Core logic for an array of light fixtures ("chimes") driven by software
//! triggers: per-fixture attack/release brightness envelopes with a library
//! of easing curves, spatial propagation of triggers with distance-scaled
//! delay and attenuation, an ambient twinkle overlay, and an Art-Net
//! protocol encoder with a gamma-correction lookup table.
//!
//! All fractional quantities (brightness, animation progress) are
//! fixed-point fractions of [`SCALE`]: a value `v` stands for the real
//! number `v / SCALE`. Times are in milliseconds.
use vstd::prelude::*;

pub mod animation;
pub mod artnet;
pub mod ease;
pub mod particles;
pub mod settings;
pub mod tether;
pub mod text;
pub mod transmission;
pub mod twinkle;

verus! {

/// The fixed-point unit: a value `v` in `0 ..= SCALE` stands for the real
/// fraction `v / SCALE`. The scale is chosen so that the 16-bit wire
/// encoding of a brightness is the brightness value itself, and so that
/// the unit is an exact multiple (257) of the 8-bit full-scale value 255.
pub const SCALE: u32 = 65535;

/// A brightness is a fixed-point fraction of full scale.
pub open spec fn is_brightness(b: u32) -> bool {
    b <= SCALE
}

/// Clamp an arbitrary value onto the brightness scale.
pub fn clamp_brightness(b: u32) -> (r: u32)
    ensures
        is_brightness(r),
        r == if b <= SCALE { b as int } else { SCALE as int },
{
    if b > SCALE {
        SCALE
    } else {
        b
    }
}

} // verus!

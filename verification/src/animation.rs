//! The envelope animator: advances by a time delta and reports an
//! interpolated brightness and completion.
//!
//! An animator holds a signed elapsed time; a negative elapsed time is a
//! pending delay before the animation visibly starts (the animator holds at
//! its start value and is not finished). Once the elapsed time is
//! non-negative, the progress is `clamp(elapsed / duration, 0, 1)` run
//! through the easing curve and mapped linearly into the start/end range;
//! the animation is finished once the elapsed time reaches the duration. A
//! zero duration finishes immediately at the end value, and advancing a
//! finished animator is legal and keeps reporting the end value.
use crate::ease::{ease_apply, ease_spec, EaseStyle};
use crate::{is_brightness, SCALE};
use vstd::arithmetic::div_mod::{lemma_div_is_ordered, lemma_div_pos_is_pos};
use vstd::arithmetic::mul::{lemma_mul_inequality, lemma_mul_upper_bound};
use vstd::prelude::*;

verus! {

/// One attack or release animation over a fixture's brightness.
#[derive(Clone, Copy, Debug)]
pub struct Animation {
    /// Elapsed time in milliseconds; negative while a start delay is pending.
    pub elapsed: i64,
    /// Total duration in milliseconds.
    pub duration: u32,
    /// Brightness at progress `0`.
    pub start_brightness: u32,
    /// Brightness at progress `1`.
    pub target_brightness: u32,
    /// The easing curve shaping the interpolation.
    pub style: EaseStyle,
}

/// Linear interpolation from `a` to `b` by the fraction `e / SCALE`.
pub open spec fn lerp_s(a: int, b: int, e: int) -> int {
    if b >= a {
        a + ((b - a) * e) / (SCALE as int)
    } else {
        a - ((a - b) * e) / (SCALE as int)
    }
}

impl Animation {
    /// Both endpoint brightness values are on the fixed-point scale.
    pub open spec fn wf(self) -> bool {
        is_brightness(self.start_brightness) && is_brightness(self.target_brightness)
    }

    /// The animation is finished once the elapsed time reaches the duration.
    pub open spec fn done(self) -> bool {
        self.elapsed >= self.duration
    }

    /// Progress on the fixed-point scale, for `0 <= elapsed < duration`.
    pub open spec fn progress(self) -> int {
        (self.elapsed * (SCALE as int)) / (self.duration as int)
    }

    /// The brightness the animator reports at its current elapsed time.
    pub open spec fn value(self) -> int {
        if self.elapsed < 0 {
            self.start_brightness as int
        } else if self.duration == 0 || self.elapsed >= self.duration {
            self.target_brightness as int
        } else {
            lerp_s(
                self.start_brightness as int,
                self.target_brightness as int,
                ease_spec(self.style, self.progress()),
            )
        }
    }

    /// The animator after one advance: the elapsed time grows by the delta,
    /// saturating at the largest representable time.
    pub open spec fn stepped(self, delta_time: u32) -> Animation {
        Animation {
            elapsed: if self.elapsed + delta_time <= i64::MAX {
                (self.elapsed + delta_time) as i64
            } else {
                i64::MAX
            },
            ..self
        }
    }

    /// Create an animator at elapsed time zero.
    pub fn new(
        duration: u32,
        start_brightness: u32,
        target_brightness: u32,
        style: EaseStyle,
    ) -> (r: Animation)
        requires
            is_brightness(start_brightness),
            is_brightness(target_brightness),
        ensures
            r == (Animation { elapsed: 0, duration, start_brightness, target_brightness, style }),
            r.wf(),
    {
        Animation { elapsed: 0, duration, start_brightness, target_brightness, style }
    }

    /// Set the elapsed time directly; a negative value delays the visible
    /// start of the animation, realizing a propagation delay.
    pub fn set_elapsed(&mut self, elapsed: i64)
        ensures
            *final(self) == (Animation { elapsed, ..*old(self) }),
    {
        self.elapsed = elapsed;
    }

    /// Advance by a time delta and report the current brightness and
    /// whether the animation is finished.
    pub fn get_brightness_and_done(&mut self, delta_time: u32) -> (r: (u32, bool))
        requires
            old(self).wf(),
        ensures
            *final(self) == old(self).stepped(delta_time),
            r.0 == final(self).value(),
            is_brightness(r.0),
            r.1 == final(self).done(),
            final(self).wf(),
    {
        let new_elapsed: i64 = if self.elapsed <= i64::MAX - delta_time as i64 {
            self.elapsed + delta_time as i64
        } else {
            i64::MAX
        };
        self.elapsed = new_elapsed;
        if self.elapsed < 0 {
            (self.start_brightness, false)
        } else if self.duration == 0 || self.elapsed >= self.duration as i64 {
            (self.target_brightness, true)
        } else {
            let e64: u64 = self.elapsed as u64;
            proof {
                lemma_mul_inequality(e64 as int, self.duration as int, SCALE as int);
                lemma_div_is_ordered(
                    e64 as int * (SCALE as int),
                    self.duration as int * (SCALE as int),
                    self.duration as int,
                );
                lemma_div_pos_is_pos(e64 as int * (SCALE as int), self.duration as int);
                vstd::arithmetic::div_mod::lemma_div_by_multiple(
                    SCALE as int,
                    self.duration as int,
                );
                assert(self.duration as int * (SCALE as int) == (SCALE as int) * (
                self.duration as int)) by (nonlinear_arith);
            }
            let prog64: u64 = (e64 * (SCALE as u64)) / (self.duration as u64);
            let prog: u32 = prog64 as u32;
            let eased: u32 = ease_apply(self.style, prog);
            let v: u32 = if self.target_brightness >= self.start_brightness {
                let diff: u64 = (self.target_brightness - self.start_brightness) as u64;
                proof {
                    lemma_mul_upper_bound(diff as int, diff as int, eased as int, SCALE as int);
                    crate::ease::lemma_div_le(
                        diff as int * (eased as int),
                        diff as int,
                        SCALE as int,
                    );
                }
                let add: u64 = (diff * (eased as u64)) / (SCALE as u64);
                self.start_brightness + (add as u32)
            } else {
                let diff: u64 = (self.start_brightness - self.target_brightness) as u64;
                proof {
                    lemma_mul_upper_bound(diff as int, diff as int, eased as int, SCALE as int);
                    crate::ease::lemma_div_le(
                        diff as int * (eased as int),
                        diff as int,
                        SCALE as int,
                    );
                }
                let sub: u64 = (diff * (eased as u64)) / (SCALE as u64);
                self.start_brightness - (sub as u32)
            };
            (v, false)
        }
    }
}

/// The pending release attached to an attack at trigger time.
#[derive(Clone, Copy, Debug)]
pub struct AfterAttack {
    /// Duration of the release that follows the attack.
    pub release_duration: u32,
    /// Resting brightness the release falls to.
    pub final_brightness: u32,
}

impl AfterAttack {
    /// The resting brightness is on the fixed-point scale.
    pub open spec fn wf(self) -> bool {
        is_brightness(self.final_brightness)
    }
}

/// The per-fixture envelope state: exactly one variant is active.
#[derive(Clone, Copy, Debug)]
pub enum EnvelopeStage {
    /// The attack animation to play, with the (optional) duration and final
    /// brightness of the release that follows it.
    AttackAnimation(Animation, Option<AfterAttack>),
    /// The release animation falling back to a resting brightness.
    ReleaseAnimation(Animation),
    /// No animation; brightness is supplied only by the twinkle overlay.
    Idle,
}

impl EnvelopeStage {
    /// Every animator and pending release held by the stage is well formed.
    pub open spec fn wf(self) -> bool {
        match self {
            EnvelopeStage::AttackAnimation(a, after) => a.wf() && match after {
                Some(aa) => aa.wf(),
                None => true,
            },
            EnvelopeStage::ReleaseAnimation(a) => a.wf(),
            EnvelopeStage::Idle => true,
        }
    }
}

// ---------------------------------------------------------------- the laws

/// The total of a sequence of time deltas.
pub open spec fn sum_deltas(ds: Seq<u32>) -> int
    decreases ds.len(),
{
    if ds.len() == 0 {
        0
    } else {
        sum_deltas(ds.drop_last()) + ds.last()
    }
}

/// The animator after being advanced through each delta in order.
pub open spec fn run_animation(a: Animation, ds: Seq<u32>) -> Animation
    decreases ds.len(),
{
    if ds.len() == 0 {
        a
    } else {
        run_animation(a, ds.drop_last()).stepped(ds.last())
    }
}

proof fn lemma_sum_nonneg(ds: Seq<u32>)
    ensures
        sum_deltas(ds) >= 0,
    decreases ds.len(),
{
    if ds.len() > 0 {
        lemma_sum_nonneg(ds.drop_last());
    }
}

/// A prefix of the deltas sums to no more than the whole.
proof fn lemma_sum_take_le(ds: Seq<u32>, i: int)
    requires
        0 <= i <= ds.len(),
    ensures
        sum_deltas(ds.take(i)) <= sum_deltas(ds),
    decreases ds.len() - i,
{
    if i == ds.len() {
        assert(ds.take(i) =~= ds);
    } else {
        assert(ds.take(i + 1).drop_last() =~= ds.take(i));
        assert(ds.take(i + 1).last() == ds[i]);
        lemma_sum_take_le(ds, i + 1);
    }
}

/// While the total stays representable, the run accumulates the deltas
/// exactly and changes nothing but the elapsed time.
proof fn lemma_run_elapsed(a: Animation, ds: Seq<u32>)
    requires
        a.elapsed + sum_deltas(ds) <= i64::MAX,
    ensures
        run_animation(a, ds).elapsed == a.elapsed + sum_deltas(ds),
        run_animation(a, ds) == (Animation {
            elapsed: run_animation(a, ds).elapsed,
            ..a
        }),
    decreases ds.len(),
{
    if ds.len() > 0 {
        lemma_run_elapsed(a, ds.drop_last());
    }
}

/// For a positive duration and deltas summing to exactly that duration,
/// the animator reports finished exactly from the tick where the
/// cumulative elapsed time first reaches the duration, and from that tick
/// on its value equals the end brightness exactly.
pub proof fn lemma_finishes_exactly_at_duration(a: Animation, ds: Seq<u32>)
    requires
        a.wf(),
        a.duration > 0,
        a.elapsed == 0,
        sum_deltas(ds) == a.duration as int,
    ensures
        run_animation(a, ds).done(),
        run_animation(a, ds).value() == a.target_brightness,
        forall|i: int|
            0 <= i <= ds.len() ==> (run_animation(a, ds.take(i)).done() <==> sum_deltas(
                ds.take(i),
            ) >= a.duration),
        forall|i: int|
            0 <= i <= ds.len() && sum_deltas(ds.take(i)) >= a.duration ==> run_animation(
                a,
                ds.take(i),
            ).value() == a.target_brightness,
{
    assert forall|i: int| 0 <= i <= ds.len() implies {
        &&& (run_animation(a, ds.take(i)).done() <==> sum_deltas(ds.take(i)) >= a.duration)
        &&& (sum_deltas(ds.take(i)) >= a.duration ==> run_animation(a, ds.take(i)).value()
            == a.target_brightness)
    } by {
        lemma_sum_take_le(ds, i);
        lemma_sum_nonneg(ds.take(i));
        lemma_run_elapsed(a, ds.take(i));
    }
    assert(ds.take(ds.len() as int) =~= ds);
    assert(sum_deltas(ds.take(ds.len() as int)) >= a.duration);
}

/// A zero-duration animation reports finished immediately, with its value
/// equal to the end brightness, on any advance.
pub proof fn lemma_zero_duration_finishes_immediately(a: Animation, delta_time: u32)
    requires
        a.wf(),
        a.duration == 0,
        a.elapsed >= 0,
    ensures
        a.stepped(delta_time).done(),
        a.stepped(delta_time).value() == a.target_brightness,
{
}

/// Advancing a finished animator is legal and idempotent: it stays
/// finished and keeps reporting the end value.
pub proof fn lemma_finished_is_stable(a: Animation, delta_time: u32)
    requires
        a.done(),
    ensures
        a.stepped(delta_time).done(),
        a.stepped(delta_time).value() == a.target_brightness,
        a.value() == a.target_brightness,
{
}

/// With a negative initial elapsed time (a pending delay), the animator
/// holds at its start value and is not finished, on every tick whose
/// cumulative delta has not yet consumed the delay.
pub proof fn lemma_delay_holds_start(a: Animation, ds: Seq<u32>)
    requires
        a.wf(),
        a.elapsed < 0,
    ensures
        forall|i: int|
            0 <= i <= ds.len() && a.elapsed + sum_deltas(ds.take(i)) < 0 ==> {
                &&& !run_animation(a, ds.take(i)).done()
                &&& run_animation(a, ds.take(i)).value() == a.start_brightness
            },
{
    assert forall|i: int|
        0 <= i <= ds.len() && a.elapsed + sum_deltas(ds.take(i)) < 0 implies {
        &&& !run_animation(a, ds.take(i)).done()
        &&& run_animation(a, ds.take(i)).value() == a.start_brightness
    } by {
        lemma_run_elapsed(a, ds.take(i));
    }
}

} // verus!

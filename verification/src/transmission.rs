//! The transmission planner: given a trigger at one fixture, decides which
//! other fixtures activate, with what target brightness and what start
//! delay, based on one-dimensional spatial distance.
//!
//! The directly triggered fixture activates with the full requested
//! brightness and no delay. Every other fixture within `max_range` receives
//! a target attenuated linearly with distance (no attenuation at distance
//! zero, full attenuation at `max_range`) and a delay growing linearly with
//! distance (zero at distance zero, `max_delay` at `max_range`) — and is
//! only activated if that target exceeds its current visible brightness,
//! so propagation never visibly dims a fixture.
use crate::animation::{AfterAttack, Animation, EnvelopeStage};
use crate::ease::{lemma_div_le, EaseStyle};
use crate::particles::Particle;
use crate::is_brightness;
use vstd::arithmetic::mul::{lemma_mul_inequality, lemma_mul_upper_bound};
use vstd::prelude::*;

verus! {

/// One-dimensional distance between two layout positions.
pub open spec fn distance_1d(a: u32, b: u32) -> int {
    if a >= b {
        a - b
    } else {
        b - a
    }
}

/// The propagated target brightness at `dist` from the trigger: the feed-in
/// brightness attenuated linearly from full at distance zero to nothing at
/// `max_range` (rounded down to the fixed-point grid).
pub open spec fn transmission_target(brightness: u32, dist: int, max_range: u32) -> int {
    ((brightness as int) * ((max_range as int) - dist)) / (max_range as int)
}

/// The propagation delay at `dist` from the trigger: growing linearly from
/// zero at distance zero to `max_delay` at `max_range` (rounded down to the
/// millisecond).
pub open spec fn transmission_delay(dist: int, max_range: u32, max_delay: u32) -> int {
    (dist * (max_delay as int)) / (max_range as int)
}

/// The fixture with a fresh attack installed: the animator rises from
/// `start_brightness` to `target_brightness` over `attack_duration`,
/// delayed by `delay` (encoded as a negative initial elapsed time), with
/// the release parameters attached for the hand-over.
pub open spec fn activated(
    p: Particle,
    attack_duration: u32,
    release_duration: u32,
    ease_style: EaseStyle,
    start_brightness: u32,
    target_brightness: u32,
    final_brightness: u32,
    delay: u32,
) -> Particle {
    Particle {
        animation: EnvelopeStage::AttackAnimation(
            Animation {
                elapsed: -(delay as int) as i64,
                duration: attack_duration,
                start_brightness,
                target_brightness,
                style: ease_style,
            },
            Some(AfterAttack { release_duration, final_brightness }),
        ),
        ..p
    }
}

/// Install a fresh attack on one fixture.
pub fn activate_single(
    p: &mut Particle,
    attack_duration: u32,
    release_duration: u32,
    ease_style: EaseStyle,
    start_brightness: u32,
    target_brightness: u32,
    final_brightness: u32,
    delay: u32,
)
    requires
        old(p).wf(),
        is_brightness(start_brightness),
        is_brightness(target_brightness),
        is_brightness(final_brightness),
    ensures
        *final(p) == activated(
            *old(p),
            attack_duration,
            release_duration,
            ease_style,
            start_brightness,
            target_brightness,
            final_brightness,
            delay,
        ),
        final(p).wf(),
{
    let mut attack: Animation = Animation::new(
        attack_duration,
        start_brightness,
        target_brightness,
        ease_style,
    );
    attack.set_elapsed(-(delay as i64));
    p.animation = EnvelopeStage::AttackAnimation(
        attack,
        Some(AfterAttack { release_duration, final_brightness }),
    );
}

/// Decide whether propagation reaches a fixture at the given distance: the
/// attenuated target is returned only when it exceeds the fixture's current
/// visible brightness.
pub fn possibly_activate_by_transmission(
    p: &Particle,
    distance: u32,
    max_range: u32,
    feed_in_brightness: u32,
) -> (r: Option<u32>)
    requires
        p.wf(),
        max_range > 0,
        distance <= max_range,
        is_brightness(feed_in_brightness),
    ensures
        r is Some <==> transmission_target(feed_in_brightness, distance as int, max_range)
            > p.effective_spec(),
        r matches Some(t) ==> t == transmission_target(
            feed_in_brightness,
            distance as int,
            max_range,
        ) && is_brightness(t),
{
    proof {
        lemma_mul_upper_bound(
            feed_in_brightness as int,
            feed_in_brightness as int,
            (max_range - distance) as int,
            u32::MAX as int,
        );
        lemma_mul_upper_bound(
            feed_in_brightness as int,
            feed_in_brightness as int,
            (max_range - distance) as int,
            max_range as int,
        );
        lemma_div_le(
            (feed_in_brightness as int) * ((max_range - distance) as int),
            feed_in_brightness as int,
            max_range as int,
        );
    }
    let target64: u64 = ((feed_in_brightness as u64) * ((max_range - distance) as u64)) / (
    max_range as u64);
    let target_brightness: u32 = target64 as u32;
    let current_brightness: u32 = p.brightness();
    if target_brightness > current_brightness {
        Some(target_brightness)
    } else {
        None
    }
}

/// What the plan makes of one fixture: the main target is re-triggered at
/// the requested brightness with no delay; any other fixture within range
/// whose attenuated target exceeds its visible brightness is activated with
/// the distance-scaled target and delay; every other fixture is untouched.
/// Every installed attack starts from the fixture's visible brightness at
/// plan time, so interruption is seamless.
pub open spec fn planned_particle(
    p: Particle,
    main_target_id: usize,
    main_x: u32,
    brightness: u32,
    final_brightness: u32,
    attack_duration: u32,
    release_duration: u32,
    max_range: u32,
    max_delay: u32,
    style: EaseStyle,
) -> Particle {
    if p.id == main_target_id {
        activated(
            p,
            attack_duration,
            release_duration,
            style,
            p.effective_spec() as u32,
            brightness,
            final_brightness,
            0,
        )
    } else {
        let dist = distance_1d(main_x, p.position_x);
        if dist > max_range {
            p
        } else if transmission_target(brightness, dist, max_range) > p.effective_spec() {
            activated(
                p,
                attack_duration,
                release_duration,
                style,
                p.effective_spec() as u32,
                transmission_target(brightness, dist, max_range) as u32,
                final_brightness,
                transmission_delay(dist, max_range, max_delay) as u32,
            )
        } else {
            p
        }
    }
}

/// Plan and install a trigger across the whole fixture array.
pub fn trigger_activation(
    particles: &mut Vec<Particle>,
    main_target_id: usize,
    main_x: u32,
    brightness: u32,
    final_brightness: u32,
    attack_duration: u32,
    release_duration: u32,
    max_range: u32,
    max_delay: u32,
    style: EaseStyle,
)
    requires
        max_range > 0,
        is_brightness(brightness),
        is_brightness(final_brightness),
        forall|i: int| 0 <= i < old(particles)@.len() ==> (#[trigger] old(particles)@[i]).wf(),
    ensures
        final(particles)@.len() == old(particles)@.len(),
        forall|i: int|
            0 <= i < old(particles)@.len() ==> final(particles)@[i] == planned_particle(
                #[trigger] old(particles)@[i],
                main_target_id,
                main_x,
                brightness,
                final_brightness,
                attack_duration,
                release_duration,
                max_range,
                max_delay,
                style,
            ),
        forall|i: int| 0 <= i < final(particles)@.len() ==> (#[trigger] final(particles)@[i]).wf(),
{
    let n: usize = particles.len();
    let mut idx: usize = 0;
    while idx < n
        invariant
            n == particles@.len(),
            n == old(particles)@.len(),
            idx <= n,
            max_range > 0,
            is_brightness(brightness),
            is_brightness(final_brightness),
            forall|i: int| idx <= i < n ==> particles@[i] == old(particles)@[i],
            forall|i: int| 0 <= i < n ==> (#[trigger] old(particles)@[i]).wf(),
            forall|i: int|
                0 <= i < idx ==> particles@[i] == planned_particle(
                    #[trigger] old(particles)@[i],
                    main_target_id,
                    main_x,
                    brightness,
                    final_brightness,
                    attack_duration,
                    release_duration,
                    max_range,
                    max_delay,
                    style,
                ),
            forall|i: int| 0 <= i < idx ==> (#[trigger] particles@[i]).wf(),
        decreases n - idx,
    {
        let p: Particle = particles[idx];
        if p.id == main_target_id {
            let start_brightness: u32 = p.brightness();
            let mut q: Particle = p;
            activate_single(
                &mut q,
                attack_duration,
                release_duration,
                style,
                start_brightness,
                brightness,
                final_brightness,
                0,
            );
            particles[idx] = q;
        } else {
            let dist: u32 = if main_x >= p.position_x {
                main_x - p.position_x
            } else {
                p.position_x - main_x
            };
            if dist <= max_range {
                match possibly_activate_by_transmission(&p, dist, max_range, brightness) {
                    Some(new_brightness_target) => {
                        let start_brightness: u32 = p.brightness();
                        proof {
                            lemma_mul_upper_bound(
                                dist as int,
                                u32::MAX as int,
                                max_delay as int,
                                u32::MAX as int,
                            );
                            lemma_mul_inequality(dist as int, max_range as int, max_delay as int);
                            assert((max_range as int) * (max_delay as int) == (max_delay as int) * (
                            max_range as int)) by (nonlinear_arith);
                            lemma_div_le(
                                (dist as int) * (max_delay as int),
                                max_delay as int,
                                max_range as int,
                            );
                        }
                        let delay64: u64 = ((dist as u64) * (max_delay as u64)) / (
                        max_range as u64);
                        let mut q: Particle = p;
                        activate_single(
                            &mut q,
                            attack_duration,
                            release_duration,
                            style,
                            start_brightness,
                            new_brightness_target,
                            final_brightness,
                            delay64 as u32,
                        );
                        particles[idx] = q;
                    },
                    None => {},
                }
            }
        }
        idx += 1;
    }
}

/// Resolve a pointer press to a fixture by one-dimensional proximity
/// (within twice the configured chime thickness) and, when one answers and
/// pointer control is enabled, trigger it at the configured pointer
/// brightness. Reports whether a fixture was triggered.
pub fn apply_pointer_trigger(
    particles: &mut Vec<Particle>,
    pointer_x: u32,
    settings: &crate::settings::Settings,
) -> (r: bool)
    requires
        settings.wf(),
        forall|i: int| 0 <= i < old(particles)@.len() ==> (#[trigger] old(particles)@[i]).wf(),
    ensures
        final(particles)@.len() == old(particles)@.len(),
        !settings.mouse_enable ==> !r && *final(particles) == *old(particles),
        settings.mouse_enable ==> (r <==> old(particles)@.len() > 0 && crate::particles::near_position(
            old(particles)@[crate::particles::nearest_index(old(particles)@, pointer_x)],
            pointer_x,
            (2 * settings.chime_thickness) as u32,
        )),
        !r ==> *final(particles) == *old(particles),
        r ==> ({
            let fm = crate::particles::nearest_index(old(particles)@, pointer_x);
            forall|i: int|
                0 <= i < old(particles)@.len() ==> final(particles)@[i] == planned_particle(
                    #[trigger] old(particles)@[i],
                    old(particles)@[fm].id,
                    old(particles)@[fm].position_x,
                    settings.mouse_brightness_value,
                    settings.resting_brightness,
                    settings.attack_settings.duration,
                    settings.release_settings.duration,
                    settings.transmission_settings.max_range,
                    settings.transmission_settings.max_delay,
                    settings.attack_settings.style,
                )
        }),
        forall|i: int| 0 <= i < final(particles)@.len() ==> (#[trigger] final(particles)@[i]).wf(),
{
    if !settings.mouse_enable {
        return false;
    }
    let tolerance: u32 = 2 * settings.chime_thickness;
    match crate::particles::find_fixture_near(particles, pointer_x, tolerance) {
        Some(target_index) => {
            proof {
                crate::particles::lemma_nearest_index(particles@, pointer_x);
            }
            let main_id: usize = particles[target_index].id;
            let main_x: u32 = particles[target_index].position_x;
            trigger_activation(
                particles,
                main_id,
                main_x,
                settings.mouse_brightness_value,
                settings.resting_brightness,
                settings.attack_settings.duration,
                settings.release_settings.duration,
                settings.transmission_settings.max_range,
                settings.transmission_settings.max_delay,
                settings.attack_settings.style,
            );
            true
        },
        None => false,
    }
}

// ---------------------------------------------------------------- the laws

/// Propagation never visibly dims a fixture: a fixture other than the main
/// target whose attenuated target does not exceed its current visible
/// brightness — or which lies out of range — is left exactly as it was.
pub proof fn lemma_transmission_monotonicity(
    p: Particle,
    main_target_id: usize,
    main_x: u32,
    brightness: u32,
    final_brightness: u32,
    attack_duration: u32,
    release_duration: u32,
    max_range: u32,
    max_delay: u32,
    style: EaseStyle,
)
    requires
        p.id != main_target_id,
        distance_1d(main_x, p.position_x) > max_range || transmission_target(
            brightness,
            distance_1d(main_x, p.position_x),
            max_range,
        ) <= p.effective_spec(),
    ensures
        planned_particle(
            p,
            main_target_id,
            main_x,
            brightness,
            final_brightness,
            attack_duration,
            release_duration,
            max_range,
            max_delay,
            style,
        ) == p,
{
}

/// Every attack the plan installs starts exactly at the fixture's visible
/// brightness before the trigger, so a re-trigger mid-attack or mid-release
/// causes no brightness discontinuity.
pub proof fn lemma_retrigger_continuity(
    p: Particle,
    main_target_id: usize,
    main_x: u32,
    brightness: u32,
    final_brightness: u32,
    attack_duration: u32,
    release_duration: u32,
    max_range: u32,
    max_delay: u32,
    style: EaseStyle,
)
    requires
        p.wf(),
    ensures
        ({
            let q = planned_particle(
                p,
                main_target_id,
                main_x,
                brightness,
                final_brightness,
                attack_duration,
                release_duration,
                max_range,
                max_delay,
                style,
            );
            q == p || (q.animation matches EnvelopeStage::AttackAnimation(a, _)
                && a.start_brightness == p.effective_spec())
        }),
{
}

/// Distance-linearity: at exactly half the transmission range, a fixture
/// receives exactly half the delay and half the feed-in brightness (stated
/// for even values, where the fixed-point grid divides exactly).
pub proof fn lemma_distance_linearity(brightness: u32, max_range: u32, max_delay: u32, dist: int)
    requires
        max_range > 0,
        2 * dist == max_range,
        brightness % 2 == 0,
        max_delay % 2 == 0,
    ensures
        transmission_target(brightness, dist, max_range) == brightness / 2,
        transmission_delay(dist, max_range, max_delay) == max_delay / 2,
{
    let b: int = brightness as int;
    let m: int = max_delay as int;
    let r: int = max_range as int;
    assert(b * (r - dist) == (b / 2) * r) by (nonlinear_arith)
        requires
            2 * dist == r,
            b % 2 == 0,
    ;
    vstd::arithmetic::div_mod::lemma_div_by_multiple(b / 2, r);
    assert(dist * m == (m / 2) * r) by (nonlinear_arith)
        requires
            2 * dist == r,
            m % 2 == 0,
    ;
    vstd::arithmetic::div_mod::lemma_div_by_multiple(m / 2, r);
}

} // verus!

//! Fixtures ("particles"): identity, layout position, the brightness
//! accumulator, the envelope stage, and the per-fixture twinkle generator,
//! together with the per-tick state machine step.
//!
//! A fixture's externally visible brightness is the maximum of its twinkle
//! output and its envelope brightness: the twinkle never dims an actively
//! animating fixture, it only lifts a resting fixture above pure black.
use crate::animation::{Animation, EnvelopeStage};
use crate::ease::EaseStyle;
use crate::twinkle::Twinkle;
use crate::{is_brightness, SCALE};
use vstd::arithmetic::mul::lemma_mul_inequality;
use vstd::prelude::*;
use vstd::seq_lib::group_to_multiset_ensures;

verus! {

/// Configured lower twinkle brightness bound (0.002 of full scale).
pub const TWINKLE_MIN_BRIGHTNESS: u32 = 131;

/// Configured upper twinkle brightness bound (0.04 of full scale).
pub const TWINKLE_MAX_BRIGHTNESS: u32 = 2621;

/// One light fixture.
#[derive(Clone, Copy, Debug)]
pub struct Particle {
    /// Stable hardware channel index.
    pub id: usize,
    /// Position index used for layout and optional alternate addressing.
    pub order: usize,
    /// Spatial x-coordinate, in layout units.
    pub position_x: u32,
    /// The envelope's brightness accumulator, owned by this fixture.
    pub brightness: u32,
    /// The envelope stage; exactly one variant is active.
    pub animation: EnvelopeStage,
    /// The independent ambient twinkle generator.
    pub twinkler: Twinkle,
}

impl Particle {
    /// The accumulator is on the brightness scale and every held animator
    /// and generator is well formed.
    pub open spec fn wf(self) -> bool {
        &&& is_brightness(self.brightness)
        &&& self.animation.wf()
        &&& self.twinkler.wf()
    }

    /// The externally visible brightness: the envelope brightness lifted by
    /// the twinkle output.
    pub open spec fn effective_spec(self) -> int {
        if self.twinkler.cur_brightness > self.brightness {
            self.twinkler.cur_brightness as int
        } else {
            self.brightness as int
        }
    }

    /// Create a fixture at rest.
    pub fn new(
        id: usize,
        order: usize,
        position_x: u32,
        twinkle_duration: u32,
        twinkle_offset: u32,
    ) -> (r: Particle)
        requires
            twinkle_duration > 0,
        ensures
            r == (Particle {
                id,
                order,
                position_x,
                brightness: 0u32,
                animation: EnvelopeStage::Idle,
                twinkler: Twinkle {
                    duration: twinkle_duration,
                    offset: twinkle_offset,
                    min_brightness: TWINKLE_MIN_BRIGHTNESS,
                    max_brightness: TWINKLE_MAX_BRIGHTNESS,
                    cur_brightness: 0u32,
                },
            }),
            r.wf(),
    {
        Particle {
            id,
            order,
            position_x,
            brightness: 0,
            animation: EnvelopeStage::Idle,
            twinkler: Twinkle::new(
                twinkle_duration,
                twinkle_offset,
                TWINKLE_MIN_BRIGHTNESS,
                TWINKLE_MAX_BRIGHTNESS,
            ),
        }
    }

    /// The externally visible brightness.
    pub fn brightness(&self) -> (r: u32)
        requires
            self.wf(),
        ensures
            r == self.effective_spec(),
            is_brightness(r),
    {
        let tb: u32 = self.twinkler.get_brightness();
        if tb > self.brightness {
            tb
        } else {
            self.brightness
        }
    }

    /// Overwrite the envelope brightness accumulator.
    pub fn set_brightness(&mut self, new_value: u32)
        requires
            is_brightness(new_value),
        ensures
            *final(self) == (Particle { brightness: new_value, ..*old(self) }),
    {
        self.brightness = new_value;
    }

    /// Recompute the twinkle output for the cumulative elapsed time.
    pub fn twinkle(&mut self, time: u64)
        requires
            old(self).wf(),
        ensures
            *final(self) == (Particle { twinkler: final(self).twinkler, ..*old(self) }),
            final(self).twinkler == (Twinkle {
                cur_brightness: final(self).twinkler.cur_brightness,
                ..old(self).twinkler
            }),
            final(self).twinkler.cur_brightness == crate::twinkle::twinkle_wave(
                crate::twinkle::twinkle_phase(
                    time as int,
                    old(self).twinkler.offset as int,
                    old(self).twinkler.duration as int,
                ),
                old(self).twinkler.duration as int,
            ),
            final(self).wf(),
    {
        self.twinkler.update(time);
    }

    /// The fixture after one tick of the envelope state machine.
    ///
    /// An attack that finishes hands over to a release whose start value is
    /// the fixture's visible brightness at the moment of transition and
    /// whose duration and resting brightness come from the attack's pending
    /// release if it carries one, else from the given fallback settings. A
    /// release that finishes hands over to the idle stage.
    pub open spec fn animate_spec(
        self,
        delta_time: u32,
        release_duration: u32,
        resting_brightness: u32,
        release_style: EaseStyle,
    ) -> Particle {
        match self.animation {
            EnvelopeStage::AttackAnimation(a, after) => {
                let a2 = a.stepped(delta_time);
                if a2.done() {
                    let rd = match after {
                        Some(aa) => aa.release_duration,
                        None => release_duration,
                    };
                    let fb = match after {
                        Some(aa) => aa.final_brightness,
                        None => resting_brightness,
                    };
                    Particle {
                        animation: EnvelopeStage::ReleaseAnimation(
                            Animation {
                                elapsed: 0,
                                duration: rd,
                                start_brightness: self.effective_spec() as u32,
                                target_brightness: fb,
                                style: release_style,
                            },
                        ),
                        ..self
                    }
                } else {
                    Particle {
                        brightness: a2.value() as u32,
                        animation: EnvelopeStage::AttackAnimation(a2, after),
                        ..self
                    }
                }
            },
            EnvelopeStage::ReleaseAnimation(a) => {
                let a2 = a.stepped(delta_time);
                if a2.done() {
                    Particle {
                        brightness: a2.value() as u32,
                        animation: EnvelopeStage::Idle,
                        ..self
                    }
                } else {
                    Particle {
                        brightness: a2.value() as u32,
                        animation: EnvelopeStage::ReleaseAnimation(a2),
                        ..self
                    }
                }
            },
            EnvelopeStage::Idle => self,
        }
    }

    /// Advance the envelope state machine by one tick.
    pub fn animate(
        &mut self,
        delta_time: u32,
        release_duration: u32,
        resting_brightness: u32,
        release_style: EaseStyle,
    )
        requires
            old(self).wf(),
            is_brightness(resting_brightness),
        ensures
            *final(self) == old(self).animate_spec(
                delta_time,
                release_duration,
                resting_brightness,
                release_style,
            ),
            final(self).wf(),
    {
        match self.animation {
            EnvelopeStage::AttackAnimation(a, after) => {
                let mut a2: Animation = a;
                let (value, done) = a2.get_brightness_and_done(delta_time);
                if done {
                    let (rd, fb): (u32, u32) = match after {
                        Some(aa) => (aa.release_duration, aa.final_brightness),
                        None => (release_duration, resting_brightness),
                    };
                    let start: u32 = self.brightness();
                    self.animation = EnvelopeStage::ReleaseAnimation(
                        Animation::new(rd, start, fb, release_style),
                    );
                } else {
                    self.brightness = value;
                    self.animation = EnvelopeStage::AttackAnimation(a2, after);
                }
            },
            EnvelopeStage::ReleaseAnimation(a) => {
                let mut a2: Animation = a;
                let (value, done) = a2.get_brightness_and_done(delta_time);
                self.brightness = value;
                if done {
                    self.animation = EnvelopeStage::Idle;
                } else {
                    self.animation = EnvelopeStage::ReleaseAnimation(a2);
                }
            },
            EnvelopeStage::Idle => {},
        }
    }
}

/// Advance every fixture's envelope state machine by one tick. Within a
/// tick the order is fixed: pending triggers are drained first, then this
/// pass runs, then the encoder is invoked.
pub fn advance_all(
    particles: &mut Vec<Particle>,
    delta_time: u32,
    release_duration: u32,
    resting_brightness: u32,
    release_style: EaseStyle,
)
    requires
        forall|i: int| 0 <= i < old(particles)@.len() ==> (#[trigger] old(particles)@[i]).wf(),
        is_brightness(resting_brightness),
    ensures
        final(particles)@.len() == old(particles)@.len(),
        forall|i: int|
            0 <= i < old(particles)@.len() ==> final(particles)@[i] == (
            #[trigger] old(particles)@[i]).animate_spec(
                delta_time,
                release_duration,
                resting_brightness,
                release_style,
            ),
        forall|i: int| 0 <= i < final(particles)@.len() ==> (#[trigger] final(particles)@[i]).wf(),
{
    let n: usize = particles.len();
    let mut idx: usize = 0;
    while idx < n
        invariant
            n == particles@.len(),
            n == old(particles)@.len(),
            idx <= n,
            forall|i: int| idx <= i < n ==> particles@[i] == old(particles)@[i],
            forall|i: int| 0 <= i < n ==> (#[trigger] old(particles)@[i]).wf(),
            is_brightness(resting_brightness),
            forall|i: int|
                0 <= i < idx ==> particles@[i] == (#[trigger] old(particles)@[i]).animate_spec(
                    delta_time,
                    release_duration,
                    resting_brightness,
                    release_style,
                ),
            forall|i: int| 0 <= i < idx ==> (#[trigger] particles@[i]).wf(),
        decreases n - idx,
    {
        let mut q: Particle = particles[idx];
        q.animate(delta_time, release_duration, resting_brightness, release_style);
        particles[idx] = q;
        idx += 1;
    }
}

/// Recompute every fixture's twinkle output for the cumulative elapsed
/// time.
pub fn twinkle_all(particles: &mut Vec<Particle>, time: u64)
    requires
        forall|i: int| 0 <= i < old(particles)@.len() ==> (#[trigger] old(particles)@[i]).wf(),
    ensures
        final(particles)@.len() == old(particles)@.len(),
        forall|i: int|
            0 <= i < old(particles)@.len() ==> {
                let p = #[trigger] old(particles)@[i];
                final(particles)@[i] == (Particle {
                    twinkler: Twinkle {
                        cur_brightness: (crate::twinkle::twinkle_wave(
                            crate::twinkle::twinkle_phase(
                                time as int,
                                p.twinkler.offset as int,
                                p.twinkler.duration as int,
                            ),
                            p.twinkler.duration as int,
                        )) as u32,
                        ..p.twinkler
                    },
                    ..p
                })
            },
        forall|i: int| 0 <= i < final(particles)@.len() ==> (#[trigger] final(particles)@[i]).wf(),
{
    let n: usize = particles.len();
    let mut idx: usize = 0;
    while idx < n
        invariant
            n == particles@.len(),
            n == old(particles)@.len(),
            idx <= n,
            forall|i: int| idx <= i < n ==> particles@[i] == old(particles)@[i],
            forall|i: int| 0 <= i < n ==> (#[trigger] old(particles)@[i]).wf(),
            forall|i: int|
                0 <= i < idx ==> {
                    let p = #[trigger] old(particles)@[i];
                    particles@[i] == (Particle {
                        twinkler: Twinkle {
                            cur_brightness: (crate::twinkle::twinkle_wave(
                                crate::twinkle::twinkle_phase(
                                    time as int,
                                    p.twinkler.offset as int,
                                    p.twinkler.duration as int,
                                ),
                                p.twinkler.duration as int,
                            )) as u32,
                            ..p.twinkler
                        },
                        ..p
                    })
                },
            forall|i: int| 0 <= i < idx ==> (#[trigger] particles@[i]).wf(),
        decreases n - idx,
    {
        let mut q: Particle = particles[idx];
        q.twinkle(time);
        particles[idx] = q;
        idx += 1;
    }
}

// ----------------------------------------------------------------- queries

/// Whether a fixture answers to a trigger key, by raw id or by order index.
pub open spec fn matches_key(p: Particle, key: usize, by_order: bool) -> bool {
    if by_order {
        p.order == key
    } else {
        p.id == key
    }
}

/// The index of the first fixture answering to the key, or the length of
/// the sequence if none does.
pub open spec fn first_match(particles: Seq<Particle>, key: usize, by_order: bool) -> int
    decreases particles.len(),
{
    if particles.len() == 0 {
        0
    } else if matches_key(particles.first(), key, by_order) {
        0
    } else {
        1 + first_match(particles.drop_first(), key, by_order)
    }
}

/// What `first_match` finds: a bounded index holding the first match.
pub proof fn lemma_first_match(particles: Seq<Particle>, key: usize, by_order: bool)
    ensures
        0 <= first_match(particles, key, by_order) <= particles.len(),
        first_match(particles, key, by_order) < particles.len() ==> matches_key(
            particles[first_match(particles, key, by_order)],
            key,
            by_order,
        ),
        forall|j: int|
            0 <= j < first_match(particles, key, by_order) ==> !matches_key(
                #[trigger] particles[j],
                key,
                by_order,
            ),
    decreases particles.len(),
{
    if particles.len() > 0 && !matches_key(particles.first(), key, by_order) {
        lemma_first_match(particles.drop_first(), key, by_order);
        assert forall|j: int|
            0 <= j < first_match(particles, key, by_order) implies !matches_key(
            particles[j],
            key,
            by_order,
        ) by {
            if j > 0 {
                assert(particles.drop_first()[j - 1] == particles[j]);
                assert(!matches_key(particles.drop_first()[j - 1], key, by_order));
            }
        }
    }
}

/// Find the first fixture answering to the key, by raw id or by order
/// index.
pub fn find_fixture_index(particles: &Vec<Particle>, key: usize, by_order: bool) -> (r: Option<
    usize,
>)
    ensures
        r is Some <==> first_match(particles@, key, by_order) < particles@.len(),
        r matches Some(i) ==> i == first_match(particles@, key, by_order),
{
    proof {
        lemma_first_match(particles@, key, by_order);
    }
    let ghost fm: int = first_match(particles@, key, by_order);
    let n: usize = particles.len();
    let mut i: usize = 0;
    while i < n
        invariant
            i <= n,
            n == particles@.len(),
            fm == first_match(particles@, key, by_order),
            0 <= fm <= n,
            fm < n ==> matches_key(particles@[fm], key, by_order),
            forall|j: int| 0 <= j < fm ==> !matches_key(#[trigger] particles@[j], key, by_order),
            forall|j: int| 0 <= j < i ==> !matches_key(#[trigger] particles@[j], key, by_order),
        decreases n - i,
    {
        let hit: bool = if by_order {
            particles[i].order == key
        } else {
            particles[i].id == key
        };
        if hit {
            proof {
                if fm < i {
                    assert(!matches_key(particles@[fm], key, by_order));
                }
                if fm > i {
                    assert(!matches_key(particles@[i as int], key, by_order));
                }
            }
            return Some(i);
        }
        i += 1;
    }
    proof {
        if fm < n {
            assert(!matches_key(particles@[fm], key, by_order));
        }
    }
    None
}

/// Whether a pointer position falls on a fixture, within the tolerance.
pub open spec fn near_position(p: Particle, x: u32, tolerance: u32) -> bool {
    p.position_x - tolerance <= x as int <= p.position_x + tolerance
}

/// One-dimensional distance between a pointer position and a fixture.
pub open spec fn pointer_distance(p: Particle, x: u32) -> int {
    if x >= p.position_x {
        x - p.position_x
    } else {
        p.position_x - x
    }
}

/// The index of the fixture nearest to a pointer position (the first one,
/// on ties); `0` for an empty sequence.
pub open spec fn nearest_index(particles: Seq<Particle>, x: u32) -> int
    decreases particles.len(),
{
    if particles.len() <= 1 {
        0
    } else {
        let rest = 1 + nearest_index(particles.drop_first(), x);
        if pointer_distance(particles[0], x) <= pointer_distance(particles[rest], x) {
            0
        } else {
            rest
        }
    }
}

/// What `nearest_index` finds: the first index at the minimal distance.
pub proof fn lemma_nearest_index(particles: Seq<Particle>, x: u32)
    requires
        particles.len() > 0,
    ensures
        0 <= nearest_index(particles, x) < particles.len(),
        forall|j: int|
            0 <= j < particles.len() ==> pointer_distance(
                particles[nearest_index(particles, x)],
                x,
            ) <= pointer_distance(#[trigger] particles[j], x),
        forall|j: int|
            0 <= j < nearest_index(particles, x) ==> pointer_distance(
                particles[nearest_index(particles, x)],
                x,
            ) < pointer_distance(#[trigger] particles[j], x),
    decreases particles.len(),
{
    if particles.len() > 1 {
        lemma_nearest_index(particles.drop_first(), x);
        let ni = nearest_index(particles, x);
        assert forall|j: int|
            0 <= j < particles.len() implies pointer_distance(particles[ni], x)
            <= pointer_distance(particles[j], x) by {
            if j > 0 {
                assert(particles.drop_first()[j - 1] == particles[j]);
                assert(pointer_distance(
                    particles.drop_first()[nearest_index(particles.drop_first(), x)],
                    x,
                ) <= pointer_distance(particles.drop_first()[j - 1], x));
            }
        }
        assert forall|j: int|
            0 <= j < ni implies pointer_distance(particles[ni], x) < pointer_distance(
            particles[j],
            x,
        ) by {
            if j > 0 {
                assert(particles.drop_first()[j - 1] == particles[j]);
                assert(pointer_distance(
                    particles.drop_first()[nearest_index(particles.drop_first(), x)],
                    x,
                ) < pointer_distance(particles.drop_first()[j - 1], x));
            }
        }
    }
}

/// Resolve a pointer position to the nearest fixture by one-dimensional
/// proximity, provided that fixture lies within the tolerance.
pub fn find_fixture_near(particles: &Vec<Particle>, x: u32, tolerance: u32) -> (r: Option<usize>)
    ensures
        r is Some <==> particles@.len() > 0 && near_position(
            particles@[nearest_index(particles@, x)],
            x,
            tolerance,
        ),
        r matches Some(i) ==> i == nearest_index(particles@, x),
{
    let n: usize = particles.len();
    if n == 0 {
        return None;
    }
    proof {
        lemma_nearest_index(particles@, x);
    }
    let ghost ni: int = nearest_index(particles@, x);
    let mut best: usize = 0;
    let mut best_distance: u32 = if x >= particles[0].position_x {
        x - particles[0].position_x
    } else {
        particles[0].position_x - x
    };
    let mut i: usize = 1;
    while i < n
        invariant
            1 <= i <= n,
            n == particles@.len(),
            best < i,
            ni == nearest_index(particles@, x),
            0 <= ni < n,
            best_distance == pointer_distance(particles@[best as int], x),
            forall|j: int|
                0 <= j < i ==> best_distance <= pointer_distance(#[trigger] particles@[j], x),
            forall|j: int|
                0 <= j < best ==> best_distance < pointer_distance(#[trigger] particles@[j], x),
        decreases n - i,
    {
        let px: u32 = particles[i].position_x;
        let d: u32 = if x >= px {
            x - px
        } else {
            px - x
        };
        if d < best_distance {
            best = i;
            best_distance = d;
        }
        i += 1;
    }
    proof {
        if (best as int) < ni {
            assert(pointer_distance(particles@[best as int], x) > pointer_distance(
                particles@[ni],
                x,
            ));
            assert(false);
        }
        if (best as int) > ni {
            assert(best_distance < pointer_distance(particles@[ni], x));
            assert(false);
        }
    }
    if best_distance <= tolerance {
        Some(best)
    } else {
        None
    }
}

// ------------------------------------------------------------------ layout

/// The pseudo-random twinkle period for the fixture at order index `i`:
/// drawn deterministically from the index, within `5500 ..< 12500`.
pub open spec fn twinkle_duration_at(i: int) -> int {
    5500 + (i * 997) % 7000
}

/// The pseudo-random twinkle phase offset for the fixture at order index
/// `i`, within `0 ..< 9000`.
pub open spec fn twinkle_offset_at(i: int) -> int {
    (i * 631) % 9000
}

/// The fixture created at order index `i` of the layout.
pub open spec fn layout_particle(i: int, spacing: u32, id: usize) -> Particle {
    Particle {
        id,
        order: i as usize,
        position_x: (i * spacing) as u32,
        brightness: 0u32,
        animation: EnvelopeStage::Idle,
        twinkler: Twinkle {
            duration: twinkle_duration_at(i) as u32,
            offset: twinkle_offset_at(i) as u32,
            min_brightness: TWINKLE_MIN_BRIGHTNESS,
            max_brightness: TWINKLE_MAX_BRIGHTNESS,
            cur_brightness: 0u32,
        },
    }
}

/// The fixtures of a layout, in order-index order.
pub open spec fn layout_seq(count: int, spacing: u32, order: Seq<usize>) -> Seq<Particle> {
    Seq::new(count as nat, |i: int| layout_particle(i, spacing, order[i]))
}

/// Whether a fixture sequence is sorted by fixture id.
pub open spec fn sorted_by_id(s: Seq<Particle>) -> bool {
    forall|i: int, j: int| 0 <= i <= j < s.len() ==> s[i].id <= s[j].id
}

/// Sort fixtures by id (the hardware channel order the encoder emits in).
fn sort_by_id(v: Vec<Particle>) -> (r: Vec<Particle>)
    requires
        forall|i: int| 0 <= i < v@.len() ==> (#[trigger] v@[i]).wf(),
    ensures
        r@.len() == v@.len(),
        r@.to_multiset() == v@.to_multiset(),
        sorted_by_id(r@),
        forall|i: int| 0 <= i < r@.len() ==> (#[trigger] r@[i]).wf(),
{
    broadcast use group_to_multiset_ensures;

    let ghost orig: Seq<Particle> = v@;
    let mut rest: Vec<Particle> = v;
    let mut out: Vec<Particle> = Vec::new();
    while rest.len() > 0
        invariant
            out@.to_multiset().add(rest@.to_multiset()) == orig.to_multiset(),
            out@.len() + rest@.len() == orig.len(),
            sorted_by_id(out@),
            forall|i: int, j: int|
                0 <= i < out@.len() && 0 <= j < rest@.len() ==> out@[i].id <= rest@[j].id,
            forall|i: int| 0 <= i < out@.len() ==> (#[trigger] out@[i]).wf(),
            forall|i: int| 0 <= i < rest@.len() ==> (#[trigger] rest@[i]).wf(),
        decreases rest.len(),
    {
        let mut m: usize = 0;
        let mut k: usize = 1;
        while k < rest.len()
            invariant
                0 < rest@.len(),
                m < k <= rest@.len(),
                forall|t: int| 0 <= t < k ==> rest@[m as int].id <= (#[trigger] rest@[t]).id,
            decreases rest.len() - k,
        {
            if rest[k].id < rest[m].id {
                m = k;
            }
            k += 1;
        }
        let ghost rest_before: Seq<Particle> = rest@;
        let p: Particle = rest.remove(m);
        proof {
            rest_before.to_multiset_ensures();
            out@.to_multiset_ensures();
            assert(rest@ == rest_before.remove(m as int));
            assert(rest@.to_multiset() =~= rest_before.to_multiset().remove(p));
            assert(out@.push(p).to_multiset() =~= out@.to_multiset().insert(p));
            assert(out@.push(p).to_multiset().add(rest@.to_multiset()) =~= orig.to_multiset());
        }
        out.push(p);
    }
    out
}

/// Lay out `count` fixtures, evenly spaced `spacing` layout units apart in
/// order-index order, each given the id from the configured order array and
/// its own deterministically drawn twinkle generator; the result is sorted
/// by fixture id.
pub fn build_layout(count: usize, spacing: u32, order: &Vec<usize>) -> (r: Vec<Particle>)
    requires
        order@.len() >= count,
        count * spacing <= u32::MAX,
        count <= 65536,
    ensures
        r@.len() == count,
        r@.to_multiset() == layout_seq(count as int, spacing, order@).to_multiset(),
        sorted_by_id(r@),
        forall|i: int| 0 <= i < r@.len() ==> (#[trigger] r@[i]).wf(),
{
    let mut made: Vec<Particle> = Vec::new();
    let mut i: usize = 0;
    while i < count
        invariant
            i <= count,
            count <= 65536,
            order@.len() >= count,
            count * spacing <= u32::MAX,
            made@.len() == i,
            forall|k: int|
                0 <= k < i ==> made@[k] == layout_particle(k, spacing, order@[k]) && (
                #[trigger] made@[k]).wf(),
        decreases count - i,
    {
        let td64: u64 = 5500 + ((i as u64) * 997) % 7000;
        let toff64: u64 = ((i as u64) * 631) % 9000;
        proof {
            lemma_mul_inequality(i as int, count as int, spacing as int);
            assert((i as int) * (spacing as int) <= (count as int) * (spacing as int));
            assert((count as int) * (spacing as int) == (count as usize) * spacing)
                by (nonlinear_arith);
        }
        let x64: u64 = (i as u64) * (spacing as u64);
        let p: Particle = Particle::new(order[i], i, x64 as u32, td64 as u32, toff64 as u32);
        made.push(p);
        i += 1;
    }
    proof {
        assert(made@ =~= layout_seq(count as int, spacing, order@));
    }
    sort_by_id(made)
}

} // verus!

//! The remote trigger surface: the two inbound event shapes the core
//! consumes, topic parsing, and the shaping of a remote event into planner
//! parameters (resolving the target by raw id or by order index and filling
//! unset fields from the configured defaults).
//!
//! Message transport and payload decoding are the application's concern:
//! the core receives already-decoded events carrying plain values, and a
//! malformed payload never reaches it.
use crate::ease::EaseStyle;
use crate::particles::{find_fixture_index, first_match, Particle};
use crate::settings::Settings;
use crate::text::{find_char, next_char_pos};
use crate::transmission::{planned_particle, trigger_activation};
use crate::animation::{Animation, EnvelopeStage};
use crate::{is_brightness, SCALE};
use vstd::prelude::*;

verus! {

/// A remote trigger: light one fixture (and propagate).
#[derive(Clone, Copy, Debug)]
pub struct LightTriggerMessage {
    /// Target identity, interpreted by raw id or by order index per the
    /// configured resolution mode.
    pub id: usize,
    /// Requested peak brightness.
    pub target_brightness: u32,
    /// Attack duration override; unset or zero means the default applies.
    pub attack_duration: Option<u32>,
    /// Release duration override; unset or zero means the default applies.
    pub release_duration: Option<u32>,
    /// Resting brightness override; unset or zero means the default applies.
    pub final_brightness: Option<u32>,
    /// Transmission range override carried by the wire format.
    pub transmission_range: Option<u32>,
    /// Transmission delay override carried by the wire format.
    pub transmission_delay: Option<u32>,
}

impl LightTriggerMessage {
    /// Every brightness carried is on the fixed-point scale.
    pub open spec fn wf(self) -> bool {
        &&& is_brightness(self.target_brightness)
        &&& (self.final_brightness matches Some(b) ==> is_brightness(b))
    }
}

/// A remote reset: fade every fixture to a resting brightness.
#[derive(Clone, Copy, Debug)]
pub struct LightResetMessage {
    /// Brightness to fade to; unset means the configured resting value.
    pub target_brightness: Option<u32>,
    /// Fade duration; unset means the configured release duration.
    pub fade_duration: Option<u32>,
}

impl LightResetMessage {
    /// Every brightness carried is on the fixed-point scale.
    pub open spec fn wf(self) -> bool {
        self.target_brightness matches Some(b) ==> is_brightness(b)
    }
}

/// The two inbound event kinds.
#[derive(Clone, Copy, Debug)]
pub enum LightMessages {
    /// Light one fixture and propagate.
    Trigger(LightTriggerMessage),
    /// Fade every fixture to rest.
    Reset(LightResetMessage),
}

// ----------------------------------------------------------- topic parsing

/// The plug name of a topic: its third `/`-separated segment.
pub open spec fn plug_name_spec(s: Seq<char>) -> Seq<char> {
    let first = next_char_pos(s, 0, '/');
    let second = next_char_pos(s, first + 1, '/');
    let third = next_char_pos(s, second + 1, '/');
    s.subrange(second + 1, third)
}

/// Whether a topic has a third `/`-separated segment.
pub open spec fn has_plug_name(s: Seq<char>) -> bool {
    next_char_pos(s, next_char_pos(s, 0, '/') + 1, '/') < s.len()
}

/// Extract a topic's plug name (its third `/`-separated segment), if the
/// topic has one; a malformed topic is rejected, not a panic.
pub fn parse_plug_name<'a>(topic: &'a str) -> (r: Option<&'a str>)
    ensures
        r is Some <==> has_plug_name(topic@),
        r matches Some(name) ==> name@ == plug_name_spec(topic@),
{
    let len: usize = topic.unicode_len();
    let p1: usize = find_char(topic, 0, '/');
    proof {
        crate::text::lemma_next_char_pos(topic@, 0, '/');
    }
    if p1 == len {
        return None;
    }
    let p2: usize = find_char(topic, p1 + 1, '/');
    proof {
        crate::text::lemma_next_char_pos(topic@, p1 + 1, '/');
    }
    if p2 == len {
        return None;
    }
    let p3: usize = find_char(topic, p2 + 1, '/');
    proof {
        crate::text::lemma_next_char_pos(topic@, p2 + 1, '/');
    }
    Some(topic.substring_char(p2 + 1, p3))
}

// ----------------------------------------------------------- event shaping

/// An override value, where unset means the fallback.
pub open spec fn or_default(overriding: Option<u32>, fallback: u32) -> u32 {
    match overriding {
        Some(v) => v,
        None => fallback,
    }
}

/// An override value, where unset or zero means the fallback.
pub open spec fn or_default_positive(overriding: Option<u32>, fallback: u32) -> u32 {
    match overriding {
        Some(v) => if v > 0 {
            v
        } else {
            fallback
        },
        None => fallback,
    }
}

/// The peak brightness a remote trigger requests: the configured full
/// brightness when the full-brightness mode is on, else the message's.
pub open spec fn shaped_brightness(msg: LightTriggerMessage, s: Settings) -> u32 {
    if s.trigger_full_brightness {
        SCALE
    } else {
        msg.target_brightness
    }
}

/// Resolve and apply a remote trigger: the target fixture is the first one
/// answering to the message's identity (by raw id or by order index, per
/// configuration); the planner then runs with the message's overrides
/// filled from the configured defaults. Reports whether a fixture answered;
/// with no match nothing changes.
pub fn apply_remote_trigger(
    particles: &mut Vec<Particle>,
    msg: &LightTriggerMessage,
    settings: &Settings,
) -> (r: bool)
    requires
        msg.wf(),
        settings.wf(),
        forall|i: int| 0 <= i < old(particles)@.len() ==> (#[trigger] old(particles)@[i]).wf(),
    ensures
        r <==> first_match(old(particles)@, msg.id, settings.trigger_by_order) < old(
            particles,
        )@.len(),
        !r ==> *final(particles) == *old(particles),
        final(particles)@.len() == old(particles)@.len(),
        r ==> ({
            let fm = first_match(old(particles)@, msg.id, settings.trigger_by_order);
            forall|i: int|
                0 <= i < old(particles)@.len() ==> final(particles)@[i] == planned_particle(
                    #[trigger] old(particles)@[i],
                    old(particles)@[fm].id,
                    old(particles)@[fm].position_x,
                    shaped_brightness(*msg, *settings),
                    or_default_positive(msg.final_brightness, settings.resting_brightness),
                    or_default_positive(msg.attack_duration, settings.attack_settings.duration),
                    or_default_positive(msg.release_duration, settings.release_settings.duration),
                    settings.transmission_settings.max_range,
                    settings.transmission_settings.max_delay,
                    settings.attack_settings.style,
                )
        }),
        forall|i: int| 0 <= i < final(particles)@.len() ==> (#[trigger] final(particles)@[i]).wf(),
{
    match find_fixture_index(particles, msg.id, settings.trigger_by_order) {
        Some(target_index) => {
            let main_id: usize = particles[target_index].id;
            let main_x: u32 = particles[target_index].position_x;
            let trigger_brightness: u32 = if settings.trigger_full_brightness {
                SCALE
            } else {
                msg.target_brightness
            };
            let attack_duration: u32 = match msg.attack_duration {
                Some(d) => if d > 0 {
                    d
                } else {
                    settings.attack_settings.duration
                },
                None => settings.attack_settings.duration,
            };
            let release_duration: u32 = match msg.release_duration {
                Some(d) => if d > 0 {
                    d
                } else {
                    settings.release_settings.duration
                },
                None => settings.release_settings.duration,
            };
            let final_brightness: u32 = match msg.final_brightness {
                Some(b) => if b > 0 {
                    b
                } else {
                    settings.resting_brightness
                },
                None => settings.resting_brightness,
            };
            trigger_activation(
                particles,
                main_id,
                main_x,
                trigger_brightness,
                final_brightness,
                attack_duration,
                release_duration,
                settings.transmission_settings.max_range,
                settings.transmission_settings.max_delay,
                settings.attack_settings.style,
            );
            true
        },
        None => false,
    }
}

/// The fixture with a fresh release installed, fading from its visible
/// brightness to the reset target.
pub open spec fn reset_particle(p: Particle, target: u32, fade: u32, style: EaseStyle) -> Particle {
    Particle {
        animation: EnvelopeStage::ReleaseAnimation(
            Animation {
                elapsed: 0,
                duration: fade,
                start_brightness: p.effective_spec() as u32,
                target_brightness: target,
                style,
            },
        ),
        ..p
    }
}

/// Apply a remote reset globally: every fixture fades from its visible
/// brightness to the message's target (or the configured resting
/// brightness) over the message's fade duration (or the configured release
/// duration).
pub fn apply_reset(particles: &mut Vec<Particle>, msg: &LightResetMessage, settings: &Settings)
    requires
        msg.wf(),
        settings.wf(),
        forall|i: int| 0 <= i < old(particles)@.len() ==> (#[trigger] old(particles)@[i]).wf(),
    ensures
        final(particles)@.len() == old(particles)@.len(),
        forall|i: int|
            0 <= i < old(particles)@.len() ==> final(particles)@[i] == reset_particle(
                #[trigger] old(particles)@[i],
                or_default(msg.target_brightness, settings.resting_brightness),
                or_default(msg.fade_duration, settings.release_settings.duration),
                settings.release_settings.style,
            ),
        forall|i: int| 0 <= i < final(particles)@.len() ==> (#[trigger] final(particles)@[i]).wf(),
{
    let target: u32 = match msg.target_brightness {
        Some(b) => b,
        None => settings.resting_brightness,
    };
    let fade: u32 = match msg.fade_duration {
        Some(d) => d,
        None => settings.release_settings.duration,
    };
    let n: usize = particles.len();
    let mut idx: usize = 0;
    while idx < n
        invariant
            n == particles@.len(),
            n == old(particles)@.len(),
            idx <= n,
            is_brightness(target),
            forall|i: int| idx <= i < n ==> particles@[i] == old(particles)@[i],
            forall|i: int| 0 <= i < n ==> (#[trigger] old(particles)@[i]).wf(),
            forall|i: int|
                0 <= i < idx ==> particles@[i] == reset_particle(
                    #[trigger] old(particles)@[i],
                    target,
                    fade,
                    settings.release_settings.style,
                ),
            forall|i: int| 0 <= i < idx ==> (#[trigger] particles@[i]).wf(),
        decreases n - idx,
    {
        let p: Particle = particles[idx];
        let start_brightness: u32 = p.brightness();
        let mut q: Particle = p;
        q.animation = EnvelopeStage::ReleaseAnimation(
            Animation::new(fade, start_brightness, target, settings.release_settings.style),
        );
        particles[idx] = q;
        idx += 1;
    }
}

} // verus!

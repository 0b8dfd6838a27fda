use chimes::animation::EnvelopeStage;
use chimes::ease::EaseStyle;
use chimes::particles::{build_layout, Particle};
use chimes::settings::Settings;
use chimes::transmission::{
    activate_single, apply_pointer_trigger, possibly_activate_by_transmission, trigger_activation,
};
use chimes::SCALE;

fn three_fixtures() -> Vec<Particle> {
    // three fixtures at x = 0, 50, 100
    build_layout(3, 50, &vec![0, 1, 2])
}

#[test]
fn end_to_end_propagation_scenario() {
    // trigger at x=0 with full brightness, max_range=100, max_delay=1000:
    // the fixture at x=50 gets half target and 500 ms delay; the fixture at
    // x=100 gets target 0, which never exceeds its brightness: no attack.
    let mut v = three_fixtures();
    trigger_activation(&mut v, 0, 0, SCALE, 0, 2000, 2000, 100, 1000, EaseStyle::Linear);

    match &v[0].animation {
        EnvelopeStage::AttackAnimation(a, Some(aa)) => {
            assert_eq!(a.elapsed, 0);
            assert_eq!(a.start_brightness, 0);
            assert_eq!(a.target_brightness, SCALE);
            assert_eq!(a.duration, 2000);
            assert_eq!(aa.release_duration, 2000);
            assert_eq!(aa.final_brightness, 0);
        }
        _ => panic!("main fixture not attacking"),
    }
    match &v[1].animation {
        EnvelopeStage::AttackAnimation(a, Some(_)) => {
            // target 65535 * 50 / 100, rounded down to the grid (0.5 of full)
            assert_eq!(a.target_brightness, 32767);
            // delay 50 * 1000 / 100 = 500 ms, as a negative initial elapsed
            assert_eq!(a.elapsed, -500);
        }
        _ => panic!("mid fixture not attacking"),
    }
    match &v[2].animation {
        EnvelopeStage::Idle => {}
        _ => panic!("far fixture should stay idle"),
    }
}

#[test]
fn propagation_never_dims_a_brighter_fixture() {
    // a fixture already at effective brightness e: a propagated target <= e
    // must not alter its envelope state
    let mut v = three_fixtures();
    v[1].set_brightness(40000);
    let before = v[1].animation;
    trigger_activation(&mut v, 0, 0, SCALE, 0, 2000, 2000, 100, 1000, EaseStyle::Linear);
    // target at x=50 is 32767 <= 40000: unchanged
    match (&before, &v[1].animation) {
        (EnvelopeStage::Idle, EnvelopeStage::Idle) => {}
        _ => panic!("envelope state of brighter fixture changed"),
    }
    assert_eq!(v[1].brightness, 40000);
}

#[test]
fn out_of_range_fixture_is_untouched() {
    let mut v = three_fixtures();
    trigger_activation(&mut v, 0, 0, SCALE, 0, 2000, 2000, 40, 1000, EaseStyle::Linear);
    match &v[1].animation {
        EnvelopeStage::Idle => {}
        _ => panic!("fixture beyond max_range was activated"),
    }
}

#[test]
fn distance_linearity_at_half_range() {
    // max_range R, max_delay M: distance R/2 receives delay M/2 and target B/2
    let p = three_fixtures()[1];
    let target = possibly_activate_by_transmission(&p, 100, 200, 40000);
    assert_eq!(target, Some(20000));
}

#[test]
fn zero_target_never_activates() {
    let p = three_fixtures()[2];
    let target = possibly_activate_by_transmission(&p, 100, 100, SCALE);
    assert_eq!(target, None);
}

#[test]
fn retrigger_starts_from_current_visible_brightness() {
    // re-triggering a fixture mid-release: the new attack's start equals the
    // brightness immediately before the re-trigger
    let mut v = three_fixtures();
    v[0].set_brightness(SCALE);
    // put fixture 0 mid-release by advancing a release installed on it
    activate_single(&mut v[0], 0, 1000, EaseStyle::Linear, SCALE, SCALE, 0, 0);
    v[0].animate(1, 1000, 0, EaseStyle::Linear); // attack (duration 0) finishes: release installed
    v[0].animate(500, 1000, 0, EaseStyle::Linear); // mid-release
    let visible_before = v[0].brightness();
    assert!(visible_before > 0 && visible_before < SCALE);
    trigger_activation(&mut v, 0, 0, SCALE, 0, 2000, 2000, 100, 1000, EaseStyle::Linear);
    match &v[0].animation {
        EnvelopeStage::AttackAnimation(a, _) => {
            assert_eq!(a.start_brightness, visible_before);
        }
        _ => panic!("fixture not re-triggered"),
    }
}

#[test]
fn attack_hands_over_to_release_then_idle() {
    let mut v = three_fixtures();
    activate_single(&mut v[0], 100, 200, EaseStyle::Linear, 0, SCALE, 1000, 0);
    v[0].animate(100, 999, 0, EaseStyle::Linear); // attack finishes this tick
    match &v[0].animation {
        EnvelopeStage::ReleaseAnimation(a) => {
            // release uses the attached duration and resting brightness
            assert_eq!(a.duration, 200);
            assert_eq!(a.target_brightness, 1000);
        }
        _ => panic!("attack did not hand over to release"),
    }
    v[0].animate(200, 999, 0, EaseStyle::Linear); // release finishes this tick
    match &v[0].animation {
        EnvelopeStage::Idle => {}
        _ => panic!("release did not hand over to idle"),
    }
    assert_eq!(v[0].brightness, 1000);
}

#[test]
fn unattached_attack_falls_back_to_the_configured_resting_brightness() {
    // an attack with no attached release hands over to a release built from
    // the fallback settings: their duration and their resting brightness
    let mut v = three_fixtures();
    let attack = chimes::animation::Animation::new(10, 0, SCALE, EaseStyle::Linear);
    v[0].animation = EnvelopeStage::AttackAnimation(attack, None);
    v[0].animate(10, 300, 4000, EaseStyle::Linear); // attack finishes this tick
    match &v[0].animation {
        EnvelopeStage::ReleaseAnimation(a) => {
            assert_eq!(a.duration, 300);
            assert_eq!(a.target_brightness, 4000);
        }
        _ => panic!("attack did not hand over to release"),
    }
}

#[test]
fn pointer_trigger_respects_enable_flag_and_tolerance() {
    let mut settings = Settings::defaults();
    settings.mouse_enable = false;
    let mut v = three_fixtures();
    assert!(!apply_pointer_trigger(&mut v, 0, &settings));
    match &v[0].animation {
        EnvelopeStage::Idle => {}
        _ => panic!("disabled pointer still triggered"),
    }

    settings.mouse_enable = true;
    // tolerance is twice the chime thickness (2 * 15): x=40 resolves to the
    // nearest fixture, the one at x=50
    assert!(apply_pointer_trigger(&mut v, 40, &settings));
    match &v[1].animation {
        EnvelopeStage::AttackAnimation(a, _) => {
            assert_eq!(a.target_brightness, settings.mouse_brightness_value);
        }
        _ => panic!("pointer did not trigger the nearby fixture"),
    }
}

#[test]
fn pointer_trigger_picks_the_nearest_fixture_within_tolerance() {
    let mut settings = Settings::defaults();
    settings.transmission_settings.max_range = 10; // keep the trigger local
    let mut v = three_fixtures();
    // x=28 lies within tolerance of both x=0 (distance 28) and x=50
    // (distance 22): the nearer fixture wins
    assert!(apply_pointer_trigger(&mut v, 28, &settings));
    assert!(matches!(v[1].animation, EnvelopeStage::AttackAnimation(..)));
    assert!(matches!(v[0].animation, EnvelopeStage::Idle));

    // far from every fixture: nothing triggers
    let mut w = three_fixtures();
    assert!(!apply_pointer_trigger(&mut w, 2000, &settings));
}

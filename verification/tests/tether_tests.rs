use chimes::animation::EnvelopeStage;
use chimes::particles::build_layout;
use chimes::settings::Settings;
use chimes::tether::{apply_remote_trigger, apply_reset, LightResetMessage, LightTriggerMessage};
use chimes::SCALE;

fn trigger_message(id: usize) -> LightTriggerMessage {
    LightTriggerMessage {
        id,
        target_brightness: 30000,
        attack_duration: None,
        release_duration: None,
        final_brightness: None,
        transmission_range: None,
        transmission_delay: None,
    }
}

#[test]
fn remote_trigger_resolves_by_order_index() {
    // ids scrambled: order index 0 belongs to the fixture with id 2
    let mut v = build_layout(3, 50, &vec![2, 1, 0]);
    let mut settings = Settings::defaults();
    settings.trigger_by_order = true;
    assert!(apply_remote_trigger(&mut v, &trigger_message(0), &settings));
    // the layout is sorted by id: the fixture with order 0 has id 2
    match &v[2].animation {
        EnvelopeStage::AttackAnimation(a, _) => {
            assert_eq!(a.target_brightness, 30000);
            assert_eq!(a.elapsed, 0);
        }
        _ => panic!("fixture with order 0 not triggered"),
    }
}

#[test]
fn remote_trigger_resolves_by_raw_id() {
    let mut v = build_layout(3, 50, &vec![2, 1, 0]);
    let mut settings = Settings::defaults();
    settings.trigger_by_order = false;
    assert!(apply_remote_trigger(&mut v, &trigger_message(0), &settings));
    match &v[0].animation {
        EnvelopeStage::AttackAnimation(a, _) => {
            assert_eq!(a.target_brightness, 30000);
        }
        _ => panic!("fixture with id 0 not triggered"),
    }
}

#[test]
fn unknown_target_changes_nothing() {
    let mut v = build_layout(3, 50, &vec![0, 1, 2]);
    let settings = Settings::defaults();
    assert!(!apply_remote_trigger(&mut v, &trigger_message(9), &settings));
    for p in &v {
        match p.animation {
            EnvelopeStage::Idle => {}
            _ => panic!("fixture changed on unmatched trigger"),
        }
    }
}

#[test]
fn overrides_apply_only_when_positive() {
    let mut v = build_layout(1, 50, &vec![0]);
    let settings = Settings::defaults();
    let mut msg = trigger_message(0);
    msg.attack_duration = Some(777);
    msg.release_duration = Some(0); // zero means the default applies
    msg.final_brightness = Some(123);
    assert!(apply_remote_trigger(&mut v, &msg, &settings));
    match &v[0].animation {
        EnvelopeStage::AttackAnimation(a, Some(aa)) => {
            assert_eq!(a.duration, 777);
            assert_eq!(aa.release_duration, settings.release_settings.duration);
            assert_eq!(aa.final_brightness, 123);
        }
        _ => panic!("fixture not triggered"),
    }
}

#[test]
fn full_brightness_mode_overrides_the_requested_peak() {
    let mut v = build_layout(1, 50, &vec![0]);
    let mut settings = Settings::defaults();
    settings.trigger_full_brightness = true;
    assert!(apply_remote_trigger(&mut v, &trigger_message(0), &settings));
    match &v[0].animation {
        EnvelopeStage::AttackAnimation(a, _) => {
            assert_eq!(a.target_brightness, SCALE);
        }
        _ => panic!("fixture not triggered"),
    }
}

#[test]
fn reset_fades_every_fixture_to_rest() {
    let mut v = build_layout(3, 50, &vec![0, 1, 2]);
    v[0].set_brightness(50000);
    v[2].set_brightness(12345);
    let settings = Settings::defaults();
    let msg = LightResetMessage { target_brightness: None, fade_duration: Some(400) };
    apply_reset(&mut v, &msg, &settings);
    let starts = [50000u32, 0, 12345];
    for (i, p) in v.iter().enumerate() {
        match &p.animation {
            EnvelopeStage::ReleaseAnimation(a) => {
                assert_eq!(a.duration, 400);
                assert_eq!(a.start_brightness, starts[i]);
                assert_eq!(a.target_brightness, settings.resting_brightness);
                assert_eq!(a.elapsed, 0);
            }
            _ => panic!("fixture {i} not fading"),
        }
    }
}

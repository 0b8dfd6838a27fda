use artnet_protocol::ArtCommand;
use chimes::animation::EnvelopeStage;
use chimes::artnet::ArtNetInterface;
use chimes::particles::{advance_all, build_layout};
use chimes::settings::Settings;
use chimes::tether::{apply_remote_trigger, LightTriggerMessage};
use chimes::SCALE;

#[test]
fn transmitted_frame_parses_back_with_the_same_channel_data() {
    // the frame the library assembles must be what the wire library itself
    // decodes as an Output command carrying the same channel bytes
    let mut iface = ArtNetInterface::new();
    iface.create_brightness_mapping(&chimes::ease::EaseStyle::Linear);
    let mut v = build_layout(4, 10, &vec![0, 1, 2, 3]);
    v[0].set_brightness(SCALE);
    v[1].set_brightness(20000);
    v[3].set_brightness(1);
    let payload = iface.encode_channels(&v, 1, false);
    let frame = iface.update(&v, 1, false).unwrap();
    match ArtCommand::from_buffer(&frame).unwrap() {
        ArtCommand::Output(output) => {
            let data: &Vec<u8> = output.data.as_ref();
            assert_eq!(data, &payload);
            assert_eq!(u16::from(output.port_address), 0);
        }
        other => panic!("frame decoded as {other:?}"),
    }
}

#[test]
fn one_full_cycle_from_trigger_to_frames() {
    // drain a trigger, advance through attack and release, and encode at
    // each stage: the wire bytes follow the envelope up and back down
    let mut settings = Settings::defaults();
    settings.attack_settings.duration = 100;
    settings.attack_settings.style = chimes::ease::EaseStyle::Linear;
    settings.release_settings.duration = 100;
    settings.release_settings.style = chimes::ease::EaseStyle::Linear;
    settings.trigger_by_order = false;

    let spacing = 768 / settings.chimes_count as u32;
    let mut v = build_layout(settings.chimes_count, spacing, &settings.fixture_order);
    let mut iface = ArtNetInterface::new();
    iface.create_brightness_mapping(&settings.lights_lookup_mapping);

    let msg = LightTriggerMessage {
        id: 0,
        target_brightness: SCALE,
        attack_duration: None,
        release_duration: None,
        final_brightness: None,
        transmission_range: None,
        transmission_delay: None,
    };
    assert!(apply_remote_trigger(&mut v, &msg, &settings));

    // halfway through the attack
    advance_all(&mut v, 50, settings.release_settings.duration, settings.resting_brightness, settings.release_settings.style);
    let frame_mid = iface.update(&v, 1, false).unwrap();
    let mid = frame_mid[18]; // first channel byte after the 18-byte header
    assert!(mid > 120 && mid < 135, "mid-attack byte was {mid}");

    // the attack finishes and hands over to the release
    advance_all(&mut v, 50, settings.release_settings.duration, settings.resting_brightness, settings.release_settings.style);
    assert!(matches!(v[0].animation, EnvelopeStage::ReleaseAnimation(_)));

    // the release runs out: fixture back at rest, byte back at zero
    advance_all(&mut v, 100, settings.release_settings.duration, settings.resting_brightness, settings.release_settings.style);
    assert!(matches!(v[0].animation, EnvelopeStage::Idle));
    let frame_end = iface.update(&v, 1, false).unwrap();
    assert_eq!(frame_end[18], 0);
}

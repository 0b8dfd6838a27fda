use chimes::animation::EnvelopeStage;
use chimes::ease::EaseStyle;
use chimes::particles::{advance_all, build_layout, twinkle_all, Particle};
use chimes::transmission::activate_single;
use chimes::twinkle::Twinkle;
use chimes::SCALE;

#[test]
fn layout_spaces_fixtures_and_sorts_by_id() {
    let v = build_layout(4, 25, &vec![3, 1, 0, 2]);
    assert_eq!(v.len(), 4);
    // sorted by id
    let ids: Vec<usize> = v.iter().map(|p| p.id).collect();
    assert_eq!(ids, vec![0, 1, 2, 3]);
    // each fixture keeps the order index and position it was created with:
    // id 3 was created at order index 0 (x = 0), id 2 at order index 3
    for p in &v {
        assert_eq!(p.position_x, 25 * p.order as u32);
        assert_eq!(p.brightness, 0);
        assert!(matches!(p.animation, EnvelopeStage::Idle));
        assert!(p.twinkler.duration >= 5500 && p.twinkler.duration < 12500);
        assert!(p.twinkler.offset < 9000);
    }
    assert_eq!(v[3].order, 0);
    assert_eq!(v[2].order, 3);
}

#[test]
fn layout_keeps_fixtures_with_equal_ids() {
    // two fixtures share an id: both survive the sort, in a stable order
    let v = build_layout(3, 10, &vec![7, 7, 1]);
    let ids: Vec<usize> = v.iter().map(|p| p.id).collect();
    assert_eq!(ids, vec![1, 7, 7]);
    let orders: Vec<usize> = v.iter().map(|p| p.order).collect();
    assert_eq!(orders, vec![2, 0, 1]);
}

#[test]
fn visible_brightness_is_the_envelope_lifted_by_twinkle() {
    let mut p = Particle::new(0, 0, 0, 1000, 0);
    assert_eq!(p.brightness(), 0);
    // a bright twinkle lifts a resting fixture
    p.twinkle(0); // phase 0: the twinkle pulse peaks
    let t = p.twinkler.cur_brightness;
    assert!(t > 60000, "twinkle pulse peak was {t}");
    assert_eq!(p.brightness(), t);
    // but never dims a brighter envelope
    p.set_brightness(SCALE);
    assert_eq!(p.brightness(), SCALE);
}

#[test]
fn twinkle_output_vanishes_at_half_period() {
    let mut tw = Twinkle::new(1000, 0, 131, 2621);
    tw.update(500);
    assert_eq!(tw.get_brightness(), 0);
    // and stays on the brightness scale over a whole period
    for t in (0..=1000u64).step_by(50) {
        tw.update(t);
        assert!(tw.get_brightness() <= SCALE);
    }
}

#[test]
fn twinkle_is_periodic() {
    let mut tw = Twinkle::new(800, 3, 131, 2621);
    tw.update(123);
    let first = tw.get_brightness();
    tw.update(123 + 800);
    assert_eq!(tw.get_brightness(), first);
    tw.update(123 + 8 * 800);
    assert_eq!(tw.get_brightness(), first);
}

#[test]
fn advance_all_steps_every_fixture() {
    let mut v = build_layout(2, 50, &vec![0, 1]);
    activate_single(&mut v[0], 100, 100, EaseStyle::Linear, 0, SCALE, 0, 0);
    activate_single(&mut v[1], 100, 100, EaseStyle::Linear, 0, SCALE, 0, 50);
    advance_all(&mut v, 50, 999, 0, EaseStyle::Linear);
    // fixture 0 is halfway up; fixture 1 still waits out its delay
    assert_eq!(v[0].brightness, 32767);
    assert_eq!(v[1].brightness, 0);
    match &v[1].animation {
        EnvelopeStage::AttackAnimation(a, _) => assert_eq!(a.elapsed, 0),
        _ => panic!("delayed fixture lost its attack"),
    }
}

#[test]
fn twinkle_all_updates_every_generator() {
    let mut v = build_layout(3, 50, &vec![0, 1, 2]);
    twinkle_all(&mut v, 12345);
    for p in &v {
        // every output was recomputed onto the brightness scale
        assert!(p.twinkler.cur_brightness <= SCALE);
    }
}

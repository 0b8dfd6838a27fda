use chimes::animation::Animation;
use chimes::ease::EaseStyle;
use chimes::SCALE;

#[test]
fn finishes_exactly_when_deltas_sum_to_duration() {
    // Deltas summing exactly to the duration: finished reported on the tick
    // where the cumulative elapsed time first reaches it, value == end.
    let mut a = Animation::new(100, 0, SCALE, EaseStyle::Linear);
    let (v1, d1) = a.get_brightness_and_done(30);
    assert!(!d1);
    // linear: progress = 30 * 65535 / 100 = 19660 (rounded down)
    assert_eq!(v1, 19660);
    let (_v2, d2) = a.get_brightness_and_done(30);
    assert!(!d2);
    let (v3, d3) = a.get_brightness_and_done(40);
    assert!(d3);
    assert_eq!(v3, SCALE);
}

#[test]
fn zero_duration_finishes_immediately_with_end_value() {
    let mut a = Animation::new(0, 100, 40000, EaseStyle::SineBoth);
    let (v, done) = a.get_brightness_and_done(5);
    assert!(done);
    assert_eq!(v, 40000);
}

#[test]
fn negative_elapsed_holds_start_until_delay_consumed() {
    let mut a = Animation::new(100, 1234, SCALE, EaseStyle::Linear);
    a.set_elapsed(-50);
    let (v1, d1) = a.get_brightness_and_done(20);
    assert_eq!((v1, d1), (1234, false));
    let (v2, d2) = a.get_brightness_and_done(20);
    assert_eq!((v2, d2), (1234, false));
    // cumulative 60 >= 50: animation is now 10 ms in
    let (v3, d3) = a.get_brightness_and_done(20);
    assert!(!d3);
    assert!(v3 > 1234);
}

#[test]
fn advancing_a_finished_animator_is_idempotent() {
    let mut a = Animation::new(10, 0, 60000, EaseStyle::BounceOut);
    let (v, done) = a.get_brightness_and_done(10);
    assert!(done);
    assert_eq!(v, 60000);
    let (v2, done2) = a.get_brightness_and_done(1000);
    assert!(done2);
    assert_eq!(v2, 60000);
}

#[test]
fn linear_release_interpolates_downward() {
    let mut a = Animation::new(100, SCALE, 0, EaseStyle::Linear);
    let (v, done) = a.get_brightness_and_done(50);
    assert!(!done);
    // progress = 50 * 65535 / 100 = 32767; value = 65535 - 32767
    assert_eq!(v, 32768);
}

#[test]
fn finishing_tick_reports_end_value_for_every_style() {
    let styles = [
        EaseStyle::Linear,
        EaseStyle::BounceIn,
        EaseStyle::BounceOut,
        EaseStyle::BounceBoth,
        EaseStyle::SineIn,
        EaseStyle::SineOut,
        EaseStyle::SineBoth,
        EaseStyle::ElasticIn,
        EaseStyle::ElasticOut,
        EaseStyle::ElasticBoth,
        EaseStyle::QuadIn,
        EaseStyle::QuadOut,
        EaseStyle::QuadBoth,
        EaseStyle::ExpoIn,
        EaseStyle::ExpoOut,
        EaseStyle::ExpoBoth,
        EaseStyle::CubicIn,
        EaseStyle::CubicOut,
        EaseStyle::CubicBoth,
        EaseStyle::CircIn,
        EaseStyle::CircOut,
        EaseStyle::CircBoth,
    ];
    for style in styles {
        let mut a = Animation::new(500, 17, 51234, style);
        let (v, done) = a.get_brightness_and_done(500);
        assert!(done);
        assert_eq!(v, 51234);
    }
}

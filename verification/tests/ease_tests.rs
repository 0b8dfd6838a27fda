use chimes::ease::{ease_apply, EaseStyle};
use chimes::SCALE;

fn all_styles() -> Vec<EaseStyle> {
    vec![
        EaseStyle::Linear,
        EaseStyle::BounceIn,
        EaseStyle::BounceOut,
        EaseStyle::BounceBoth,
        EaseStyle::SineIn,
        EaseStyle::SineOut,
        EaseStyle::SineBoth,
        EaseStyle::ElasticIn,
        EaseStyle::ElasticOut,
        EaseStyle::ElasticBoth,
        EaseStyle::QuadIn,
        EaseStyle::QuadOut,
        EaseStyle::QuadBoth,
        EaseStyle::ExpoIn,
        EaseStyle::ExpoOut,
        EaseStyle::ExpoBoth,
        EaseStyle::CubicIn,
        EaseStyle::CubicOut,
        EaseStyle::CubicBoth,
        EaseStyle::CircIn,
        EaseStyle::CircOut,
        EaseStyle::CircBoth,
    ]
}

#[test]
fn every_style_is_exact_at_the_endpoints() {
    for style in all_styles() {
        assert_eq!(ease_apply(style, 0), 0, "{style:?} at 0");
        assert_eq!(ease_apply(style, SCALE), SCALE, "{style:?} at full");
    }
}

#[test]
fn every_style_stays_on_the_scale() {
    for style in all_styles() {
        for p in [1u32, 100, 16384, 32767, 32768, 49151, 65000, 65534] {
            let r = ease_apply(style, p);
            assert!(r <= SCALE, "{style:?} at {p} gave {r}");
        }
    }
}

#[test]
fn linear_is_the_identity() {
    for p in [0u32, 1, 7, 19660, 32768, 65534, 65535] {
        assert_eq!(ease_apply(EaseStyle::Linear, p), p);
    }
}

#[test]
fn quad_in_squares_the_progress() {
    // 32768^2 / 65535 = 16384 (rounded down)
    assert_eq!(ease_apply(EaseStyle::QuadIn, 32768), 16384);
    // 16384^2 / 65535 = 4096 (rounded down)
    assert_eq!(ease_apply(EaseStyle::QuadIn, 16384), 4096);
}

#[test]
fn cubic_in_cubes_the_progress() {
    // ((32768^2 / 65535) * 32768) / 65535 = 8192 (rounded down)
    assert_eq!(ease_apply(EaseStyle::CubicIn, 32768), 8192);
}

#[test]
fn quad_out_mirrors_quad_in() {
    let p = 20000u32;
    let out = ease_apply(EaseStyle::QuadOut, p);
    let mirrored = SCALE - ease_apply(EaseStyle::QuadIn, SCALE - p);
    assert_eq!(out, mirrored);
}

#[test]
fn sine_out_reaches_half_scale_near_half_progress() {
    // sin(pi/4) ~ 0.707 of full scale
    let r = ease_apply(EaseStyle::SineOut, 32768);
    assert!(r > 44000 && r < 48500, "got {r}");
}

#[test]
fn expo_in_stays_small_early() {
    let r = ease_apply(EaseStyle::ExpoIn, 16384);
    // 2^(-7.5) ~ 0.0055 of full scale
    assert!(r < 1500, "got {r}");
}

#[test]
fn circ_in_matches_the_circle_quadrant() {
    // 1 - sqrt(1 - 0.5^2) ~ 0.1340
    let r = ease_apply(EaseStyle::CircIn, 32768);
    let expected = (0.1340f64 * 65535.0) as i64;
    assert!((r as i64 - expected).abs() < 200, "got {r}");
}

#[test]
fn bounce_out_matches_the_classical_curve_midway() {
    // bounce_out(0.2) = 7.5625 * 0.04 = 0.3025
    let r = ease_apply(EaseStyle::BounceOut, 13107);
    let expected = (0.3025f64 * 65535.0) as i64;
    assert!((r as i64 - expected).abs() < 200, "got {r}");
}

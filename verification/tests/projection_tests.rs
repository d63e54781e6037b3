use starfield::projector::{
    project_catalogue, BRIGHTNESS_DENOM, COLOR_DENOM, DEC_QUARTER_DENOM, RA_TURN_DENOM,
};
use starfield::record::{SpecType, StarRecord};
use starfield::shader::Shader;

fn star(ra_h: i8, ra_m: i8, ra_s_milli: i32, dec_d: i8, dec_m: i8, dec_s: i8, mag_milli: i32, class: SpecType) -> StarRecord {
    StarRecord {
        hd_num: 0,
        ra_hours: ra_h,
        ra_mins: ra_m,
        ra_seconds_milli: ra_s_milli,
        dec_deg: dec_d,
        dec_mins: dec_m,
        dec_seconds: dec_s,
        visual_mag_milli: mag_milli,
        spec_type: class,
    }
}

#[test]
fn scaled_angles_are_exact() {
    let s = star(6, 30, 12_500, 45, 30, 15, 4_250, SpecType::G);
    let (ra, dec) = s.equatorial_position_scaled();
    assert_eq!(ra, 6 * 3_600_000 + 30 * 60_000 + 12_500);
    assert_eq!(dec, 45 * 3600 + 30 * 60 + 15);
}

#[test]
fn brightness_at_magnitude_minus_one_is_full() {
    let s = star(0, 0, 0, 0, 0, 0, -1_000, SpecType::O);
    let a = s.brightness_numerator();
    assert_eq!(a, 7_000);
    assert_eq!(a as f64 / BRIGHTNESS_DENOM as f64, 1.0);
}

#[test]
fn brightness_at_magnitude_six_is_dark() {
    let s = star(0, 0, 0, 0, 0, 0, 6_000, SpecType::O);
    assert_eq!(s.brightness_numerator(), 0);
}

#[test]
fn brightness_at_magnitude_nine_is_clamped_not_negative() {
    let s = star(0, 0, 0, 0, 0, 0, 9_000, SpecType::O);
    assert_eq!(s.brightness_numerator(), 0);
}

#[test]
fn brightness_never_increases_with_magnitude() {
    let mut previous = u32::MAX;
    for mag_milli in (-3_000..9_000).step_by(250) {
        let a = star(0, 0, 0, 0, 0, 0, mag_milli, SpecType::O).brightness_numerator();
        assert!(a <= previous);
        assert!(a <= BRIGHTNESS_DENOM);
        previous = a;
    }
}

#[test]
fn neutral_and_warm_color_scales() {
    let a = star(0, 0, 0, 0, 0, 0, 2_000, SpecType::B).brightness_numerator();
    let (r, g, b) = star(0, 0, 0, 0, 0, 0, 2_000, SpecType::B).color_numerators();
    assert_eq!((r, g, b), (a * 20, a * 20, a * 20));
    let (r, g, b) = star(0, 0, 0, 0, 0, 0, 2_000, SpecType::G).color_numerators();
    assert_eq!((r, g, b), (a * 20, a * 20, a * 18));
    let (r, g, b) = star(0, 0, 0, 0, 0, 0, 2_000, SpecType::K).color_numerators();
    assert_eq!((r, g, b), (a * 20, a * 18, a * 15));
    let (r, g, b) = star(0, 0, 0, 0, 0, 0, 2_000, SpecType::M).color_numerators();
    assert_eq!((r, g, b), (a * 20, a * 15, a * 10));
    // a colour value is its numerator over the colour denominator
    assert!((a as f64 * 20.0 / COLOR_DENOM as f64 - a as f64 / BRIGHTNESS_DENOM as f64).abs() < 1e-12);
}

#[test]
fn position_round_trip_six_hours_on_the_equator() {
    // RA 6h0m0s and Dec +0°0'0" on a sphere of radius 10 must land at
    // x ≈ −10, y ≈ 0, z ≈ 0 under the renderer's sin/cos convention
    let s = star(6, 0, 0, 0, 0, 0, 1_000, SpecType::O);
    let (ra_num, dec_num) = s.equatorial_position_scaled();
    let ra = 2.0 * std::f64::consts::PI * ra_num as f64 / RA_TURN_DENOM as f64;
    let dec = 0.5 * std::f64::consts::PI * dec_num as f64 / DEC_QUARTER_DENOM as f64;
    let x = -10.0 * ra.sin() * dec.cos();
    let y = 10.0 * dec.sin();
    let z = -10.0 * ra.cos() * dec.cos();
    assert!((x - (-10.0)).abs() < 1e-9);
    assert!(y.abs() < 1e-9);
    assert!(z.abs() < 1e-9);
}

#[test]
fn project_catalogue_keeps_order_and_values() {
    let stars = vec![
        star(6, 0, 0, 0, 0, 0, -1_000, SpecType::O),
        star(12, 30, 500, -45, -10, -5, 5_000, SpecType::M),
    ];
    let pts = project_catalogue(&stars);
    assert_eq!(pts.len(), 2);
    assert_eq!(pts[0].ra_turn_num, 6 * 3_600_000);
    assert_eq!(pts[0].dec_quarter_num, 0);
    assert_eq!((pts[0].red_num, pts[0].green_num, pts[0].blue_num), (140_000, 140_000, 140_000));
    assert_eq!(pts[1].ra_turn_num, 12 * 3_600_000 + 30 * 60_000 + 500);
    assert_eq!(pts[1].dec_quarter_num, -45 * 3600 - 10 * 60 - 5);
    let a = 1_000;
    assert_eq!((pts[1].red_num, pts[1].green_num, pts[1].blue_num), (a * 20, a * 15, a * 10));
}

#[test]
fn shader_handle_returns_its_id() {
    let shader = Shader(7);
    assert_eq!(shader.id(), 7);
}

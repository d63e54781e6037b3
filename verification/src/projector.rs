//! Projection of a star record into renderable data, kept exact: the
//! two celestial angles as integer fractions of a turn, and the
//! brightness and colour as integer fractions of one. Turning these
//! into radians and floating-point colours is the renderer's one-step
//! conversion.

use vstd::prelude::*;
use crate::record::{StarRecord, SpecType};

verus! {

/// Denominator of the right-ascension numerator: the numerator over
/// this is the fraction of a full turn (2π radians). One hour of right
/// ascension is 3 600 000 milli-seconds of time, and a day has 24 of
/// them.
pub const RA_TURN_DENOM: i64 = 86_400_000;

/// Denominator of the declination numerator: the numerator over this
/// is the fraction of a quarter turn (π/2 radians), the linear
/// rescaling of 90 printed degrees of 3600 seconds each.
pub const DEC_QUARTER_DENOM: i64 = 324_000;

/// Denominator of the brightness numerator: the numerator over this
/// is the brightness in [0, 1].
pub const BRIGHTNESS_DENOM: u32 = 7_000;

/// Denominator of each colour-component numerator: the brightness
/// denominator times the twentieths of the tint table.
pub const COLOR_DENOM: u32 = 140_000;

/// Right ascension as thousandths of a second of time: the record's
/// hours, minutes and seconds laid onto one scale. Over
/// `RA_TURN_DENOM` this is h/24 + m/1440 + s/86400, the fraction of a
/// full turn.
pub open spec fn spec_ra_turn_num(r: StarRecord) -> int {
    r.ra_hours * 3_600_000 + r.ra_mins * 60_000 + r.ra_seconds_milli
}

/// Declination as seconds of arc: the record's degrees, minutes and
/// seconds laid onto one scale. Over `DEC_QUARTER_DENOM` this is
/// d/90 + m/5400 + s/324000, the linear fraction of a quarter turn.
pub open spec fn spec_dec_quarter_num(r: StarRecord) -> int {
    r.dec_deg * 3600 + r.dec_mins * 60 + r.dec_seconds
}

/// Brightness numerator over `BRIGHTNESS_DENOM`: the value of
/// (6 − magnitude) / 7 clamped to [0, 1], in thousandths of a
/// magnitude. Magnitude 6 or fainter yields 0; magnitude −1 or
/// brighter saturates at 1.
pub open spec fn spec_brightness_num(mag_milli: int) -> int {
    if mag_milli > 6_000 {
        0
    } else if mag_milli < -1_000 {
        7_000
    } else {
        6_000 - mag_milli
    }
}

/// Colour tint of a spectral class, in twentieths per channel: the
/// four hottest classes render neutral, G slightly warm, K warmer,
/// M warmest.
pub open spec fn spec_color_scale(c: SpecType) -> (int, int, int) {
    match c {
        SpecType::O => (20, 20, 20),
        SpecType::B => (20, 20, 20),
        SpecType::A => (20, 20, 20),
        SpecType::F => (20, 20, 20),
        SpecType::G => (20, 20, 18),
        SpecType::K => (20, 18, 15),
        SpecType::M => (20, 15, 10),
    }
}

/// One star ready for rendering: its two angles and three colour
/// components, all exact integer numerators over the fixed
/// denominators above.
#[derive(Clone, Copy, Debug, PartialEq, Eq, Structural)]
pub struct RenderPoint {
    /// Fraction of a full turn, over `RA_TURN_DENOM`.
    pub ra_turn_num: i64,
    /// Fraction of a quarter turn, over `DEC_QUARTER_DENOM`.
    pub dec_quarter_num: i64,
    /// Colour components, each over `COLOR_DENOM`.
    pub red_num: u32,
    pub green_num: u32,
    pub blue_num: u32,
}

/// The render point of one record.
pub open spec fn spec_render_point(r: StarRecord) -> RenderPoint {
    let a = spec_brightness_num(r.visual_mag_milli as int);
    let scale = spec_color_scale(r.spec_type);
    RenderPoint {
        ra_turn_num: spec_ra_turn_num(r) as i64,
        dec_quarter_num: spec_dec_quarter_num(r) as i64,
        red_num: (a * scale.0) as u32,
        green_num: (a * scale.1) as u32,
        blue_num: (a * scale.2) as u32,
    }
}

impl StarRecord {
    /// Equatorial position as exact angle numerators: right ascension
    /// over `RA_TURN_DENOM` of a full turn, declination over
    /// `DEC_QUARTER_DENOM` of a quarter turn.
    pub fn equatorial_position_scaled(&self) -> (r: (i64, i64))
        requires
            self.well_formed(),
        ensures
            r.0 == spec_ra_turn_num(*self),
            r.1 == spec_dec_quarter_num(*self),
    {
        let ra = (self.ra_hours as i64) * 3_600_000 + (self.ra_mins as i64) * 60_000 + (
        self.ra_seconds_milli as i64);
        let dec = (self.dec_deg as i64) * 3600 + (self.dec_mins as i64) * 60 + (
        self.dec_seconds as i64);
        (ra, dec)
    }

    /// Brightness numerator over `BRIGHTNESS_DENOM`, clamped to the
    /// denominator: fainter than magnitude 6 is dark, brighter than
    /// magnitude −1 is full.
    pub fn brightness_numerator(&self) -> (a: u32)
        ensures
            a == spec_brightness_num(self.visual_mag_milli as int),
            a <= BRIGHTNESS_DENOM,
    {
        if self.visual_mag_milli > 6_000 {
            0
        } else if self.visual_mag_milli < -1_000 {
            7_000
        } else {
            (6_000 - self.visual_mag_milli) as u32
        }
    }

    /// Colour numerators over `COLOR_DENOM`: the brightness numerator
    /// scaled by the class tint.
    pub fn color_numerators(&self) -> (rgb: (u32, u32, u32))
        ensures
            ({
                let a = spec_brightness_num(self.visual_mag_milli as int);
                let scale = spec_color_scale(self.spec_type);
                rgb.0 == a * scale.0 && rgb.1 == a * scale.1 && rgb.2 == a * scale.2
            }),
    {
        let a = self.brightness_numerator();
        match self.spec_type {
            SpecType::O => (a * 20, a * 20, a * 20),
            SpecType::B => (a * 20, a * 20, a * 20),
            SpecType::A => (a * 20, a * 20, a * 20),
            SpecType::F => (a * 20, a * 20, a * 20),
            SpecType::G => (a * 20, a * 20, a * 18),
            SpecType::K => (a * 20, a * 18, a * 15),
            SpecType::M => (a * 20, a * 15, a * 10),
        }
    }

    /// The whole render point of this record.
    pub fn render_point(&self) -> (p: RenderPoint)
        requires
            self.well_formed(),
        ensures
            p == spec_render_point(*self),
    {
        let (ra, dec) = self.equatorial_position_scaled();
        let (red, green, blue) = self.color_numerators();
        RenderPoint { ra_turn_num: ra, dec_quarter_num: dec, red_num: red, green_num: green, blue_num: blue }
    }
}

/// Brightness law: the brightness numerator never increases as the
/// visual magnitude grows — a fainter star is never brighter.
pub proof fn lemma_brightness_monotone(m1: int, m2: int)
    requires
        m1 <= m2,
    ensures
        spec_brightness_num(m1) >= spec_brightness_num(m2),
{
}

/// Brightness law: the numerator stays within [0, BRIGHTNESS_DENOM],
/// so the brightness value is clamped to [0, 1].
pub proof fn lemma_brightness_clamped(m: int)
    ensures
        0 <= spec_brightness_num(m) <= BRIGHTNESS_DENOM,
{
}

/// Projects every record of a catalogue, in order: element `i` of the
/// result is the render point of star `i`.
pub fn project_catalogue(stars: &Vec<StarRecord>) -> (pts: Vec<RenderPoint>)
    requires
        forall|i: int| 0 <= i < stars@.len() ==> stars@[i].well_formed(),
    ensures
        pts@.len() == stars@.len(),
        forall|i: int| 0 <= i < stars@.len() ==> pts@[i] == spec_render_point(stars@[i]),
{
    let mut pts: Vec<RenderPoint> = Vec::new();
    let mut i: usize = 0;
    while i < stars.len()
        invariant
            0 <= i <= stars@.len(),
            pts@.len() == i,
            forall|k: int| 0 <= k < stars@.len() ==> stars@[k].well_formed(),
            forall|k: int| 0 <= k < i ==> pts@[k] == spec_render_point(stars@[k]),
        decreases stars@.len() - i,
    {
        let p = stars[i].render_point();
        pts.push(p);
        i = i + 1;
    }
    pts
}

} // verus!

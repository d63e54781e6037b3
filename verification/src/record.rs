//! The typed star record a catalogue line yields, the spectral-class
//! enumeration with its legacy-code coercions, and the error raised by
//! a malformed required field.

use vstd::prelude::*;

verus! {

/// Coarse spectral class of a star; correlates with surface
/// temperature and so with the colour tint used when rendering.
#[derive(Clone, Copy, Debug, PartialEq, Eq, Structural)]
pub enum SpecType {
    O,
    B,
    A,
    F,
    G,
    K,
    M,
}

/// ASCII codes of the spectral letters that the catalogue may carry.
pub const LETTER_UPPER_A: u8 = 65;

pub const LETTER_UPPER_B: u8 = 66;

pub const LETTER_UPPER_C: u8 = 67;

pub const LETTER_UPPER_F: u8 = 70;

pub const LETTER_UPPER_G: u8 = 71;

pub const LETTER_UPPER_K: u8 = 75;

pub const LETTER_UPPER_M: u8 = 77;

pub const LETTER_UPPER_N: u8 = 78;

pub const LETTER_UPPER_O: u8 = 79;

pub const LETTER_UPPER_S: u8 = 83;

pub const LETTER_UPPER_W: u8 = 87;

pub const LETTER_LOWER_P: u8 = 112;

/// The class a spectral-code byte stands for. The seven standard
/// letters map to themselves; the legacy codes S, N and C are read as
/// class M, and W and the lowercase p (carried by one famous peculiar
/// star) as class O. Every other byte is rejected.
pub open spec fn spec_class_of_code(c: u8) -> Option<SpecType> {
    if c == LETTER_UPPER_O {
        Some(SpecType::O)
    } else if c == LETTER_UPPER_B {
        Some(SpecType::B)
    } else if c == LETTER_UPPER_A {
        Some(SpecType::A)
    } else if c == LETTER_UPPER_F {
        Some(SpecType::F)
    } else if c == LETTER_UPPER_G {
        Some(SpecType::G)
    } else if c == LETTER_UPPER_K {
        Some(SpecType::K)
    } else if c == LETTER_UPPER_M {
        Some(SpecType::M)
    } else if c == LETTER_UPPER_S || c == LETTER_UPPER_N || c == LETTER_UPPER_C {
        Some(SpecType::M)
    } else if c == LETTER_UPPER_W || c == LETTER_LOWER_P {
        Some(SpecType::O)
    } else {
        None
    }
}

/// Reads one spectral-code byte; `None` exactly on the bytes the
/// catalogue format does not allow.
pub fn class_of_code(c: u8) -> (r: Option<SpecType>)
    ensures
        r == spec_class_of_code(c),
{
    if c == LETTER_UPPER_O {
        Some(SpecType::O)
    } else if c == LETTER_UPPER_B {
        Some(SpecType::B)
    } else if c == LETTER_UPPER_A {
        Some(SpecType::A)
    } else if c == LETTER_UPPER_F {
        Some(SpecType::F)
    } else if c == LETTER_UPPER_G {
        Some(SpecType::G)
    } else if c == LETTER_UPPER_K {
        Some(SpecType::K)
    } else if c == LETTER_UPPER_M {
        Some(SpecType::M)
    } else if c == LETTER_UPPER_S || c == LETTER_UPPER_N || c == LETTER_UPPER_C {
        Some(SpecType::M)
    } else if c == LETTER_UPPER_W || c == LETTER_LOWER_P {
        Some(SpecType::O)
    } else {
        None
    }
}

/// The spectral coercion law: the standard letters map to themselves,
/// S, N and C are read as M, W and p as O, and any other single byte
/// is rejected.
pub proof fn lemma_spectral_coercion(c: u8)
    ensures
        c == LETTER_UPPER_O || c == LETTER_UPPER_W || c == LETTER_LOWER_P ==> spec_class_of_code(c)
            == Some(SpecType::O),
        c == LETTER_UPPER_B ==> spec_class_of_code(c) == Some(SpecType::B),
        c == LETTER_UPPER_A ==> spec_class_of_code(c) == Some(SpecType::A),
        c == LETTER_UPPER_F ==> spec_class_of_code(c) == Some(SpecType::F),
        c == LETTER_UPPER_G ==> spec_class_of_code(c) == Some(SpecType::G),
        c == LETTER_UPPER_K ==> spec_class_of_code(c) == Some(SpecType::K),
        c == LETTER_UPPER_M || c == LETTER_UPPER_S || c == LETTER_UPPER_N || c == LETTER_UPPER_C
            ==> spec_class_of_code(c) == Some(SpecType::M),
        !(c == LETTER_UPPER_O || c == LETTER_UPPER_B || c == LETTER_UPPER_A || c == LETTER_UPPER_F
            || c == LETTER_UPPER_G || c == LETTER_UPPER_K || c == LETTER_UPPER_M || c
            == LETTER_UPPER_S || c == LETTER_UPPER_N || c == LETTER_UPPER_C || c == LETTER_UPPER_W
            || c == LETTER_LOWER_P) ==> spec_class_of_code(c) is None,
{
}

/// One star as read from a valid catalogue line. Fractional fields
/// (right-ascension seconds, visual magnitude) are held exactly in
/// milli-units, one thousandth of the printed unit.
#[derive(Clone, Copy, Debug, PartialEq, Eq, Structural)]
pub struct StarRecord {
    /// Catalogue cross-reference number; zero when unparsable.
    pub hd_num: i64,
    pub ra_hours: i8,
    pub ra_mins: i8,
    /// Right-ascension seconds, in thousandths of a second.
    pub ra_seconds_milli: i32,
    pub dec_deg: i8,
    pub dec_mins: i8,
    pub dec_seconds: i8,
    /// Visual magnitude, in thousandths of a magnitude.
    pub visual_mag_milli: i32,
    pub spec_type: SpecType,
}

impl StarRecord {
    /// Ranges every record read from a catalogue line obeys: the
    /// sexagesimal parts come from two-digit fields and the fractional
    /// fields from four-byte decimal fields read in milli-units.
    pub open spec fn well_formed(self) -> bool {
        &&& -99 <= self.ra_hours <= 99
        &&& -99 <= self.ra_mins <= 99
        &&& -10_000_000 < self.ra_seconds_milli < 10_000_000
        &&& -99 <= self.dec_deg <= 99
        &&& -99 <= self.dec_mins <= 99
        &&& -99 <= self.dec_seconds <= 99
        &&& -10_000_000 < self.visual_mag_milli < 10_000_000
    }
}

/// Why a whole catalogue load fails: a malformed required field on a
/// line whose position and magnitude were present. Each variant names
/// the first field, in reading order, that did not parse.
#[derive(Clone, Copy, Debug, PartialEq, Eq, Structural)]
pub enum CatalogueError {
    /// The line is too short to carry the required columns.
    ShortLine,
    BadRaMinutes,
    BadRaSeconds,
    BadDecDegrees,
    BadDecMinutes,
    BadDecSeconds,
    /// The spectral-code byte is none that the format allows.
    BadSpectralCode,
}

} // verus!

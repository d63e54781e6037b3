//! Reading one fixed-column catalogue line into an optional star
//! record. A line with no parsable right-ascension hours or visual
//! magnitude carries no usable position and is skipped; once both are
//! present, every other required field must parse, and a failure there
//! is an error that ends the whole load. The identifier alone falls
//! back to zero.

use vstd::prelude::*;
use crate::numeric::{
    spec_parse_int, spec_parse_decimal_milli, parse_int_field, parse_decimal_milli_field,
    lemma_parse_int_bound, lemma_parse_decimal_bound, pow10, BYTE_PLUS,
};
use crate::record::{StarRecord, CatalogueError, spec_class_of_code, class_of_code};

verus! {

// Field columns of a catalogue line: 0-indexed, half-open byte ranges.
pub const FIELD_ID_START: usize = 25;

pub const FIELD_ID_END: usize = 31;

pub const FIELD_RA_HOURS_START: usize = 75;

pub const FIELD_RA_HOURS_END: usize = 77;

pub const FIELD_RA_MINS_START: usize = 77;

pub const FIELD_RA_MINS_END: usize = 79;

pub const FIELD_RA_SECONDS_START: usize = 79;

pub const FIELD_RA_SECONDS_END: usize = 83;

pub const FIELD_DEC_SIGN: usize = 83;

pub const FIELD_DEC_DEG_START: usize = 84;

pub const FIELD_DEC_DEG_END: usize = 86;

pub const FIELD_DEC_MINS_START: usize = 86;

pub const FIELD_DEC_MINS_END: usize = 88;

pub const FIELD_DEC_SECONDS_START: usize = 88;

pub const FIELD_DEC_SECONDS_END: usize = 90;

pub const FIELD_VMAG_START: usize = 103;

pub const FIELD_VMAG_END: usize = 107;

pub const FIELD_SPEC_CODE: usize = 129;

/// Columns a line must reach before the skip-or-parse decision can be
/// made (through the visual-magnitude field).
pub const DECIDE_LEN: usize = 107;

/// Columns a fully parsed line must reach (through the spectral code).
pub const FULL_LEN: usize = 130;

/// What one catalogue line yields: `Ok(None)` when the line has no
/// usable position (RA-hours or visual magnitude does not parse),
/// `Ok(Some(record))` when every field reads, and `Err` naming the
/// first malformed required field otherwise. The identifier field is
/// the one fallback: unparsable means zero. The declination sign byte
/// drives all three declination parts; any byte but `+` means negative.
pub open spec fn spec_parse_line(line: Seq<u8>) -> Result<Option<StarRecord>, CatalogueError> {
    if line.len() < DECIDE_LEN {
        Err(CatalogueError::ShortLine)
    } else {
        let ra_h = spec_parse_int(
            line.subrange(FIELD_RA_HOURS_START as int, FIELD_RA_HOURS_END as int),
        );
        let vmag = spec_parse_decimal_milli(
            line.subrange(FIELD_VMAG_START as int, FIELD_VMAG_END as int),
        );
        if ra_h is None || vmag is None {
            Ok(None)
        } else {
            let neg = line[FIELD_DEC_SIGN as int] != BYTE_PLUS;
            let ra_m = spec_parse_int(
                line.subrange(FIELD_RA_MINS_START as int, FIELD_RA_MINS_END as int),
            );
            let ra_s = spec_parse_decimal_milli(
                line.subrange(FIELD_RA_SECONDS_START as int, FIELD_RA_SECONDS_END as int),
            );
            let dd = spec_parse_int(
                line.subrange(FIELD_DEC_DEG_START as int, FIELD_DEC_DEG_END as int),
            );
            let dm = spec_parse_int(
                line.subrange(FIELD_DEC_MINS_START as int, FIELD_DEC_MINS_END as int),
            );
            let ds = spec_parse_int(
                line.subrange(FIELD_DEC_SECONDS_START as int, FIELD_DEC_SECONDS_END as int),
            );
            if ra_m is None {
                Err(CatalogueError::BadRaMinutes)
            } else if ra_s is None {
                Err(CatalogueError::BadRaSeconds)
            } else if dd is None {
                Err(CatalogueError::BadDecDegrees)
            } else if dm is None {
                Err(CatalogueError::BadDecMinutes)
            } else if ds is None {
                Err(CatalogueError::BadDecSeconds)
            } else if line.len() < FULL_LEN {
                Err(CatalogueError::ShortLine)
            } else if spec_class_of_code(line[FIELD_SPEC_CODE as int]) is None {
                Err(CatalogueError::BadSpectralCode)
            } else {
                let hd = match spec_parse_int(line.subrange(FIELD_ID_START as int, FIELD_ID_END as int)) {
                    Some(v) => v,
                    None => 0,
                };
                Ok(
                    Some(
                        StarRecord {
                            hd_num: hd as i64,
                            ra_hours: (ra_h->0) as i8,
                            ra_mins: (ra_m->0) as i8,
                            ra_seconds_milli: (ra_s->0) as i32,
                            dec_deg: (if neg {
                                -(dd->0)
                            } else {
                                dd->0
                            }) as i8,
                            dec_mins: (if neg {
                                -(dm->0)
                            } else {
                                dm->0
                            }) as i8,
                            dec_seconds: (if neg {
                                -(ds->0)
                            } else {
                                ds->0
                            }) as i8,
                            visual_mag_milli: (vmag->0) as i32,
                            spec_type: spec_class_of_code(line[FIELD_SPEC_CODE as int])->0,
                        },
                    ),
                )
            }
        }
    }
}

/// Reads one catalogue line. The result is exactly what
/// `spec_parse_line` says of the bytes, and any record produced keeps
/// the field ranges of a catalogue record.
#[verifier::rlimit(60)]
pub fn parse_catalogue_line(line: &[u8]) -> (r: Result<Option<StarRecord>, CatalogueError>)
    ensures
        r == spec_parse_line(line@),
        match r {
            Ok(Some(rec)) => rec.well_formed(),
            _ => true,
        },
{
    let n = line.len();
    if n < DECIDE_LEN {
        return Err(CatalogueError::ShortLine);
    }
    proof {
        lemma_parse_int_bound(line@.subrange(FIELD_RA_HOURS_START as int, FIELD_RA_HOURS_END as int));
        lemma_parse_int_bound(line@.subrange(FIELD_RA_MINS_START as int, FIELD_RA_MINS_END as int));
        lemma_parse_int_bound(line@.subrange(FIELD_DEC_DEG_START as int, FIELD_DEC_DEG_END as int));
        lemma_parse_int_bound(line@.subrange(FIELD_DEC_MINS_START as int, FIELD_DEC_MINS_END as int));
        lemma_parse_int_bound(
            line@.subrange(FIELD_DEC_SECONDS_START as int, FIELD_DEC_SECONDS_END as int),
        );
        lemma_parse_decimal_bound(
            line@.subrange(FIELD_RA_SECONDS_START as int, FIELD_RA_SECONDS_END as int),
        );
        lemma_parse_decimal_bound(line@.subrange(FIELD_VMAG_START as int, FIELD_VMAG_END as int));
        assert(pow10(2) == 100 && pow10(4) == 10_000) by {
            reveal_with_fuel(pow10, 5);
        }
    }
    let ra_h_opt = parse_int_field(&line[FIELD_RA_HOURS_START..FIELD_RA_HOURS_END]);
    let vmag_opt = parse_decimal_milli_field(&line[FIELD_VMAG_START..FIELD_VMAG_END]);
    let (ra_h, vmag) = match (ra_h_opt, vmag_opt) {
        (Some(a), Some(b)) => (a, b),
        _ => {
            return Ok(None);
        },
    };
    let neg = line[FIELD_DEC_SIGN] != BYTE_PLUS;
    let ra_m = match parse_int_field(&line[FIELD_RA_MINS_START..FIELD_RA_MINS_END]) {
        Some(v) => v,
        None => {
            return Err(CatalogueError::BadRaMinutes);
        },
    };
    let ra_s = match parse_decimal_milli_field(&line[FIELD_RA_SECONDS_START..FIELD_RA_SECONDS_END]) {
        Some(v) => v,
        None => {
            return Err(CatalogueError::BadRaSeconds);
        },
    };
    let dd = match parse_int_field(&line[FIELD_DEC_DEG_START..FIELD_DEC_DEG_END]) {
        Some(v) => v,
        None => {
            return Err(CatalogueError::BadDecDegrees);
        },
    };
    let dm = match parse_int_field(&line[FIELD_DEC_MINS_START..FIELD_DEC_MINS_END]) {
        Some(v) => v,
        None => {
            return Err(CatalogueError::BadDecMinutes);
        },
    };
    let ds = match parse_int_field(&line[FIELD_DEC_SECONDS_START..FIELD_DEC_SECONDS_END]) {
        Some(v) => v,
        None => {
            return Err(CatalogueError::BadDecSeconds);
        },
    };
    if n < FULL_LEN {
        return Err(CatalogueError::ShortLine);
    }
    let spec_type = match class_of_code(line[FIELD_SPEC_CODE]) {
        Some(c) => c,
        None => {
            return Err(CatalogueError::BadSpectralCode);
        },
    };
    let hd_num = match parse_int_field(&line[FIELD_ID_START..FIELD_ID_END]) {
        Some(v) => v,
        None => 0,
    };
    Ok(
        Some(
            StarRecord {
                hd_num,
                ra_hours: ra_h as i8,
                ra_mins: ra_m as i8,
                ra_seconds_milli: ra_s as i32,
                dec_deg: (if neg {
                    -dd
                } else {
                    dd
                }) as i8,
                dec_mins: (if neg {
                    -dm
                } else {
                    dm
                }) as i8,
                dec_seconds: (if neg {
                    -ds
                } else {
                    ds
                }) as i8,
                visual_mag_milli: vmag as i32,
                spec_type,
            },
        ),
    )
}

/// A line long enough to decide, whose RA-hours or visual-magnitude
/// field does not parse, is skipped: no record, and no error either.
pub proof fn lemma_missing_position_skipped(line: Seq<u8>)
    requires
        line.len() >= DECIDE_LEN,
        spec_parse_int(line.subrange(FIELD_RA_HOURS_START as int, FIELD_RA_HOURS_END as int))
            is None || spec_parse_decimal_milli(
            line.subrange(FIELD_VMAG_START as int, FIELD_VMAG_END as int),
        ) is None,
    ensures
        spec_parse_line(line) == Ok::<Option<StarRecord>, CatalogueError>(None),
{
}

/// Declination sign law: the one sign byte drives all three
/// declination parts of any record a line yields. A byte other than
/// `+` negates each parsed part — so non-negative printed magnitudes
/// come out non-positive — and `+` leaves each as printed.
pub proof fn lemma_declination_sign_propagates(line: Seq<u8>)
    ensures
        match spec_parse_line(line) {
            Ok(Some(rec)) => {
                let dd = spec_parse_int(
                line.subrange(FIELD_DEC_DEG_START as int, FIELD_DEC_DEG_END as int),
            )->0;
            let dm = spec_parse_int(
                line.subrange(FIELD_DEC_MINS_START as int, FIELD_DEC_MINS_END as int),
            )->0;
            let ds = spec_parse_int(
                line.subrange(FIELD_DEC_SECONDS_START as int, FIELD_DEC_SECONDS_END as int),
            )->0;
            if line[FIELD_DEC_SIGN as int] == BYTE_PLUS {
                rec.dec_deg == dd && rec.dec_mins == dm && rec.dec_seconds == ds
            } else {
                rec.dec_deg == -dd && rec.dec_mins == -dm && rec.dec_seconds == -ds
            }
            },
            _ => true,
        },
{
    lemma_parse_int_bound(line.subrange(FIELD_DEC_DEG_START as int, FIELD_DEC_DEG_END as int));
    lemma_parse_int_bound(line.subrange(FIELD_DEC_MINS_START as int, FIELD_DEC_MINS_END as int));
    lemma_parse_int_bound(
        line.subrange(FIELD_DEC_SECONDS_START as int, FIELD_DEC_SECONDS_END as int),
    );
    assert(pow10(2) == 100) by {
        reveal_with_fuel(pow10, 3);
    }
}

/// A fully valid line yields exactly one record whose fields are the
/// numerically parsed column substrings: the identifier at [25,31)
/// with fallback zero, RA at [75,77) h [77,79) m [79,83) s, the
/// declination triple at [84,90) under the sign byte at 83, the
/// visual magnitude at [103,107), and the spectral code at 129.
pub proof fn lemma_valid_line_fields(line: Seq<u8>)
    ensures
        match spec_parse_line(line) {
            Ok(Some(rec)) => {
                let sgn: int = if line[FIELD_DEC_SIGN as int] == BYTE_PLUS {
                1
            } else {
                -1
            };
            &&& line.len() >= FULL_LEN
            &&& rec.hd_num == (match spec_parse_int(
                line.subrange(FIELD_ID_START as int, FIELD_ID_END as int),
            ) {
                Some(v) => v,
                None => 0,
            })
            &&& rec.ra_hours == spec_parse_int(
                line.subrange(FIELD_RA_HOURS_START as int, FIELD_RA_HOURS_END as int),
            )->0
            &&& rec.ra_mins == spec_parse_int(
                line.subrange(FIELD_RA_MINS_START as int, FIELD_RA_MINS_END as int),
            )->0
            &&& rec.ra_seconds_milli == spec_parse_decimal_milli(
                line.subrange(FIELD_RA_SECONDS_START as int, FIELD_RA_SECONDS_END as int),
            )->0
            &&& rec.dec_deg == sgn * spec_parse_int(
                line.subrange(FIELD_DEC_DEG_START as int, FIELD_DEC_DEG_END as int),
            )->0
            &&& rec.dec_mins == sgn * spec_parse_int(
                line.subrange(FIELD_DEC_MINS_START as int, FIELD_DEC_MINS_END as int),
            )->0
            &&& rec.dec_seconds == sgn * spec_parse_int(
                line.subrange(FIELD_DEC_SECONDS_START as int, FIELD_DEC_SECONDS_END as int),
            )->0
            &&& rec.visual_mag_milli == spec_parse_decimal_milli(
                line.subrange(FIELD_VMAG_START as int, FIELD_VMAG_END as int),
            )->0
            &&& Some(rec.spec_type) == spec_class_of_code(line[FIELD_SPEC_CODE as int])
            },
            _ => true,
        },
{
    lemma_parse_int_bound(line.subrange(FIELD_ID_START as int, FIELD_ID_END as int));
    lemma_parse_int_bound(line.subrange(FIELD_RA_HOURS_START as int, FIELD_RA_HOURS_END as int));
    lemma_parse_int_bound(line.subrange(FIELD_RA_MINS_START as int, FIELD_RA_MINS_END as int));
    lemma_parse_int_bound(line.subrange(FIELD_DEC_DEG_START as int, FIELD_DEC_DEG_END as int));
    lemma_parse_int_bound(line.subrange(FIELD_DEC_MINS_START as int, FIELD_DEC_MINS_END as int));
    lemma_parse_int_bound(
        line.subrange(FIELD_DEC_SECONDS_START as int, FIELD_DEC_SECONDS_END as int),
    );
    lemma_parse_decimal_bound(
        line.subrange(FIELD_RA_SECONDS_START as int, FIELD_RA_SECONDS_END as int),
    );
    lemma_parse_decimal_bound(line.subrange(FIELD_VMAG_START as int, FIELD_VMAG_END as int));
    assert(pow10(2) == 100 && pow10(4) == 10_000 && pow10(6) == 1_000_000) by {
        reveal_with_fuel(pow10, 7);
    }
    let dd = spec_parse_int(line.subrange(FIELD_DEC_DEG_START as int, FIELD_DEC_DEG_END as int))->0;
    let dm = spec_parse_int(line.subrange(FIELD_DEC_MINS_START as int, FIELD_DEC_MINS_END as int))->0;
    let ds = spec_parse_int(
        line.subrange(FIELD_DEC_SECONDS_START as int, FIELD_DEC_SECONDS_END as int),
    )->0;
    assert(1 * dd == dd && 1 * dm == dm && 1 * ds == ds);
    assert(-1 * dd == -dd && -1 * dm == -dm && -1 * ds == -ds);
}

} // verus!

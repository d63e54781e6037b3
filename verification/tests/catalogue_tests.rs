use starfield::catalogue::load_catalogue;
use starfield::parser::parse_catalogue_line;
use starfield::record::{CatalogueError, SpecType, StarRecord};

/// Builds a 130-byte catalogue line with the given field texts laid
/// into their fixed columns; every other byte is a space.
fn make_line(
    id: &str,
    ra_h: &str,
    ra_m: &str,
    ra_s: &str,
    sign: u8,
    dec_d: &str,
    dec_m: &str,
    dec_s: &str,
    vmag: &str,
    spec: u8,
) -> Vec<u8> {
    let mut line = vec![b' '; 130];
    line[25..31].copy_from_slice(id.as_bytes());
    line[75..77].copy_from_slice(ra_h.as_bytes());
    line[77..79].copy_from_slice(ra_m.as_bytes());
    line[79..83].copy_from_slice(ra_s.as_bytes());
    line[83] = sign;
    line[84..86].copy_from_slice(dec_d.as_bytes());
    line[86..88].copy_from_slice(dec_m.as_bytes());
    line[88..90].copy_from_slice(dec_s.as_bytes());
    line[103..107].copy_from_slice(vmag.as_bytes());
    line[129] = spec;
    line
}

fn valid_line() -> Vec<u8> {
    make_line("001234", "06", "30", "12.5", b'+', "45", "30", "15", "4.25", b'G')
}

#[test]
fn valid_line_yields_exact_record() {
    let r = parse_catalogue_line(&valid_line()).unwrap().unwrap();
    assert_eq!(r.hd_num, 1234);
    assert_eq!(r.ra_hours, 6);
    assert_eq!(r.ra_mins, 30);
    assert_eq!(r.ra_seconds_milli, 12_500);
    assert_eq!(r.dec_deg, 45);
    assert_eq!(r.dec_mins, 30);
    assert_eq!(r.dec_seconds, 15);
    assert_eq!(r.visual_mag_milli, 4_250);
    assert_eq!(r.spec_type, SpecType::G);
}

#[test]
fn unparsable_identifier_falls_back_to_zero() {
    let line = make_line("  1234", "06", "30", "12.5", b'+', "45", "30", "15", "4.25", b'G');
    let r = parse_catalogue_line(&line).unwrap().unwrap();
    assert_eq!(r.hd_num, 0);
}

#[test]
fn missing_ra_hours_skips_line() {
    let line = make_line("001234", "  ", "30", "12.5", b'+', "45", "30", "15", "4.25", b'G');
    assert_eq!(parse_catalogue_line(&line), Ok(None));
}

#[test]
fn missing_visual_magnitude_skips_line() {
    let line = make_line("001234", "06", "30", "12.5", b'+', "45", "30", "15", "    ", b'G');
    assert_eq!(parse_catalogue_line(&line), Ok(None));
}

#[test]
fn minus_sign_negates_all_declination_parts() {
    let line = make_line("001234", "06", "30", "12.5", b'-', "45", "30", "15", "4.25", b'G');
    let r = parse_catalogue_line(&line).unwrap().unwrap();
    assert_eq!(r.dec_deg, -45);
    assert_eq!(r.dec_mins, -30);
    assert_eq!(r.dec_seconds, -15);
}

#[test]
fn any_non_plus_sign_means_negative() {
    let line = make_line("001234", "06", "30", "12.5", b' ', "45", "30", "15", "4.25", b'G');
    let r = parse_catalogue_line(&line).unwrap().unwrap();
    assert_eq!(r.dec_deg, -45);
    assert_eq!(r.dec_mins, -30);
    assert_eq!(r.dec_seconds, -15);
}

#[test]
fn plus_sign_keeps_declination_positive() {
    let r = parse_catalogue_line(&valid_line()).unwrap().unwrap();
    assert!(r.dec_deg == 45 && r.dec_mins == 30 && r.dec_seconds == 15);
}

#[test]
fn bad_ra_minutes_is_fatal() {
    let line = make_line("001234", "06", "x0", "12.5", b'+', "45", "30", "15", "4.25", b'G');
    assert_eq!(parse_catalogue_line(&line), Err(CatalogueError::BadRaMinutes));
}

#[test]
fn bad_ra_seconds_is_fatal() {
    let line = make_line("001234", "06", "30", "1..5", b'+', "45", "30", "15", "4.25", b'G');
    assert_eq!(parse_catalogue_line(&line), Err(CatalogueError::BadRaSeconds));
}

#[test]
fn bad_dec_degrees_is_fatal() {
    let line = make_line("001234", "06", "30", "12.5", b'+', " 5", "30", "15", "4.25", b'G');
    assert_eq!(parse_catalogue_line(&line), Err(CatalogueError::BadDecDegrees));
}

#[test]
fn bad_dec_minutes_is_fatal() {
    let line = make_line("001234", "06", "30", "12.5", b'+', "45", "3 ", "15", "4.25", b'G');
    assert_eq!(parse_catalogue_line(&line), Err(CatalogueError::BadDecMinutes));
}

#[test]
fn bad_dec_seconds_is_fatal() {
    let line = make_line("001234", "06", "30", "12.5", b'+', "45", "30", "1.", "4.25", b'G');
    assert_eq!(parse_catalogue_line(&line), Err(CatalogueError::BadDecSeconds));
}

#[test]
fn unknown_spectral_code_is_fatal() {
    let line = make_line("001234", "06", "30", "12.5", b'+', "45", "30", "15", "4.25", b'X');
    assert_eq!(parse_catalogue_line(&line), Err(CatalogueError::BadSpectralCode));
}

#[test]
fn short_line_is_fatal() {
    let line = vec![b' '; 90];
    assert_eq!(parse_catalogue_line(&line), Err(CatalogueError::ShortLine));
}

#[test]
fn line_cut_before_spectral_code_is_fatal() {
    let mut line = valid_line();
    line.truncate(120);
    assert_eq!(parse_catalogue_line(&line), Err(CatalogueError::ShortLine));
}

#[test]
fn load_keeps_file_order_and_drops_skipped_lines() {
    let first = make_line("000001", "01", "00", "00.0", b'+', "10", "00", "00", "1.00", b'O');
    let skipped = make_line("000002", "  ", "00", "00.0", b'+', "10", "00", "00", "2.00", b'B');
    let third = make_line("000003", "03", "00", "00.0", b'-', "30", "00", "00", "3.00", b'M');
    let mut text = Vec::new();
    text.extend_from_slice(&first);
    text.push(b'\n');
    text.extend_from_slice(&skipped);
    text.push(b'\n');
    text.extend_from_slice(&third);
    let stars = load_catalogue(&text).unwrap();
    assert_eq!(stars.len(), 2);
    assert_eq!(stars[0].hd_num, 1);
    assert_eq!(stars[0].spec_type, SpecType::O);
    assert_eq!(stars[1].hd_num, 3);
    assert_eq!(stars[1].dec_deg, -30);
}

#[test]
fn load_aborts_whole_catalogue_on_first_fatal_line() {
    // one fully valid O-type star, one missing its visual magnitude,
    // one with an unrecognized spectral code: the load must fail with
    // the third line's error and return no partial list
    let valid = make_line("000001", "01", "00", "00.0", b'+', "10", "00", "00", "1.00", b'O');
    let missing_mag = make_line("000002", "02", "00", "00.0", b'+', "20", "00", "00", "    ", b'B');
    let unknown_code = make_line("000003", "03", "00", "00.0", b'+', "30", "00", "00", "3.00", b'Z');
    let mut text = Vec::new();
    text.extend_from_slice(&valid);
    text.push(b'\n');
    text.extend_from_slice(&missing_mag);
    text.push(b'\n');
    text.extend_from_slice(&unknown_code);
    let r = load_catalogue(&text);
    assert_eq!(r, Err(CatalogueError::BadSpectralCode));
}

#[test]
fn load_handles_crlf_and_trailing_newline() {
    let line = valid_line();
    let mut text = Vec::new();
    text.extend_from_slice(&line);
    text.push(b'\r');
    text.push(b'\n');
    let stars = load_catalogue(&text).unwrap();
    assert_eq!(stars.len(), 1);
    assert_eq!(stars[0].hd_num, 1234);
}

#[test]
fn load_of_empty_text_is_empty() {
    let stars = load_catalogue(&[]).unwrap();
    assert_eq!(stars, Vec::<StarRecord>::new());
}

use qa_store::identifier::parse_identifier;
use qa_store::models::DBError;

const KEY: u128 = 0xa1a2a3a4b1b2c1c2d1d2d3d4d5d6d7d8;

fn refused(text: &str) -> Result<u128, DBError> {
    Err(DBError::InvalidUUID(text.to_string()))
}

#[test]
fn hyphenated_text_is_read() {
    assert_eq!(parse_identifier("a1a2a3a4-b1b2-c1c2-d1d2-d3d4d5d6d7d8"), Ok(KEY));
}

#[test]
fn upper_case_text_is_read() {
    assert_eq!(parse_identifier("A1A2A3A4-B1B2-C1C2-D1D2-D3D4D5D6D7D8"), Ok(KEY));
}

#[test]
fn text_without_hyphens_is_read() {
    assert_eq!(parse_identifier("a1a2a3a4b1b2c1c2d1d2d3d4d5d6d7d8"), Ok(KEY));
}

#[test]
fn braced_text_is_read() {
    assert_eq!(parse_identifier("{a1a2a3a4-b1b2-c1c2-d1d2-d3d4d5d6d7d8}"), Ok(KEY));
}

#[test]
fn urn_text_is_read() {
    assert_eq!(parse_identifier("urn:uuid:a1a2a3a4-b1b2-c1c2-d1d2-d3d4d5d6d7d8"), Ok(KEY));
}

#[test]
fn nil_and_max_are_read() {
    assert_eq!(parse_identifier("00000000-0000-0000-0000-000000000000"), Ok(0));
    assert_eq!(parse_identifier("ffffffff-ffff-ffff-ffff-ffffffffffff"), Ok(u128::MAX));
}

#[test]
fn malformed_text_is_refused_with_the_text() {
    assert_eq!(parse_identifier("not-a-uuid"), refused("not-a-uuid"));
}

#[test]
fn empty_text_is_refused() {
    assert_eq!(parse_identifier(""), refused(""));
}

#[test]
fn text_that_is_too_short_or_too_long_is_refused() {
    let short = "a1a2a3a4-b1b2-c1c2-d1d2-d3d4d5d6d7d";
    let long = "a1a2a3a4-b1b2-c1c2-d1d2-d3d4d5d6d7d8a";
    assert_eq!(parse_identifier(short), refused(short));
    assert_eq!(parse_identifier(long), refused(long));
}

#[test]
fn a_digit_that_is_not_hexadecimal_is_refused() {
    let text = "g1a2a3a4-b1b2-c1c2-d1d2-d3d4d5d6d7d8";
    assert_eq!(parse_identifier(text), refused(text));
}

#[test]
fn misplaced_hyphens_are_refused() {
    let text = "a1a2a3a4b-1b2-c1c2-d1d2-d3d4d5d6d7d8";
    assert_eq!(parse_identifier(text), refused(text));
}

#[test]
fn text_outside_ascii_is_refused() {
    // 36 bytes, but not 36 characters
    let text = "a1a2a3a4-b1b2-c1c2-d1d2-d3d4d5d6d7\u{e9}";
    assert_eq!(text.len(), 36);
    assert_eq!(parse_identifier(text), refused(text));
}

#[test]
fn surrounding_blanks_are_refused() {
    let text = " a1a2a3a4-b1b2-c1c2-d1d2-d3d4d5d6d7d8";
    assert_eq!(parse_identifier(text), refused(text));
}

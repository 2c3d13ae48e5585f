use sevenseg::{read_number, read_segments, ParseError, SSDChars, SSDPart};

fn pattern_for(symbol: char) -> Vec<SSDPart> {
    let table = SSDChars::default();
    match symbol {
        '0' => table.zero,
        '1' => table.one,
        '2' => table.two,
        '3' => table.three,
        '4' => table.four,
        '5' => table.five,
        '6' => table.six,
        '7' => table.seven,
        '8' => table.eight,
        '9' => table.nine,
        '.' => table.dot,
        '-' => table.minus,
        _ => panic!("no such symbol"),
    }
}

#[test]
fn negative_integer_magnitude_and_sign() {
    let parsed = read_number::<u64>(vec![pattern_for('-'), pattern_for('5')]).unwrap();
    assert_eq!(parsed.number, 5);
    assert!(parsed.is_negative);
    // The caller applies the sign itself.
    let signed = -(parsed.number as i64);
    assert_eq!(signed, -5);
}

#[test]
fn positive_integer_has_sign_flag_clear() {
    let parsed = read_number::<u64>(vec![pattern_for('4'), pattern_for('2')]).unwrap();
    assert_eq!(parsed.number, 42);
    assert!(!parsed.is_negative);
}

#[test]
fn float_readout_assembles_and_parses() {
    // The library assembles the text; a floating-point conversion is left to
    // the caller.
    let s = read_segments(vec![pattern_for('1'), pattern_for('.'), pattern_for('5')]);
    assert_eq!(s, "1.5");
    let magnitude: f64 = s.parse().unwrap();
    assert_eq!(magnitude, 1.5);
}

#[test]
fn decimal_point_is_invalid_in_an_integer() {
    let r = read_number::<u64>(vec![pattern_for('.'), pattern_for('5')]);
    assert_eq!(r.unwrap_err(), ParseError::InvalidDigit);
}

#[test]
fn empty_readout_gives_empty_error() {
    let r = read_number::<u64>(vec![]);
    assert_eq!(r.unwrap_err(), ParseError::Empty);
}

#[test]
fn lone_minus_gives_empty_error() {
    let r = read_number::<u64>(vec![pattern_for('-')]);
    assert_eq!(r.unwrap_err(), ParseError::Empty);
}

#[test]
fn minus_elsewhere_is_invalid() {
    let r = read_number::<u64>(vec![pattern_for('5'), pattern_for('-'), pattern_for('3')]);
    assert_eq!(r.unwrap_err(), ParseError::InvalidDigit);
}

#[test]
fn value_too_large_overflows() {
    let r = read_number::<u8>(vec![pattern_for('3'), pattern_for('0'), pattern_for('0')]);
    assert_eq!(r.unwrap_err(), ParseError::Overflow);

    let mut twenty_one_nines = Vec::new();
    for _ in 0..21 {
        twenty_one_nines.push(pattern_for('9'));
    }
    let r = read_number::<u64>(twenty_one_nines);
    assert_eq!(r.unwrap_err(), ParseError::Overflow);
}

#[test]
fn u64_maximum_still_parses() {
    // 18446744073709551615 is the largest value a u64 holds.
    let digits = ['1', '8', '4', '4', '6', '7', '4', '4', '0', '7', '3', '7', '0', '9', '5',
        '5', '1', '6', '1', '5'];
    let mut patterns = Vec::new();
    for d in digits {
        patterns.push(pattern_for(d));
    }
    let parsed = read_number::<u64>(patterns).unwrap();
    assert_eq!(parsed.number, u64::MAX);
    assert!(!parsed.is_negative);
}

#[test]
fn narrower_types_parse_too() {
    let parsed = read_number::<u32>(vec![pattern_for('7'), pattern_for('0')]).unwrap();
    assert_eq!(parsed.number, 70);
    let parsed = read_number::<u8>(vec![pattern_for('-'), pattern_for('9')]).unwrap();
    assert_eq!(parsed.number, 9);
    assert!(parsed.is_negative);
}

#[test]
fn unmatched_positions_vanish_before_parsing() {
    let junk = vec![SSDPart::Dot, SSDPart::Middle];
    let parsed = read_number::<u64>(vec![junk, pattern_for('8')]).unwrap();
    assert_eq!(parsed.number, 8);
    assert!(!parsed.is_negative);
}

#[test]
fn end_to_end_negative_eighty_four() {
    let readout = vec![
        vec![SSDPart::Middle],
        vec![
            SSDPart::UpperTop,
            SSDPart::UpperLeft,
            SSDPart::UpperRight,
            SSDPart::Middle,
            SSDPart::LowerLeft,
            SSDPart::LowerRight,
            SSDPart::LowerBottom,
        ],
        vec![SSDPart::UpperLeft, SSDPart::UpperRight, SSDPart::LowerRight, SSDPart::Middle],
    ];
    assert_eq!(read_segments(readout.clone()), "-84");
    let parsed = read_number::<u64>(readout).unwrap();
    assert_eq!(parsed.number, 84);
    assert!(parsed.is_negative);
    let signed = -(parsed.number as i64);
    assert_eq!(signed, -84);
}

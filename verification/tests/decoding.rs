use sevenseg::utils::cmp_vec_unordered;
use sevenseg::{get_segment_value, read_segments, SSDChars, SSDPart, SegmentValue};

fn pattern_for(symbol: char) -> Vec<SSDPart> {
    let table = SSDChars::default();
    match symbol {
        '0' => table.zero,
        '1' => table.one,
        '2' => table.two,
        '3' => table.three,
        '4' => table.four,
        '5' => table.five,
        '6' => table.six,
        '7' => table.seven,
        '8' => table.eight,
        '9' => table.nine,
        '.' => table.dot,
        '-' => table.minus,
        _ => panic!("no such symbol"),
    }
}

#[test]
fn equal_unordered_same_multiset_any_order() {
    let a = vec![SSDPart::UpperTop, SSDPart::Middle, SSDPart::Dot, SSDPart::Middle];
    let b = vec![SSDPart::Middle, SSDPart::Dot, SSDPart::Middle, SSDPart::UpperTop];
    assert!(cmp_vec_unordered(&a, b));
}

#[test]
fn equal_unordered_extra_element_on_either_side() {
    let a = vec![SSDPart::UpperTop, SSDPart::Middle];
    assert!(!cmp_vec_unordered(&a, vec![SSDPart::UpperTop, SSDPart::Middle, SSDPart::Dot]));
    assert!(!cmp_vec_unordered(&a, vec![SSDPart::UpperTop]));
}

#[test]
fn equal_unordered_not_fooled_by_duplicates() {
    let a = vec![SSDPart::Middle, SSDPart::Middle];
    assert!(!cmp_vec_unordered(&a, vec![SSDPart::Middle]));
    let c = vec![SSDPart::Middle];
    assert!(!cmp_vec_unordered(&c, vec![SSDPart::Middle, SSDPart::Middle]));
}

#[test]
fn equal_unordered_empty_collections() {
    let a: Vec<SSDPart> = vec![];
    assert!(cmp_vec_unordered(&a, vec![]));
}

#[test]
fn decode_every_canonical_digit_pattern() {
    for d in 0u8..10u8 {
        let symbol = (b'0' + d) as char;
        let val = get_segment_value(pattern_for(symbol)).unwrap();
        assert_eq!(val.number, Some(d));
        assert_eq!(val.character, None);
    }
}

#[test]
fn decode_dot_and_minus_patterns() {
    let dot = get_segment_value(pattern_for('.')).unwrap();
    assert_eq!(dot.number, None);
    assert_eq!(dot.character, Some('.'));

    let minus = get_segment_value(pattern_for('-')).unwrap();
    assert_eq!(minus.number, None);
    assert_eq!(minus.character, Some('-'));
}

#[test]
fn decode_canonical_pattern_in_scrambled_order() {
    // 4 is upper-left, upper-right, middle, lower-right, in any order.
    let scrambled = vec![
        SSDPart::LowerRight,
        SSDPart::Middle,
        SSDPart::UpperLeft,
        SSDPart::UpperRight,
    ];
    let val = get_segment_value(scrambled).unwrap();
    assert_eq!(val.number, Some(4));
}

#[test]
fn decode_unknown_pattern_is_none() {
    assert!(get_segment_value(vec![SSDPart::UpperTop]).is_none());
    assert!(get_segment_value(vec![SSDPart::Middle, SSDPart::Middle]).is_none());
    assert!(get_segment_value(vec![
        SSDPart::UpperTop,
        SSDPart::UpperLeft,
        SSDPart::UpperRight,
        SSDPart::LowerLeft,
        SSDPart::LowerRight,
        SSDPart::LowerBottom,
        SSDPart::Dot,
    ])
    .is_none());
}

#[test]
fn decode_round_trip_reproduces_every_pattern() {
    for symbol in ['0', '1', '2', '3', '4', '5', '6', '7', '8', '9', '.', '-'] {
        let val = get_segment_value(pattern_for(symbol)).unwrap();
        let re_encoded = match (val.number, val.character) {
            (Some(d), None) => pattern_for((b'0' + d) as char),
            (None, Some(c)) => pattern_for(c),
            _ => panic!("decoded value must carry exactly one of digit or character"),
        };
        assert!(cmp_vec_unordered(&pattern_for(symbol), re_encoded));
    }
}

#[test]
fn assemble_skips_unmatched_positions() {
    let junk = vec![SSDPart::UpperTop, SSDPart::Dot];
    let s = read_segments(vec![pattern_for('2'), junk, pattern_for('3')]);
    assert_eq!(s, "23");
}

#[test]
fn assemble_empty_readout_is_empty_string() {
    assert_eq!(read_segments(vec![]), "");
}

#[test]
fn assemble_preserves_order() {
    let s = read_segments(vec![
        pattern_for('9'),
        pattern_for('0'),
        pattern_for('.'),
        pattern_for('1'),
        pattern_for('-'),
    ]);
    assert_eq!(s, "90.1-");
}

#[test]
fn segment_value_constructors() {
    let n = SegmentValue::from_number(7);
    assert!(n.is_number());
    assert!(!n.is_char());
    assert_eq!(n.number, Some(7));

    let c = SegmentValue::from_char('.');
    assert!(c.is_char());
    assert!(!c.is_number());
    assert_eq!(c.character, Some('.'));

    let e = SegmentValue::empty();
    assert!(!e.is_number());
    assert!(!e.is_char());
}

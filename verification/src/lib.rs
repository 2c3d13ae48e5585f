//! Decoding of seven-segment display readouts.
//!
//! A readout is given as a sequence of character positions, each position an
//! unordered collection of lit segments. Each position is matched against the
//! canonical pattern table by multiset equality, the matches are assembled
//! into a string, and the string can be parsed into a number together with a
//! separate sign flag.

use vstd::prelude::*;

pub mod parse;
pub mod utils;

pub use parse::{ParseDecimal, ParseError};

verus! {

/// One physical segment of a seven-segment display, plus the auxiliary
/// decimal-point indicator.
#[derive(Clone, Copy, Debug, PartialEq, Eq, Structural)]
pub enum SSDPart {
    UpperTop,
    UpperLeft,
    UpperRight,
    Middle,
    LowerLeft,
    LowerRight,
    LowerBottom,
    Dot,
}

/// The canonical segment pattern of the digit `d`, for `0 <= d < 10`.
pub open spec fn spec_digit_pattern(d: int) -> Seq<SSDPart> {
    if d == 0 {
        seq![
            SSDPart::UpperTop,
            SSDPart::UpperLeft,
            SSDPart::UpperRight,
            SSDPart::LowerLeft,
            SSDPart::LowerRight,
            SSDPart::LowerBottom,
        ]
    } else if d == 1 {
        seq![SSDPart::UpperRight, SSDPart::LowerRight]
    } else if d == 2 {
        seq![
            SSDPart::UpperTop,
            SSDPart::UpperRight,
            SSDPart::Middle,
            SSDPart::LowerLeft,
            SSDPart::LowerBottom,
        ]
    } else if d == 3 {
        seq![
            SSDPart::UpperTop,
            SSDPart::UpperRight,
            SSDPart::Middle,
            SSDPart::LowerRight,
            SSDPart::LowerBottom,
        ]
    } else if d == 4 {
        seq![SSDPart::UpperLeft, SSDPart::UpperRight, SSDPart::Middle, SSDPart::LowerRight]
    } else if d == 5 {
        seq![
            SSDPart::UpperTop,
            SSDPart::UpperLeft,
            SSDPart::Middle,
            SSDPart::LowerRight,
            SSDPart::LowerBottom,
        ]
    } else if d == 6 {
        seq![
            SSDPart::UpperTop,
            SSDPart::UpperLeft,
            SSDPart::Middle,
            SSDPart::LowerLeft,
            SSDPart::LowerRight,
            SSDPart::LowerBottom,
        ]
    } else if d == 7 {
        seq![SSDPart::UpperTop, SSDPart::UpperRight, SSDPart::LowerRight]
    } else if d == 8 {
        seq![
            SSDPart::UpperTop,
            SSDPart::UpperLeft,
            SSDPart::UpperRight,
            SSDPart::Middle,
            SSDPart::LowerLeft,
            SSDPart::LowerRight,
            SSDPart::LowerBottom,
        ]
    } else if d == 9 {
        seq![
            SSDPart::UpperTop,
            SSDPart::UpperLeft,
            SSDPart::UpperRight,
            SSDPart::Middle,
            SSDPart::LowerRight,
            SSDPart::LowerBottom,
        ]
    } else {
        Seq::empty()
    }
}

/// The canonical pattern of the decimal point.
pub open spec fn spec_dot_pattern() -> Seq<SSDPart> {
    seq![SSDPart::Dot]
}

/// The canonical pattern of the minus sign.
pub open spec fn spec_minus_pattern() -> Seq<SSDPart> {
    seq![SSDPart::Middle]
}

/// The fixed table associating each recognized symbol (digits 0 through 9,
/// the decimal point and the minus sign) with its canonical segment pattern.
pub struct SSDChars {
    pub zero: Vec<SSDPart>,
    pub one: Vec<SSDPart>,
    pub two: Vec<SSDPart>,
    pub three: Vec<SSDPart>,
    pub four: Vec<SSDPart>,
    pub five: Vec<SSDPart>,
    pub six: Vec<SSDPart>,
    pub seven: Vec<SSDPart>,
    pub eight: Vec<SSDPart>,
    pub nine: Vec<SSDPart>,
    pub dot: Vec<SSDPart>,
    pub minus: Vec<SSDPart>,
}

impl SSDChars {
    /// Builds the canonical table: one entry per recognized symbol.
    pub fn default() -> (r: Self)
        ensures
            r.zero@ == spec_digit_pattern(0),
            r.one@ == spec_digit_pattern(1),
            r.two@ == spec_digit_pattern(2),
            r.three@ == spec_digit_pattern(3),
            r.four@ == spec_digit_pattern(4),
            r.five@ == spec_digit_pattern(5),
            r.six@ == spec_digit_pattern(6),
            r.seven@ == spec_digit_pattern(7),
            r.eight@ == spec_digit_pattern(8),
            r.nine@ == spec_digit_pattern(9),
            r.dot@ == spec_dot_pattern(),
            r.minus@ == spec_minus_pattern(),
    {
        let r = Self {
            zero: vec![
                SSDPart::UpperTop,
                SSDPart::UpperLeft,
                SSDPart::UpperRight,
                SSDPart::LowerLeft,
                SSDPart::LowerRight,
                SSDPart::LowerBottom,
            ],
            one: vec![SSDPart::UpperRight, SSDPart::LowerRight],
            two: vec![
                SSDPart::UpperTop,
                SSDPart::UpperRight,
                SSDPart::Middle,
                SSDPart::LowerLeft,
                SSDPart::LowerBottom,
            ],
            three: vec![
                SSDPart::UpperTop,
                SSDPart::UpperRight,
                SSDPart::Middle,
                SSDPart::LowerRight,
                SSDPart::LowerBottom,
            ],
            four: vec![
                SSDPart::UpperLeft,
                SSDPart::UpperRight,
                SSDPart::Middle,
                SSDPart::LowerRight,
            ],
            five: vec![
                SSDPart::UpperTop,
                SSDPart::UpperLeft,
                SSDPart::Middle,
                SSDPart::LowerRight,
                SSDPart::LowerBottom,
            ],
            six: vec![
                SSDPart::UpperTop,
                SSDPart::UpperLeft,
                SSDPart::Middle,
                SSDPart::LowerLeft,
                SSDPart::LowerRight,
                SSDPart::LowerBottom,
            ],
            seven: vec![SSDPart::UpperTop, SSDPart::UpperRight, SSDPart::LowerRight],
            eight: vec![
                SSDPart::UpperTop,
                SSDPart::UpperLeft,
                SSDPart::UpperRight,
                SSDPart::Middle,
                SSDPart::LowerLeft,
                SSDPart::LowerRight,
                SSDPart::LowerBottom,
            ],
            nine: vec![
                SSDPart::UpperTop,
                SSDPart::UpperLeft,
                SSDPart::UpperRight,
                SSDPart::Middle,
                SSDPart::LowerRight,
                SSDPart::LowerBottom,
            ],
            dot: vec![SSDPart::Dot],
            minus: vec![SSDPart::Middle],
        };
        proof {
            assert(r.zero@ =~= spec_digit_pattern(0));
            assert(r.one@ =~= spec_digit_pattern(1));
            assert(r.two@ =~= spec_digit_pattern(2));
            assert(r.three@ =~= spec_digit_pattern(3));
            assert(r.four@ =~= spec_digit_pattern(4));
            assert(r.five@ =~= spec_digit_pattern(5));
            assert(r.six@ =~= spec_digit_pattern(6));
            assert(r.seven@ =~= spec_digit_pattern(7));
            assert(r.eight@ =~= spec_digit_pattern(8));
            assert(r.nine@ =~= spec_digit_pattern(9));
            assert(r.dot@ =~= spec_dot_pattern());
            assert(r.minus@ =~= spec_minus_pattern());
        }
        r
    }
}

/// The result of decoding one character position: a digit, a literal
/// character, or neither (no match).
#[derive(Clone, Copy, Debug)]
pub struct SegmentValue {
    pub number: Option<u8>,
    pub character: Option<char>,
}

impl SegmentValue {
    pub fn from_number(number: u8) -> (r: Self)
        ensures
            r.number == Some(number),
            r.character == Option::<char>::None,
    {
        Self { number: Some(number), character: None }
    }

    pub fn from_char(character: char) -> (r: Self)
        ensures
            r.number == Option::<u8>::None,
            r.character == Some(character),
    {
        Self { number: None, character: Some(character) }
    }

    pub fn empty() -> (r: Self)
        ensures
            r.number == Option::<u8>::None,
            r.character == Option::<char>::None,
    {
        Self { number: None, character: None }
    }

    pub fn is_number(self) -> (r: bool)
        ensures
            r == self.number.is_some(),
    {
        self.number.is_some()
    }

    pub fn is_char(self) -> (r: bool)
        ensures
            r == self.character.is_some(),
    {
        self.character.is_some()
    }
}

/// Whether the pattern `s` matches the canonical pattern `p` as a multiset:
/// same segments, same multiplicities, in any order.
pub open spec fn spec_matches(s: Seq<SSDPart>, p: Seq<SSDPart>) -> bool {
    s.to_multiset() == p.to_multiset()
}

/// What one character position decodes to: the table entries are tried in a
/// fixed order, digits 0 through 9, then the decimal point, then the minus
/// sign; the first multiset match wins, and no match at all yields `None`.
pub open spec fn spec_decode(s: Seq<SSDPart>) -> Option<SegmentValue> {
    if spec_matches(s, spec_digit_pattern(0)) {
        Some(SegmentValue { number: Some(0u8), character: None })
    } else if spec_matches(s, spec_digit_pattern(1)) {
        Some(SegmentValue { number: Some(1u8), character: None })
    } else if spec_matches(s, spec_digit_pattern(2)) {
        Some(SegmentValue { number: Some(2u8), character: None })
    } else if spec_matches(s, spec_digit_pattern(3)) {
        Some(SegmentValue { number: Some(3u8), character: None })
    } else if spec_matches(s, spec_digit_pattern(4)) {
        Some(SegmentValue { number: Some(4u8), character: None })
    } else if spec_matches(s, spec_digit_pattern(5)) {
        Some(SegmentValue { number: Some(5u8), character: None })
    } else if spec_matches(s, spec_digit_pattern(6)) {
        Some(SegmentValue { number: Some(6u8), character: None })
    } else if spec_matches(s, spec_digit_pattern(7)) {
        Some(SegmentValue { number: Some(7u8), character: None })
    } else if spec_matches(s, spec_digit_pattern(8)) {
        Some(SegmentValue { number: Some(8u8), character: None })
    } else if spec_matches(s, spec_digit_pattern(9)) {
        Some(SegmentValue { number: Some(9u8), character: None })
    } else if spec_matches(s, spec_dot_pattern()) {
        Some(SegmentValue { number: None, character: Some('.') })
    } else if spec_matches(s, spec_minus_pattern()) {
        Some(SegmentValue { number: None, character: Some('-') })
    } else {
        None
    }
}

/// Decodes one character position by testing it against each of the twelve
/// table entries in order. Returns the first match, or `None` when the
/// pattern matches no entry.
pub fn get_segment_value(segment: Vec<SSDPart>) -> (r: Option<SegmentValue>)
    ensures
        r == spec_decode(segment@),
{
    let default_segments = SSDChars::default();

    if utils::cmp_vec_unordered(&segment, default_segments.zero) {
        return Some(SegmentValue::from_number(0));
    }
    if utils::cmp_vec_unordered(&segment, default_segments.one) {
        return Some(SegmentValue::from_number(1));
    }
    if utils::cmp_vec_unordered(&segment, default_segments.two) {
        return Some(SegmentValue::from_number(2));
    }
    if utils::cmp_vec_unordered(&segment, default_segments.three) {
        return Some(SegmentValue::from_number(3));
    }
    if utils::cmp_vec_unordered(&segment, default_segments.four) {
        return Some(SegmentValue::from_number(4));
    }
    if utils::cmp_vec_unordered(&segment, default_segments.five) {
        return Some(SegmentValue::from_number(5));
    }
    if utils::cmp_vec_unordered(&segment, default_segments.six) {
        return Some(SegmentValue::from_number(6));
    }
    if utils::cmp_vec_unordered(&segment, default_segments.seven) {
        return Some(SegmentValue::from_number(7));
    }
    if utils::cmp_vec_unordered(&segment, default_segments.eight) {
        return Some(SegmentValue::from_number(8));
    }
    if utils::cmp_vec_unordered(&segment, default_segments.nine) {
        return Some(SegmentValue::from_number(9));
    }
    if utils::cmp_vec_unordered(&segment, default_segments.dot) {
        return Some(SegmentValue::from_char('.'));
    }
    if utils::cmp_vec_unordered(&segment, default_segments.minus) {
        return Some(SegmentValue::from_char('-'));
    }
    None
}

/// The twelve table entries are collision-free, so each digit's canonical
/// pattern decodes to exactly that digit: decoding a canonical pattern and
/// re-encoding the result through the table reproduces the pattern.
pub proof fn lemma_decode_digit_pattern(d: u8)
    requires
        d < 10,
    ensures
        spec_decode(spec_digit_pattern(d as int)) == Some(
            (SegmentValue { number: Some(d), character: None }),
        ),
{
    let p0 = spec_digit_pattern(0);
    let p1 = spec_digit_pattern(1);
    let p2 = spec_digit_pattern(2);
    let p3 = spec_digit_pattern(3);
    let p4 = spec_digit_pattern(4);
    let p5 = spec_digit_pattern(5);
    let p6 = spec_digit_pattern(6);
    let p7 = spec_digit_pattern(7);
    let p8 = spec_digit_pattern(8);
    let p9 = spec_digit_pattern(9);
    if d == 1 {
        utils::lemma_multiset_differs_by_len(p0, p1);
    } else if d == 2 {
        utils::lemma_multiset_differs_by_len(p0, p2);
        utils::lemma_multiset_differs_by_len(p1, p2);
    } else if d == 3 {
        utils::lemma_multiset_differs_by_len(p0, p3);
        utils::lemma_multiset_differs_by_len(p1, p3);
        assert(p2.contains(SSDPart::LowerLeft)) by {
            assert(p2[3] == SSDPart::LowerLeft);
        }
        utils::lemma_multiset_differs_by_element(p2, p3, SSDPart::LowerLeft);
    } else if d == 4 {
        utils::lemma_multiset_differs_by_len(p0, p4);
        utils::lemma_multiset_differs_by_len(p1, p4);
        utils::lemma_multiset_differs_by_len(p2, p4);
        utils::lemma_multiset_differs_by_len(p3, p4);
    } else if d == 5 {
        utils::lemma_multiset_differs_by_len(p0, p5);
        utils::lemma_multiset_differs_by_len(p1, p5);
        assert(p2.contains(SSDPart::UpperRight)) by {
            assert(p2[1] == SSDPart::UpperRight);
        }
        utils::lemma_multiset_differs_by_element(p2, p5, SSDPart::UpperRight);
        assert(p3.contains(SSDPart::UpperRight)) by {
            assert(p3[1] == SSDPart::UpperRight);
        }
        utils::lemma_multiset_differs_by_element(p3, p5, SSDPart::UpperRight);
        utils::lemma_multiset_differs_by_len(p4, p5);
    } else if d == 6 {
        assert(p6.contains(SSDPart::Middle)) by {
            assert(p6[2] == SSDPart::Middle);
        }
        utils::lemma_multiset_differs_by_element(p6, p0, SSDPart::Middle);
        utils::lemma_multiset_differs_by_len(p1, p6);
        utils::lemma_multiset_differs_by_len(p2, p6);
        utils::lemma_multiset_differs_by_len(p3, p6);
        utils::lemma_multiset_differs_by_len(p4, p6);
        utils::lemma_multiset_differs_by_len(p5, p6);
    } else if d == 7 {
        utils::lemma_multiset_differs_by_len(p0, p7);
        utils::lemma_multiset_differs_by_len(p1, p7);
        utils::lemma_multiset_differs_by_len(p2, p7);
        utils::lemma_multiset_differs_by_len(p3, p7);
        utils::lemma_multiset_differs_by_len(p4, p7);
        utils::lemma_multiset_differs_by_len(p5, p7);
        utils::lemma_multiset_differs_by_len(p6, p7);
    } else if d == 8 {
        utils::lemma_multiset_differs_by_len(p0, p8);
        utils::lemma_multiset_differs_by_len(p1, p8);
        utils::lemma_multiset_differs_by_len(p2, p8);
        utils::lemma_multiset_differs_by_len(p3, p8);
        utils::lemma_multiset_differs_by_len(p4, p8);
        utils::lemma_multiset_differs_by_len(p5, p8);
        utils::lemma_multiset_differs_by_len(p6, p8);
        utils::lemma_multiset_differs_by_len(p7, p8);
    } else if d == 9 {
        assert(p9.contains(SSDPart::Middle)) by {
            assert(p9[3] == SSDPart::Middle);
        }
        utils::lemma_multiset_differs_by_element(p9, p0, SSDPart::Middle);
        utils::lemma_multiset_differs_by_len(p1, p9);
        utils::lemma_multiset_differs_by_len(p2, p9);
        utils::lemma_multiset_differs_by_len(p3, p9);
        utils::lemma_multiset_differs_by_len(p4, p9);
        utils::lemma_multiset_differs_by_len(p5, p9);
        assert(p6.contains(SSDPart::LowerLeft)) by {
            assert(p6[3] == SSDPart::LowerLeft);
        }
        utils::lemma_multiset_differs_by_element(p6, p9, SSDPart::LowerLeft);
        utils::lemma_multiset_differs_by_len(p7, p9);
        utils::lemma_multiset_differs_by_len(p8, p9);
    }
}

/// The decimal point's canonical pattern decodes to the literal `'.'`, so
/// decoding it and re-encoding the result reproduces the pattern.
pub proof fn lemma_decode_dot_pattern()
    ensures
        spec_decode(spec_dot_pattern()) == Some(
            (SegmentValue { number: None, character: Some('.') }),
        ),
{
    let dot = spec_dot_pattern();
    utils::lemma_multiset_differs_by_len(spec_digit_pattern(0), dot);
    utils::lemma_multiset_differs_by_len(spec_digit_pattern(1), dot);
    utils::lemma_multiset_differs_by_len(spec_digit_pattern(2), dot);
    utils::lemma_multiset_differs_by_len(spec_digit_pattern(3), dot);
    utils::lemma_multiset_differs_by_len(spec_digit_pattern(4), dot);
    utils::lemma_multiset_differs_by_len(spec_digit_pattern(5), dot);
    utils::lemma_multiset_differs_by_len(spec_digit_pattern(6), dot);
    utils::lemma_multiset_differs_by_len(spec_digit_pattern(7), dot);
    utils::lemma_multiset_differs_by_len(spec_digit_pattern(8), dot);
    utils::lemma_multiset_differs_by_len(spec_digit_pattern(9), dot);
}

/// The minus sign's canonical pattern decodes to the literal `'-'`, so
/// decoding it and re-encoding the result reproduces the pattern. By
/// construction no digit uses the middle segment alone, so the entry is
/// unambiguous.
pub proof fn lemma_decode_minus_pattern()
    ensures
        spec_decode(spec_minus_pattern()) == Some(
            (SegmentValue { number: None, character: Some('-') }),
        ),
{
    let minus = spec_minus_pattern();
    utils::lemma_multiset_differs_by_len(spec_digit_pattern(0), minus);
    utils::lemma_multiset_differs_by_len(spec_digit_pattern(1), minus);
    utils::lemma_multiset_differs_by_len(spec_digit_pattern(2), minus);
    utils::lemma_multiset_differs_by_len(spec_digit_pattern(3), minus);
    utils::lemma_multiset_differs_by_len(spec_digit_pattern(4), minus);
    utils::lemma_multiset_differs_by_len(spec_digit_pattern(5), minus);
    utils::lemma_multiset_differs_by_len(spec_digit_pattern(6), minus);
    utils::lemma_multiset_differs_by_len(spec_digit_pattern(7), minus);
    utils::lemma_multiset_differs_by_len(spec_digit_pattern(8), minus);
    utils::lemma_multiset_differs_by_len(spec_digit_pattern(9), minus);
    assert(minus.contains(SSDPart::Middle)) by {
        assert(minus[0] == SSDPart::Middle);
    }
    utils::lemma_multiset_differs_by_element(minus, spec_dot_pattern(), SSDPart::Middle);
}

/// A well-formed decoded value carries at most one of a digit and a literal
/// character, and any digit it carries is below ten.
pub open spec fn spec_value_wf(v: SegmentValue) -> bool {
    &&& !(v.number is Some && v.character is Some)
    &&& (v.number matches Some(d) ==> d < 10)
}

/// Every successful decode yields a well-formed value.
pub proof fn lemma_decode_wf(s: Seq<SSDPart>)
    ensures
        spec_decode(s) matches Some(v) ==> spec_value_wf(v),
{
}

/// The decimal digit character of `d`, for `0 <= d < 10`.
pub open spec fn spec_digit_char(d: int) -> char {
    if d == 0 {
        '0'
    } else if d == 1 {
        '1'
    } else if d == 2 {
        '2'
    } else if d == 3 {
        '3'
    } else if d == 4 {
        '4'
    } else if d == 5 {
        '5'
    } else if d == 6 {
        '6'
    } else if d == 7 {
        '7'
    } else if d == 8 {
        '8'
    } else {
        '9'
    }
}

/// The text a decoded value contributes to the assembled string: its literal
/// character if it carries one, then its digit if it carries a digit below
/// ten, and nothing for a failed decode.
pub open spec fn spec_render(v: Option<SegmentValue>) -> Seq<char> {
    match v {
        None => Seq::empty(),
        Some(sv) => (match sv.character {
            Some(c) => seq![c],
            None => Seq::empty(),
        }) + (match sv.number {
            Some(d) => if d < 10 {
                seq![spec_digit_char(d as int)]
            } else {
                Seq::empty()
            },
            None => Seq::empty(),
        }),
    }
}

/// The views of a sequence of segment collections.
pub open spec fn spec_views(ps: Seq<Vec<SSDPart>>) -> Seq<Seq<SSDPart>> {
    ps.map_values(|v: Vec<SSDPart>| v@)
}

/// The string assembled from a readout: each position is decoded and its
/// rendering appended, in input order; positions that decode to nothing
/// contribute nothing.
pub open spec fn spec_assemble(ps: Seq<Seq<SSDPart>>) -> Seq<char>
    decreases ps.len(),
{
    if ps.len() == 0 {
        Seq::empty()
    } else {
        spec_assemble(ps.drop_last()) + spec_render(spec_decode(ps.last()))
    }
}

/// Assembly is order-preserving: the string assembled from one readout
/// followed by another is the first readout's string followed by the
/// second's.
pub proof fn lemma_assemble_concat(ps1: Seq<Seq<SSDPart>>, ps2: Seq<Seq<SSDPart>>)
    ensures
        spec_assemble(ps1 + ps2) == spec_assemble(ps1) + spec_assemble(ps2),
    decreases ps2.len(),
{
    if ps2.len() == 0 {
        assert(ps1 + ps2 =~= ps1);
        assert(spec_assemble(ps1) + spec_assemble(ps2) =~= spec_assemble(ps1));
    } else {
        assert((ps1 + ps2).drop_last() =~= ps1 + ps2.drop_last());
        assert((ps1 + ps2).last() == ps2.last());
        lemma_assemble_concat(ps1, ps2.drop_last());
        assert(spec_assemble(ps1) + spec_assemble(ps2.drop_last()) + spec_render(
            spec_decode(ps2.last()),
        ) =~= spec_assemble(ps1) + spec_assemble(ps2));
    }
}

/// Assembly is loss-tolerant: a position that decodes to nothing contributes
/// nothing, so inserting it anywhere in a readout leaves the assembled
/// string unchanged.
pub proof fn lemma_assemble_skips_unmatched(ps: Seq<Seq<SSDPart>>, i: int, p: Seq<SSDPart>)
    requires
        0 <= i <= ps.len(),
        spec_decode(p) is None,
    ensures
        spec_assemble(ps.insert(i, p)) == spec_assemble(ps),
{
    let left = ps.take(i);
    let right = ps.skip(i);
    assert(ps.insert(i, p) =~= left + seq![p] + right);
    lemma_assemble_concat(left + seq![p], right);
    lemma_assemble_concat(left, seq![p]);
    assert(seq![p].drop_last() =~= Seq::<Seq<SSDPart>>::empty());
    assert(seq![p].last() == p);
    assert(spec_assemble(Seq::<Seq<SSDPart>>::empty()) =~= Seq::<char>::empty());
    assert(spec_assemble(seq![p]) =~= Seq::<char>::empty());
    lemma_assemble_concat(left, right);
    assert(left + right =~= ps);
    assert(spec_assemble(left) + spec_assemble(seq![p]) =~= spec_assemble(left));
}

/// Appends the decimal digit character of `d` to `s`.
fn push_digit(s: &mut String, d: u8)
    requires
        d < 10,
    ensures
        final(s)@ == old(s)@ + seq![spec_digit_char(d as int)],
{
    proof {
        reveal_strlit("0");
        reveal_strlit("1");
        reveal_strlit("2");
        reveal_strlit("3");
        reveal_strlit("4");
        reveal_strlit("5");
        reveal_strlit("6");
        reveal_strlit("7");
        reveal_strlit("8");
        reveal_strlit("9");
    }
    match d {
        0 => s.append("0"),
        1 => s.append("1"),
        2 => s.append("2"),
        3 => s.append("3"),
        4 => s.append("4"),
        5 => s.append("5"),
        6 => s.append("6"),
        7 => s.append("7"),
        8 => s.append("8"),
        _ => s.append("9"),
    }
}

/// Assembles a readout into a string: each character position is decoded
/// and, in input order, a matched literal character or digit is appended to
/// the output; unmatched positions are silently skipped.
pub fn read_segments(mut segments: Vec<Vec<SSDPart>>) -> (s: String)
    ensures
        s@ == spec_assemble(spec_views(segments@)),
    decreases segments@.len(),
{
    if segments.len() == 0 {
        proof {
            assert(spec_views(segments@) =~= Seq::<Seq<SSDPart>>::empty());
        }
        return String::new();
    }
    let ghost whole: Seq<Vec<SSDPart>> = segments@;
    let last = match segments.pop() {
        Some(v) => v,
        None => Vec::new(),
    };
    proof {
        assert(spec_views(segments@) =~= spec_views(whole).drop_last());
        assert(spec_views(whole).last() == last@);
    }
    let mut s = read_segments(segments);

    let val = match get_segment_value(last) {
        Some(v) => v,
        None => SegmentValue::empty(),
    };
    if val.is_char() {
        // The table yields only two literal characters.
        let c = match val.character {
            Some(c) => c,
            None => ' ',
        };
        if c == '.' {
            proof {
                reveal_strlit(".");
            }
            s.append(".");
        } else {
            proof {
                reveal_strlit("-");
            }
            s.append("-");
        }
    }
    if val.is_number() {
        let num = match val.number {
            Some(n) => n,
            None => 0,
        };
        if num < 10 {
            push_digit(&mut s, num);
        }
    }
    s
}

/// A parsed readout: the magnitude in the caller's numeric type and a
/// separate sign flag, left unapplied.
#[derive(Clone, Copy, Debug)]
pub struct UnknownNumber<T> {
    pub number: T,
    pub is_negative: bool,
}

/// Whether the assembled readout `a` starts with a literal minus sign.
pub open spec fn spec_is_negative(a: Seq<char>) -> bool {
    a.len() > 0 && a[0] == '-'
}

/// The assembled readout with a leading minus sign, if any, stripped.
pub open spec fn spec_magnitude_text(a: Seq<char>) -> Seq<char> {
    if spec_is_negative(a) {
        a.skip(1)
    } else {
        a
    }
}

/// Parses a readout into a number of type `T`: the readout is assembled, a
/// leading minus sign sets the sign flag and is dropped, and the remainder
/// is parsed by `T`'s textual parsing rules. The magnitude and the sign are
/// returned separately, unmultiplied.
pub fn read_number<T: ParseDecimal>(segments: Vec<Vec<SSDPart>>) -> (r: Result<
    UnknownNumber<T>,
    ParseError,
>)
    ensures
        ({
            let a = spec_assemble(spec_views(segments@));
            match T::spec_parse(spec_magnitude_text(a)) {
                Ok(v) => r matches Ok(u) && u.number == v && u.is_negative == spec_is_negative(a),
                Err(e) => r matches Err(e2) && e2 == e,
            }
        }),
{
    let parsed_segments = read_segments(segments);
    let st = parsed_segments.as_str();
    let n = st.unicode_len();
    let is_negative = n > 0 && st.get_char(0) == '-';

    let magnitude = if is_negative {
        let rest = st.substring_char(1, n);
        proof {
            assert(rest@ =~= st@.skip(1));
        }
        T::parse_decimal(rest)
    } else {
        T::parse_decimal(st)
    };
    match magnitude {
        Ok(number) => Ok(UnknownNumber { number, is_negative }),
        Err(e) => Err(e),
    }
}

} // verus!

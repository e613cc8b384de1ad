use vstd::prelude::*;

verus! {

/// The pattern shown for a character that seven segments cannot render: a question mark.
pub const UNRENDERABLE: u8 = 0b1110_0101;

/// The bit of a segment pattern, and of a Code B byte, that lights the decimal point.
pub const DECIMAL_POINT: u8 = 0b1000_0000;

/// An ASCII upper-case letter as its lower-case letter; any other byte as itself.
pub open spec fn fold_case(ch: u8) -> u8 {
    if 'A' <= ch as char <= 'Z' {
        (ch + 0x20) as u8
    } else {
        ch
    }
}

/// The segments of each glyph, bit 6 being segment A and bit 0 segment G. Letters are listed
/// in lower case.
pub open spec fn glyph(ch: u8) -> Option<u8> {
    match ch as char {
        ' ' => Some(0b0000_0000u8),
        '-' => Some(0b0000_0001u8),
        '_' => Some(0b0000_1000u8),
        '0' => Some(0b0111_1110u8),
        '1' => Some(0b0011_0000u8),
        '2' => Some(0b0110_1101u8),
        '3' => Some(0b0111_1001u8),
        '4' => Some(0b0011_0011u8),
        '5' => Some(0b0101_1011u8),
        '6' => Some(0b0101_1111u8),
        '7' => Some(0b0111_0000u8),
        '8' => Some(0b0111_1111u8),
        '9' => Some(0b0111_1011u8),
        'a' => Some(0b0111_0111u8),
        'b' => Some(0b0001_1111u8),
        'c' => Some(0b0100_1110u8),
        'd' => Some(0b0011_1101u8),
        'e' => Some(0b0100_1111u8),
        'f' => Some(0b0100_0111u8),
        'g' => Some(0b0101_1110u8),
        'h' => Some(0b0011_0111u8),
        'i' => Some(0b0011_0000u8),
        'j' => Some(0b0011_1100u8),
        'l' => Some(0b0000_1110u8),
        'n' => Some(0b0001_0101u8),
        'o' => Some(0b0111_1110u8),
        'p' => Some(0b0110_0111u8),
        'q' => Some(0b0111_0011u8),
        's' => Some(0b0101_1011u8),
        'u' => Some(0b0011_1110u8),
        _ => None,
    }
}

/// Whether seven segments can render `ch`: a space, `-`, `_`, a digit, or one of the letters
/// A b C d E F G H I J L n O P q S U in either case.
pub open spec fn renderable(ch: u8) -> bool {
    glyph(fold_case(ch)) is Some
}

/// The segment pattern for `ch`, without the decimal point.
pub open spec fn segments(ch: u8) -> u8 {
    match glyph(fold_case(ch)) {
        Some(pattern) => pattern,
        None => UNRENDERABLE,
    }
}

/// The byte for a digit register in no-decode mode that shows `b`, with the decimal point lit
/// when `dot` is set.
pub open spec fn spec_ssb_byte(b: u8, dot: bool) -> u8 {
    if dot {
        segments(b) | DECIMAL_POINT
    } else {
        segments(b)
    }
}

/// Gives the segment pattern that shows an ASCII byte. Every byte has a pattern:
/// one that cannot be rendered is shown as a question mark.
#[verifier::when_used_as_spec(spec_ssb_byte)]
pub fn ssb_byte(b: u8, dot: bool) -> (r: u8)
    ensures
        r == spec_ssb_byte(b, dot),
{
    let mut result: u8 = match b as char {
        ' ' => 0b0000_0000,
        '-' => 0b0000_0001,
        '_' => 0b0000_1000,
        '0' => 0b0111_1110,
        '1' => 0b0011_0000,
        '2' => 0b0110_1101,
        '3' => 0b0111_1001,
        '4' => 0b0011_0011,
        '5' => 0b0101_1011,
        '6' => 0b0101_1111,
        '7' => 0b0111_0000,
        '8' => 0b0111_1111,
        '9' => 0b0111_1011,
        'a' | 'A' => 0b0111_0111,
        'b' | 'B' => 0b0001_1111,
        'c' | 'C' => 0b0100_1110,
        'd' | 'D' => 0b0011_1101,
        'e' | 'E' => 0b0100_1111,
        'f' | 'F' => 0b0100_0111,
        'g' | 'G' => 0b0101_1110,
        'h' | 'H' => 0b0011_0111,
        'i' | 'I' => 0b0011_0000,
        'j' | 'J' => 0b0011_1100,
        'l' | 'L' => 0b0000_1110,
        'n' | 'N' => 0b0001_0101,
        'o' | 'O' => 0b0111_1110,
        'p' | 'P' => 0b0110_0111,
        'q' | 'Q' => 0b0111_0011,
        's' | 'S' => 0b0101_1011,
        'u' | 'U' => 0b0011_1110,
        _ => UNRENDERABLE,
    };
    if dot {
        result |= DECIMAL_POINT;
    }
    result
}

/// Showing a character with the decimal point is showing it without, with the decimal-point
/// bit added.
pub proof fn lemma_dot_adds_decimal_point(ch: u8)
    ensures
        ssb_byte(ch, true) == ssb_byte(ch, false) | 0b1000_0000,
{
}

/// A byte that seven segments cannot render is shown as the question mark, with or without
/// the decimal point: the question mark's pattern holds the decimal-point bit already.
pub proof fn lemma_unrenderable_is_question_mark(ch: u8, dot: bool)
    requires
        !renderable(ch),
    ensures
        ssb_byte(ch, dot) == 0b1110_0101,
{
    assert(0b1110_0101u8 | 0b1000_0000u8 == 0b1110_0101u8) by (bit_vector);
}

/// The pattern of a character that can be rendered lights the decimal point exactly when
/// `dot` asks for it.
pub proof fn lemma_renderable_dot_is_as_asked(ch: u8, dot: bool)
    requires
        renderable(ch),
    ensures
        (ssb_byte(ch, dot) & 0b1000_0000 != 0) == dot,
{
    let pattern = segments(ch);
    assert(pattern <= 0x7F);
    assert(pattern & 0b1000_0000 == 0) by (bit_vector)
        requires
            pattern <= 0x7Fu8,
    ;
    assert((pattern | 0b1000_0000) & 0b1000_0000 != 0) by (bit_vector);
}

/// The characters that can be rendered, one by one.
pub proof fn lemma_renderable_characters(ch: u8)
    ensures
        renderable(ch) <==> {
            let c = ch as char;
            ||| c == ' ' || c == '-' || c == '_'
            ||| '0' <= c <= '9'
            ||| 'a' <= c <= 'j' || c == 'l' || 'n' <= c <= 'q' || c == 's' || c == 'u'
            ||| 'A' <= c <= 'J' || c == 'L' || 'N' <= c <= 'Q' || c == 'S' || c == 'U'
        },
{
}

/// The Code B byte of each symbol that has one: blank, dash, and the letters E, H, L and P,
/// whose upper-case form lights the decimal point.
pub open spec fn code_b_symbol(ch: u8) -> Option<u8> {
    match ch as char {
        ' ' => Some(0b0000_1111u8),
        '-' => Some(0b0000_1010u8),
        'e' => Some(0b0000_1011u8),
        'E' => Some(0b1000_1011u8),
        'h' => Some(0b0000_1100u8),
        'H' => Some(0b1000_1100u8),
        'l' => Some(0b0000_1101u8),
        'L' => Some(0b1000_1101u8),
        'p' => Some(0b0000_1110u8),
        'P' => Some(0b1000_1110u8),
        _ => None,
    }
}

/// The byte for a digit register in Code B decode mode that shows `b`: the code of a symbol,
/// and any other byte as it is.
pub open spec fn spec_bcd_byte(b: u8) -> u8 {
    match code_b_symbol(b) {
        Some(code) => code,
        None => b,
    }
}

/// Gives the Code B byte for an ASCII byte: the code of a symbol, and any other byte as it
/// is. A digit is therefore given by its value, 0 to 9.
#[verifier::when_used_as_spec(spec_bcd_byte)]
pub fn bcd_byte(b: u8) -> (r: u8)
    ensures
        r == spec_bcd_byte(b),
{
    match b as char {
        ' ' => 0b0000_1111,
        '-' => 0b0000_1010,
        'e' => 0b0000_1011,
        'E' => 0b1000_1011,
        'h' => 0b0000_1100,
        'H' => 0b1000_1100,
        'l' => 0b0000_1101,
        'L' => 0b1000_1101,
        'p' => 0b0000_1110,
        'P' => 0b1000_1110,
        _ => b,
    }
}

/// A byte that is no Code B symbol passes through unchanged.
pub proof fn lemma_bcd_passes_other_bytes(b: u8)
    requires
        code_b_symbol(b) is None,
    ensures
        bcd_byte(b) == b,
{
}

/// An upper-case Code B letter is its lower-case letter with the decimal point lit.
pub proof fn lemma_bcd_upper_case_adds_decimal_point(b: u8)
    requires
        ({
            let c = b as char;
            c == 'e' || c == 'h' || c == 'l' || c == 'p'
        }),
    ensures
        bcd_byte((b - 0x20) as u8) == bcd_byte(b) | 0b1000_0000,
        bcd_byte(b) & 0b1000_0000 == 0,
{
    assert(0b0000_1011u8 | 0b1000_0000u8 == 0b1000_1011u8) by (bit_vector);
    assert(0b0000_1100u8 | 0b1000_0000u8 == 0b1000_1100u8) by (bit_vector);
    assert(0b0000_1101u8 | 0b1000_0000u8 == 0b1000_1101u8) by (bit_vector);
    assert(0b0000_1110u8 | 0b1000_0000u8 == 0b1000_1110u8) by (bit_vector);
    assert(0b0000_1011u8 & 0b1000_0000u8 == 0) by (bit_vector);
    assert(0b0000_1100u8 & 0b1000_0000u8 == 0) by (bit_vector);
    assert(0b0000_1101u8 & 0b1000_0000u8 == 0) by (bit_vector);
    assert(0b0000_1110u8 & 0b1000_0000u8 == 0) by (bit_vector);
}

} // verus!

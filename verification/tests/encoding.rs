use max7219_driver::encoding::{bcd_byte, ssb_byte, DECIMAL_POINT, UNRENDERABLE};

const GLYPHS: [(u8, u8); 30] = [
    (b' ', 0b0000_0000),
    (b'-', 0b0000_0001),
    (b'_', 0b0000_1000),
    (b'0', 0b0111_1110),
    (b'1', 0b0011_0000),
    (b'2', 0b0110_1101),
    (b'3', 0b0111_1001),
    (b'4', 0b0011_0011),
    (b'5', 0b0101_1011),
    (b'6', 0b0101_1111),
    (b'7', 0b0111_0000),
    (b'8', 0b0111_1111),
    (b'9', 0b0111_1011),
    (b'a', 0b0111_0111),
    (b'b', 0b0001_1111),
    (b'c', 0b0100_1110),
    (b'd', 0b0011_1101),
    (b'e', 0b0100_1111),
    (b'f', 0b0100_0111),
    (b'g', 0b0101_1110),
    (b'h', 0b0011_0111),
    (b'i', 0b0011_0000),
    (b'j', 0b0011_1100),
    (b'l', 0b0000_1110),
    (b'n', 0b0001_0101),
    (b'o', 0b0111_1110),
    (b'p', 0b0110_0111),
    (b'q', 0b0111_0011),
    (b's', 0b0101_1011),
    (b'u', 0b0011_1110),
];

fn glyph_of(ch: u8) -> Option<u8> {
    let folded = ch.to_ascii_lowercase();
    GLYPHS.iter().find(|(c, _)| *c == folded).map(|(_, p)| *p)
}

#[test]
fn segment_patterns_of_the_table() {
    for (ch, pattern) in GLYPHS {
        assert_eq!(ssb_byte(ch, false), pattern, "pattern of {:?}", ch as char);
    }
}

#[test]
fn segment_patterns_ignore_case() {
    for (ch, pattern) in GLYPHS {
        if ch.is_ascii_lowercase() {
            assert_eq!(ssb_byte(ch.to_ascii_uppercase(), false), pattern);
        }
    }
    assert_eq!(ssb_byte(b'B', false), 0b0001_1111);
    assert_eq!(ssb_byte(b'D', false), 0b0011_1101);
    assert_eq!(ssb_byte(b'Q', false), 0b0111_0011);
    assert_eq!(ssb_byte(b'N', false), 0b0001_0101);
}

#[test]
fn segment_pattern_of_digit_eight_with_dot() {
    assert_eq!(ssb_byte(b'8', true), 0b1111_1111);
    assert_eq!(ssb_byte(b' ', true), 0b1000_0000);
    assert_eq!(ssb_byte(b'-', true), 0b1000_0001);
}

#[test]
fn unrenderable_letters_show_question_mark() {
    for ch in b"KMRTVWXYZkmrtvwxyz" {
        assert_eq!(ssb_byte(*ch, false), 0b1110_0101);
        assert_eq!(ssb_byte(*ch, true), 0b1110_0101);
    }
}

#[test]
fn other_bytes_show_question_mark() {
    for ch in [0u8, 1, 0x1F, b'.', b'!', b'?', b'@', b'[', b'`', b'{', 0x7F, 0x80, 0xFF] {
        assert_eq!(ssb_byte(ch, false), 0b1110_0101);
        assert_eq!(ssb_byte(ch, true), 0b1110_0101);
    }
    assert_eq!(UNRENDERABLE, 0b1110_0101);
}

#[test]
fn every_byte_has_a_pattern() {
    for ch in 0..=255u8 {
        let expected = glyph_of(ch).unwrap_or(0b1110_0101);
        assert_eq!(ssb_byte(ch, false), expected);
        assert_eq!(ssb_byte(ch, true), expected | 0b1000_0000);
    }
}

#[test]
fn dot_only_adds_bit_seven() {
    for ch in 0..=255u8 {
        assert_eq!(ssb_byte(ch, true), ssb_byte(ch, false) | 0b1000_0000);
    }
    assert_eq!(DECIMAL_POINT, 0b1000_0000);
}

#[test]
fn renderable_characters_leave_bit_seven_to_the_dot() {
    for (ch, _) in GLYPHS {
        assert_eq!(ssb_byte(ch, false) & 0x80, 0);
        assert_eq!(ssb_byte(ch, true) & 0x80, 0x80);
    }
}

#[test]
fn segment_encoding_is_repeatable() {
    for ch in 0..=255u8 {
        assert_eq!(ssb_byte(ch, false), ssb_byte(ch, false));
        assert_eq!(ssb_byte(ch, true), ssb_byte(ch, true));
    }
}

#[test]
fn code_b_symbols() {
    assert_eq!(bcd_byte(b' '), 0b0000_1111);
    assert_eq!(bcd_byte(b'-'), 0b0000_1010);
    assert_eq!(bcd_byte(b'e'), 0b0000_1011);
    assert_eq!(bcd_byte(b'E'), 0b1000_1011);
    assert_eq!(bcd_byte(b'h'), 0b0000_1100);
    assert_eq!(bcd_byte(b'H'), 0b1000_1100);
    assert_eq!(bcd_byte(b'l'), 0b0000_1101);
    assert_eq!(bcd_byte(b'L'), 0b1000_1101);
    assert_eq!(bcd_byte(b'p'), 0b0000_1110);
    assert_eq!(bcd_byte(b'P'), 0b1000_1110);
}

#[test]
fn code_b_passes_other_bytes() {
    let symbols = b" -eEhHlLpP";
    for b in 0..=255u8 {
        if !symbols.contains(&b) {
            assert_eq!(bcd_byte(b), b);
        }
    }
    assert_eq!(bcd_byte(7), 7);
    assert_eq!(bcd_byte(b'7'), b'7');
    assert_eq!(bcd_byte(b'_'), b'_');
    assert_eq!(bcd_byte(b'?'), b'?');
}

#[test]
fn code_b_upper_case_lights_the_dot() {
    for lower in b"ehlp" {
        let upper = lower.to_ascii_uppercase();
        assert_eq!(bcd_byte(upper), bcd_byte(*lower) | 0x80);
        assert_eq!(bcd_byte(*lower) & 0x80, 0);
    }
}

use runty8::font::{glyph, glyph_pixel, CELL_HEIGHT, CELL_WIDTH, GLYPHS};
use runty8::text::{digit_char, push_decimal, push_decimal_nat, push_padded3, push_pair};

fn decimal(n: i32) -> String {
    let mut s = String::new();
    push_decimal(&mut s, n);
    s
}

#[test]
fn digits_are_characters() {
    assert_eq!(digit_char(0), '0');
    assert_eq!(digit_char(9), '9');
}

#[test]
fn numbers_in_decimal() {
    assert_eq!(decimal(0), "0");
    assert_eq!(decimal(7), "7");
    assert_eq!(decimal(10), "10");
    assert_eq!(decimal(1905), "1905");
    assert_eq!(decimal(-1), "-1");
    assert_eq!(decimal(-120), "-120");
    assert_eq!(decimal(i32::MAX), "2147483647");
    assert_eq!(decimal(i32::MIN), "-2147483648");
}

#[test]
fn numbers_are_put_at_the_end() {
    let mut s = String::from("N=");
    push_decimal_nat(&mut s, 18446744073709551615);
    assert_eq!(s, "N=18446744073709551615");
    push_decimal(&mut s, -5);
    assert_eq!(s, "N=18446744073709551615-5");
}

#[test]
fn three_digits_with_leading_zeros() {
    for (n, text) in [(0u8, "000"), (7, "007"), (42, "042"), (100, "100"), (255, "255")] {
        let mut s = String::from("#");
        push_padded3(&mut s, n);
        assert_eq!(s, format!("#{}", text));
    }
}

#[test]
fn pairs_in_brackets() {
    let mut s = String::new();
    push_pair(&mut s, 2, 3);
    assert_eq!(s, "(2, 3)");
    let mut s = String::from(">");
    push_pair(&mut s, -10, 127);
    assert_eq!(s, ">(-10, 127)");
}

#[test]
fn glyphs_from_space_to_z() {
    assert_eq!((CELL_WIDTH, CELL_HEIGHT), (4, 6));
    assert_eq!(GLYPHS.len(), 59);
    assert_eq!(glyph(' '), 0);
    assert_eq!(glyph('A'), 23535);
    assert_eq!(glyph('1'), 29843);
    assert_eq!(glyph('Z'), GLYPHS[58]);
    assert_eq!(glyph('!'), GLYPHS[1]);
}

#[test]
fn other_characters_are_blank() {
    for c in ['a', 'z', '[', '~', '\n', '\u{1f}', 'é', '\u{10ffff}'] {
        assert_eq!(glyph(c), 0);
    }
}

#[test]
fn glyph_pixels() {
    let rows = ["#..", "#..", "#..", "#..", "###"];
    for (y, row) in rows.iter().enumerate() {
        for (x, cell) in row.chars().enumerate() {
            assert_eq!(glyph_pixel('L', x as u16, y as u16), cell == '#');
        }
    }
    // The last column and the last row of a cell are empty.
    assert!(!glyph_pixel('L', 3, 4));
    assert!(!glyph_pixel('L', 0, 5));
    assert!(!glyph_pixel('L', 100, 100));
}

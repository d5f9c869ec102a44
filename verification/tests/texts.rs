use inheritance_plans::text::{blank, decimal, joined};

#[test]
fn white_space_is_blank() {
    assert!(blank(""));
    assert!(blank(" \t\r\n\u{b}\u{c}"));
    assert!(blank("\u{85}\u{a0}\u{1680}\u{2000}\u{200a}\u{2028}\u{2029}\u{202f}\u{205f}\u{3000}"));
}

#[test]
fn anything_else_is_not_blank() {
    assert!(!blank("G"));
    assert!(!blank("  G  "));
    assert!(!blank("\u{200b}"));
    assert!(!blank("\u{180e}"));
    assert!(!blank("\u{feff}"));
}

#[test]
fn the_white_space_property_has_twenty_five_characters() {
    let spaces: Vec<u32> = (0..=0x10ffff)
        .filter(|n| char::from_u32(*n).map_or(false, |c| c.is_whitespace()))
        .collect();
    assert_eq!(
        spaces,
        vec![
            0x9, 0xa, 0xb, 0xc, 0xd, 0x20, 0x85, 0xa0, 0x1680, 0x2000, 0x2001, 0x2002, 0x2003,
            0x2004, 0x2005, 0x2006, 0x2007, 0x2008, 0x2009, 0x200a, 0x2028, 0x2029, 0x202f, 0x205f,
            0x3000,
        ]
    );
}

#[test]
fn numerals_are_decimal() {
    assert_eq!(decimal(0), "0");
    assert_eq!(decimal(10), "10");
    assert_eq!(decimal(9_876_543_210), "9876543210");
    assert_eq!(decimal(u128::MAX), u128::MAX.to_string());
}

#[test]
fn texts_are_joined() {
    assert_eq!(joined("Database error: ", "gone"), "Database error: gone");
}

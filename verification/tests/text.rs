use multisweeper::text::{copy_text, digit_glyph, push_decimal};

fn numeral(n: u32) -> String {
    let mut text = String::new();
    push_decimal(&mut text, n);
    text
}

#[test]
fn decimal_numerals_match_the_standard_ones() {
    for n in [0u32, 1, 9, 10, 11, 99, 100, 1000, 9999, 10000, 65535, 4294967295] {
        assert_eq!(numeral(n), n.to_string());
    }
    for n in 0..3000u32 {
        assert_eq!(numeral(n), n.to_string());
    }
}

#[test]
fn decimal_is_appended_to_what_is_there() {
    let mut text = String::from("player ");
    push_decimal(&mut text, 42);
    assert_eq!(text, "player 42");
    push_decimal(&mut text, 0);
    assert_eq!(text, "player 420");
}

#[test]
fn different_numbers_have_different_numerals() {
    let mut seen = std::collections::HashSet::new();
    for n in 0..5000u32 {
        assert!(seen.insert(numeral(n)));
    }
}

#[test]
fn digits_have_their_characters() {
    let expected = ['0', '1', '2', '3', '4', '5', '6', '7', '8', '9'];
    for d in 0..10u8 {
        assert_eq!(digit_glyph(d), expected[d as usize]);
    }
    assert_eq!(digit_glyph(10), '?');
    assert_eq!(digit_glyph(255), '?');
}

#[test]
fn copy_text_copies() {
    let text = String::from("Lobby has been closed");
    assert_eq!(copy_text(&text), text);
    assert_eq!(copy_text(&String::new()), "");
}

use flexy_reds::color::{parse_color, Color};
use flexy_reds::errors::LiteralError;

#[test]
fn color_parses_six_hex_digits() {
    assert_eq!(
        parse_color("#112233").unwrap(),
        Color { red: 17, green: 34, blue: 51, alpha: 255 }
    );
}

#[test]
fn color_parses_mixed_case_digits() {
    assert_eq!(
        parse_color("#FFa000").unwrap(),
        Color { red: 255, green: 160, blue: 0, alpha: 255 }
    );
}

#[test]
fn color_without_prefix_fails() {
    assert!(matches!(parse_color("112233"), Err(LiteralError::MissingPrefix)));
}

#[test]
fn color_with_wrong_length_fails() {
    assert!(matches!(parse_color("#1122"), Err(LiteralError::WrongLength)));
    assert!(matches!(parse_color("#11223344"), Err(LiteralError::WrongLength)));
}

#[test]
fn color_with_bad_digits_fails() {
    assert!(matches!(parse_color("#gggggg"), Err(LiteralError::MalformedDigits)));
}

#[test]
fn color_empty_fails() {
    assert!(matches!(parse_color(""), Err(LiteralError::MissingPrefix)));
}

#[test]
fn color_new_packs_channels() {
    let c = Color::new(1, 2, 3, 4);
    assert_eq!((c.red, c.green, c.blue, c.alpha), (1, 2, 3, 4));
}

use pencilwm::color::{hex_digit, parse_hex_color};
use pencilwm::startup::SpawnOnStartup;

#[test]
fn color_with_a_hash() {
    assert_eq!(parse_hex_color("#883300"), Some(0x883300));
    assert_eq!(parse_hex_color("#000000"), Some(0));
    assert_eq!(parse_hex_color("#ffffff"), Some(0xFFFFFF));
}

#[test]
fn color_without_a_hash() {
    assert_eq!(parse_hex_color("22CC77"), Some(0x22CC77));
    assert_eq!(parse_hex_color("aAbBcC"), Some(0xAABBCC));
    assert_eq!(parse_hex_color("000001"), Some(1));
    assert_eq!(parse_hex_color("100000"), Some(0x100000));
}

#[test]
fn color_of_the_wrong_length() {
    assert_eq!(parse_hex_color(""), None);
    assert_eq!(parse_hex_color("#"), None);
    assert_eq!(parse_hex_color("fff"), None);
    assert_eq!(parse_hex_color("#ffff"), None);
    assert_eq!(parse_hex_color("#12345"), None);
    assert_eq!(parse_hex_color("1234567"), None);
    assert_eq!(parse_hex_color("#1234567"), None);
    assert_eq!(parse_hex_color("##123456"), None);
}

#[test]
fn color_with_other_characters() {
    assert_eq!(parse_hex_color("#12345g"), None);
    assert_eq!(parse_hex_color("12 456"), None);
    assert_eq!(parse_hex_color("0x1234"), None);
    assert_eq!(parse_hex_color("#-12345"), None);
    assert_eq!(parse_hex_color("12345#"), None);
    assert_eq!(parse_hex_color("x123456"), None);
    assert_eq!(parse_hex_color("12_456"), None);
}

#[test]
fn color_with_a_plus_sign() {
    assert_eq!(parse_hex_color("+12345"), Some(0x12345));
    assert_eq!(parse_hex_color("#+12345"), Some(0x12345));
    assert_eq!(parse_hex_color("++1234"), None);
    assert_eq!(parse_hex_color("12345+"), None);
    assert_eq!(parse_hex_color("+123456"), None);
}

#[test]
fn color_with_characters_beyond_ascii() {
    assert_eq!(parse_hex_color("#é12345"), None);
    assert_eq!(parse_hex_color("é12345"), None);
    assert_eq!(parse_hex_color("#é1234"), None);
    assert_eq!(parse_hex_color("é1234"), None);
    assert_eq!(parse_hex_color("ＦＦＦＦＦＦ"), None);
    assert_eq!(parse_hex_color("√12345"), None);
}

#[test]
fn color_agrees_with_the_standard_parser() {
    let texts = [
        "#883300", "883300", "+12345", "#+12345", "#12345", "12345g", "ABCDEF", "abcdef", "#é1234",
        "é1234", "-12345", "      ", "#      ", "0000000", "#00000",
    ];
    for text in texts.iter() {
        let expected = match text.len() {
            7 if text.starts_with('#') => u32::from_str_radix(&text[1..], 16).ok(),
            6 => u32::from_str_radix(text, 16).ok(),
            _ => None,
        };
        assert_eq!(parse_hex_color(text), expected);
    }
}

#[test]
fn hex_digits_have_their_values() {
    assert_eq!(hex_digit('0'), Some(0));
    assert_eq!(hex_digit('9'), Some(9));
    assert_eq!(hex_digit('a'), Some(10));
    assert_eq!(hex_digit('f'), Some(15));
    assert_eq!(hex_digit('A'), Some(10));
    assert_eq!(hex_digit('F'), Some(15));
    assert_eq!(hex_digit('g'), None);
    assert_eq!(hex_digit('G'), None);
    assert_eq!(hex_digit('/'), None);
    assert_eq!(hex_digit(':'), None);
    assert_eq!(hex_digit('@'), None);
    assert_eq!(hex_digit('`'), None);
    assert_eq!(hex_digit('+'), None);
    assert_eq!(hex_digit('é'), None);
}

#[test]
fn startup_hook_keeps_its_program() {
    let hook = SpawnOnStartup::new(String::from("/home/user/.config/xorg/xprofile"));
    assert_eq!(hook.program(), "/home/user/.config/xorg/xprofile");
    assert_eq!(hook.clone(), hook);
}

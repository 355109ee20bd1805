use dtrwm::color::{can_parse_color, color_argb8888, parse_color};

#[test]
fn eight_digits() {
    assert_eq!(
        parse_color("#88c0d0ff"),
        (0x88888888, 0xc0c0c0c0, 0xd0d0d0d0, 0xffffffff)
    );
    assert_eq!(parse_color("3B425280"), (0x3b3b3b3b, 0x42424242, 0x52525252, 0x80808080));
}

#[test]
fn six_digits_are_opaque() {
    assert_eq!(parse_color("##010203"), (0x01010101, 0x02020202, 0x03030303, 0xffffffff));
    assert_eq!(parse_color("#0102031"), (0x01010101, 0x02020202, 0x03030303, 0xffffffff));
}

#[test]
fn too_few_digits_are_black() {
    assert_eq!(parse_color(""), (0, 0, 0, 0xffffffff));
    assert_eq!(parse_color("#12345"), (0, 0, 0, 0xffffffff));
}

#[test]
fn pairs_that_are_not_hexadecimal() {
    assert_eq!(parse_color("#zz10g1"), (0, 0x10101010, 0, 0xffffffff));
    assert_eq!(parse_color("#000000xx"), (0, 0, 0, 0xffffffff));
    assert_eq!(parse_color("#+1 1-1"), (0x01010101, 0, 0, 0xffffffff));
}

#[test]
fn pairs_are_those_of_std() {
    for a in 0x20u8..0x7f {
        for b in 0x20u8..0x7f {
            if a == b'#' {
                continue;
            }
            let pair = String::from_utf8(vec![a, b]).unwrap();
            let value = u8::from_str_radix(&pair, 16).unwrap_or(0) as u32 * 0x01010101;
            assert_eq!(parse_color(&format!("{pair}0000")).0, value, "{pair}");
        }
    }
}

#[test]
fn cut_characters_cannot_be_read() {
    assert!(can_parse_color("#88c0d0ff"));
    assert!(can_parse_color("é"));
    assert!(!can_parse_color("aéaaaa"));
    assert!(can_parse_color("ééé"));
    assert!(!can_parse_color("000000aé"));
}

#[test]
fn pixels() {
    assert_eq!(color_argb8888(0x12345678, 0x9abcdef0, 0xff000000, 0x80ffffff), 0x80129aff);
    assert_eq!(color_argb8888(0, 0, 0, 0), 0);
}

#[test]
fn digits_come_back_in_the_pixel() {
    let (r, g, b, a) = parse_color("#88c0d0ff");
    assert_eq!(color_argb8888(r, g, b, a), 0xff88c0d0);
}

//! Colours: reading them from `#rrggbbaa`, and packing them into pixels.
use crate::text;
use vstd::prelude::*;
use vstd::utf8;

verus! {

/// The value of the hexadecimal digit that the byte `b` writes in ASCII.
pub open spec fn hex_digit(b: u8) -> Option<u8> {
    if 0x30 <= b <= 0x39 {
        Some((b - 0x30) as u8)
    } else if 0x41 <= b <= 0x46 {
        Some((b - 0x41 + 10) as u8)
    } else if 0x61 <= b <= 0x66 {
        Some((b - 0x61 + 10) as u8)
    } else {
        None
    }
}

/// The byte that two characters write in hexadecimal: two digits, or a plus sign and one digit.
pub open spec fn hex_pair(first: u8, second: u8) -> Option<u8> {
    if first == 0x2b {
        hex_digit(second)
    } else {
        match (hex_digit(first), hex_digit(second)) {
            (Some(high), Some(low)) => Some((high * 16 + low) as u8),
            _ => None,
        }
    }
}

/// What `pair` holds, or else `otherwise`.
pub open spec fn pair_or(pair: Option<u8>, otherwise: u8) -> u8 {
    match pair {
        Some(v) => v,
        None => otherwise,
    }
}

/// The byte `v`, spread over the 32 bits of a channel.
pub open spec fn channel(v: u8) -> u32 {
    (v * 0x01010101) as u32
}

/// The bytes of `s` behind the number signs that it begins with.
pub open spec fn color_bytes(s: Seq<char>) -> Seq<u8> {
    utf8::encode_utf8(text::trimmed_start(s, '#'))
}

/// Red, green, blue and alpha of the colour that `s` writes. A pair that is not hexadecimal
/// counts as zero, for alpha as opaque. Without three pairs the colour is opaque black, and
/// without a fourth it is opaque.
pub open spec fn color_of(s: Seq<char>) -> (u32, u32, u32, u32) {
    let b = color_bytes(s);
    if b.len() < 6 {
        (0, 0, 0, 0xffffffff)
    } else {
        (
            channel(pair_or(hex_pair(b[0], b[1]), 0)),
            channel(pair_or(hex_pair(b[2], b[3]), 0)),
            channel(pair_or(hex_pair(b[4], b[5]), 0)),
            channel(
                if b.len() >= 8 {
                    pair_or(hex_pair(b[6], b[7]), 0xff)
                } else {
                    0xff
                },
            ),
        )
    }
}

/// Whether no pair begins or ends within a character.
pub open spec fn color_pairs_whole(s: Seq<char>) -> bool {
    let b = color_bytes(s);
    &&& b.len() >= 6 ==> utf8::is_char_boundary(b, 2) && utf8::is_char_boundary(b, 4) && utf8::is_char_boundary(b, 6)
    &&& b.len() >= 8 ==> utf8::is_char_boundary(b, 8)
}

/// The pixel of 32 bits that has the top bytes of alpha, red, green and blue, in this order.
pub open spec fn pixel(r: u32, g: u32, b: u32, a: u32) -> int {
    (a / 0x100_0000) * 0x100_0000 + (r / 0x100_0000) * 0x1_0000 + (g / 0x100_0000) * 0x100 + (b
        / 0x100_0000)
}

/// Reads a hexadecimal digit.
fn read_digit(b: u8) -> (digit: Option<u8>)
    ensures
        digit == hex_digit(b),
{
    if 0x30 <= b && b <= 0x39 {
        Some(b - 0x30)
    } else if 0x41 <= b && b <= 0x46 {
        Some(b - 0x41 + 10)
    } else if 0x61 <= b && b <= 0x66 {
        Some(b - 0x61 + 10)
    } else {
        None
    }
}

/// Reads a hexadecimal pair, which counts as `otherwise` if it is none.
fn read_pair(first: u8, second: u8, otherwise: u8) -> (value: u8)
    ensures
        value == pair_or(hex_pair(first, second), otherwise),
{
    let high: Option<u8> = if first == 0x2b {
        Some(0)
    } else {
        read_digit(first)
    };
    match (high, read_digit(second)) {
        (Some(high), Some(low)) => high * 16 + low,
        _ => otherwise,
    }
}

/// Spreads a byte over the 32 bits of a channel.
fn spread(v: u8) -> (wide: u32)
    ensures
        wide == channel(v),
{
    v as u32 * 0x01010101
}

/// Reads a colour: red, green, blue and alpha, each over the full range of 32 bits.
pub fn parse_color(s: &str) -> (color: (u32, u32, u32, u32))
    requires
        color_pairs_whole(s@),
    ensures
        color == color_of(s@),
{
    let b = text::trim_start(s, '#').as_bytes();
    if b.len() < 6 {
        return (0, 0, 0, 0xffffffff);
    }
    let red = read_pair(b[0], b[1], 0);
    let green = read_pair(b[2], b[3], 0);
    let blue = read_pair(b[4], b[5], 0);
    let alpha: u8 = if b.len() >= 8 {
        read_pair(b[6], b[7], 0xff)
    } else {
        0xff
    };
    (spread(red), spread(green), spread(blue), spread(alpha))
}

/// Whether `parse_color` can be called on this argument.
pub fn can_parse_color(s: &str) -> (yes: bool)
    ensures
        yes == color_pairs_whole(s@),
{
    let rest = text::trim_start(s, '#');
    let n: usize = rest.as_bytes().len();
    (n < 6 || (rest.is_char_boundary(2) && rest.is_char_boundary(4) && rest.is_char_boundary(6)))
        && (n < 8 || rest.is_char_boundary(8))
}

/// Packs a colour into a pixel: alpha in the top byte, then red, green and blue.
pub fn color_argb8888(r: u32, g: u32, b: u32, a: u32) -> (argb: u32)
    ensures
        argb == pixel(r, g, b, a),
{
    let r8: u32 = r >> 24;
    let g8: u32 = g >> 24;
    let b8: u32 = b >> 24;
    let a8: u32 = a >> 24;
    assert(r8 == r / 0x100_0000 && r8 < 256) by (bit_vector)
        requires
            r8 == r >> 24,
    ;
    assert(g8 == g / 0x100_0000 && g8 < 256) by (bit_vector)
        requires
            g8 == g >> 24,
    ;
    assert(b8 == b / 0x100_0000 && b8 < 256) by (bit_vector)
        requires
            b8 == b >> 24,
    ;
    assert(a8 == a / 0x100_0000 && a8 < 256) by (bit_vector)
        requires
            a8 == a >> 24,
    ;
    assert((a8 << 24) | (r8 << 16) | (g8 << 8) | b8 == a8 * 0x100_0000 + r8 * 0x1_0000 + g8 * 0x100
        + b8) by (bit_vector)
        requires
            r8 < 256,
            g8 < 256,
            b8 < 256,
            a8 < 256,
    ;
    (a8 << 24) | (r8 << 16) | (g8 << 8) | b8
}

/// The number that a sequence of hexadecimal digits writes.
pub open spec fn hex_value(digits: Seq<char>) -> nat
    decreases digits.len(),
{
    if digits.len() == 0 {
        0
    } else {
        hex_value(digits.drop_last()) * 16 + pair_or(hex_digit(digits.last() as u8), 0) as nat
    }
}

/// Whether `c` is a hexadecimal digit.
pub open spec fn is_hex(c: char) -> bool {
    '0' <= c <= '9' || 'A' <= c <= 'F' || 'a' <= c <= 'f'
}

/// A colour that is written as eight hexadecimal digits behind a number sign, red first and
/// alpha last, can be read, and its pixel has the alpha digits in front and then the others in
/// the order in which they were written.
pub proof fn law_color_round_trip(digits: Seq<char>)
    requires
        digits.len() == 8,
        forall|i: int| 0 <= i < 8 ==> is_hex(#[trigger] digits[i]),
    ensures
        color_pairs_whole(seq!['#'] + digits),
        ({
            let (r, g, b, a) = color_of(seq!['#'] + digits);
            pixel(r, g, b, a) == hex_value(digits.subrange(6, 8)) * 0x100_0000 + hex_value(
                digits.subrange(0, 6),
            )
        }),
{
    let s = seq!['#'] + digits;
    let b = color_bytes(s);
    lemma_color_bytes(digits);
    assert(is_hex(digits[0]) && is_hex(digits[1]) && is_hex(digits[2]) && is_hex(digits[3]));
    assert(is_hex(digits[4]) && is_hex(digits[5]) && is_hex(digits[6]) && is_hex(digits[7]));
    lemma_two_digits(digits, 0);
    lemma_two_digits(digits, 2);
    lemma_two_digits(digits, 4);
    lemma_two_digits(digits, 6);
    lemma_six_digits(digits);
    lemma_channel(pair_or(hex_pair(b[0], b[1]), 0));
    lemma_channel(pair_or(hex_pair(b[2], b[3]), 0));
    lemma_channel(pair_or(hex_pair(b[4], b[5]), 0));
    lemma_channel(pair_or(hex_pair(b[6], b[7]), 0xff));
}

/// The bytes of a colour are those of its digits, and no pair of them is cut.
pub proof fn lemma_color_bytes(digits: Seq<char>)
    requires
        digits.len() == 8,
        forall|i: int| 0 <= i < 8 ==> is_hex(#[trigger] digits[i]),
    ensures
        color_pairs_whole(seq!['#'] + digits),
        color_bytes(seq!['#'] + digits).len() == 8,
        forall|i: int|
            0 <= i < 8 ==> #[trigger] color_bytes(seq!['#'] + digits)[i] == digits[i] as u8,
{
    let s = seq!['#'] + digits;
    assert(s.drop_first() =~= digits);
    reveal_with_fuel(text::trimmed_start, 3);
    assert(is_hex(digits[0]));
    assert(text::trimmed_start(s, '#') == digits);
    assert forall|i: int| 0 <= i < digits.len() implies (0 <= #[trigger] (digits[i] as nat) <= 127) by {
        assert(is_hex(digits[i]));
    }
    utf8::is_ascii_chars_encode_utf8(digits);
    lemma_boundary(digits, 2);
    lemma_boundary(digits, 4);
    lemma_boundary(digits, 6);
    lemma_boundary(digits, 8);
}

/// The top byte of a channel is the byte that it was made of.
pub proof fn lemma_channel(v: u8)
    ensures
        channel(v) / 0x100_0000 == v,
{
}

/// Six digits write what their three pairs write.
proof fn lemma_six_digits(digits: Seq<char>)
    requires
        digits.len() == 8,
    ensures
        hex_value(digits.subrange(0, 6)) == hex_value(digits.subrange(0, 2)) * 0x1_0000 + hex_value(
            digits.subrange(2, 4),
        ) * 0x100 + hex_value(digits.subrange(4, 6)),
{
    lemma_pair_more(digits.subrange(0, 6));
    lemma_pair_more(digits.subrange(0, 4));
    assert(digits.subrange(0, 6).take(4) =~= digits.subrange(0, 4));
    assert(digits.subrange(0, 6).skip(4) =~= digits.subrange(4, 6));
    assert(digits.subrange(0, 4).take(2) =~= digits.subrange(0, 2));
    assert(digits.subrange(0, 4).skip(2) =~= digits.subrange(2, 4));
}

/// The last two digits count as they are, and those before them by so much more.
proof fn lemma_pair_more(digits: Seq<char>)
    requires
        digits.len() >= 2,
    ensures
        hex_value(digits) == hex_value(digits.take(digits.len() - 2)) * 0x100 + hex_value(
            digits.skip(digits.len() - 2),
        ),
{
    let n = digits.len() as int;
    let pair = digits.skip(n - 2);
    reveal_with_fuel(hex_value, 3);
    assert(digits.drop_last().drop_last() =~= digits.take(n - 2));
    assert(pair.drop_last().drop_last() =~= Seq::<char>::empty());
    assert(pair.drop_last()[0] == digits[n - 2]);
    assert(digits.drop_last()[n - 2] == digits[n - 2]);
}

/// In ASCII text each byte begins a character.
pub proof fn lemma_boundary(chars: Seq<char>, i: int)
    requires
        utf8::is_ascii_chars(chars),
        0 <= i <= chars.len(),
    ensures
        utf8::is_char_boundary(utf8::encode_utf8(chars), i),
{
    utf8::is_ascii_chars_encode_utf8(chars);
    utf8::encode_utf8_valid_utf8(chars);
    let b = utf8::encode_utf8(chars);
    if i == chars.len() {
        utf8::is_char_boundary_start_end_of_seq(b);
    } else {
        utf8::is_char_boundary_iff_is_leading_byte(b, i);
        assert(0 <= (chars[i] as nat) <= 127);
    }
}

/// Two digits write what the pair of their bytes writes.
pub proof fn lemma_two_digits(digits: Seq<char>, i: int)
    requires
        0 <= i < digits.len() - 1,
        is_hex(digits[i]),
        is_hex(digits[i + 1]),
    ensures
        hex_value(digits.subrange(i, i + 2)) == pair_or(
            hex_pair(digits[i] as u8, digits[i + 1] as u8),
            0,
        ),
        hex_value(digits.subrange(i, i + 2)) == pair_or(
            hex_pair(digits[i] as u8, digits[i + 1] as u8),
            0xff,
        ),
{
    reveal_with_fuel(hex_value, 3);
    let d = digits.subrange(i, i + 2);
    assert(d.drop_last().drop_last() =~= Seq::<char>::empty());
    assert(d.drop_last()[0] == digits[i]);
}

} // verus!

//! What holds of the texts of a configuration and of what is read from them.
use crate::action::ActionView;
use crate::config::{BindingView, Config};
use crate::layout::Layout;
use crate::text;
use crate::text::Separator;
use vstd::prelude::*;

verus! {

/// Capital letters of ASCII become the small letter with the same place in the alphabet, and no
/// other character changes.
pub proof fn law_lower(c: char)
    ensures
        'A' <= c <= 'Z' ==> 'a' <= text::ascii_lower(c) <= 'z' && text::ascii_lower(c) as int
            - 'a' as int == c as int - 'A' as int,
        !('A' <= c <= 'Z') ==> text::ascii_lower(c) == c,
{
}

/// White space between two texts parts their words.
pub proof fn law_words_join(a: Seq<char>, b: Seq<char>, c: char)
    requires
        text::is_white_space(c),
    ensures
        text::words(a.push(c) + b) == text::words(a) + text::words(b),
{
    let sep = Separator::WhiteSpace;
    lemma_parts_join(a, b, c, sep);
    Seq::filter_distributes_over_add(
        text::parts(a, sep),
        text::parts(b, sep),
        |part: Seq<char>| part.len() > 0,
    );
}

/// The parts on both sides of a cut are those of the texts on both sides.
proof fn lemma_parts_join(a: Seq<char>, b: Seq<char>, c: char, sep: Separator)
    requires
        sep.cuts_at(c),
    ensures
        text::parts(a.push(c) + b, sep) == text::parts(a, sep) + text::parts(b, sep),
        text::parts(b, sep).len() > 0,
    decreases b.len(),
{
    let s = a.push(c) + b;
    if b.len() == 0 {
        assert(s =~= a.push(c));
        assert(s.drop_last() =~= a);
        assert(text::parts(s, sep) =~= text::parts(a, sep) + text::parts(b, sep));
    } else {
        let before = b.drop_last();
        lemma_parts_join(a, before, c, sep);
        assert(s.drop_last() =~= a.push(c) + before);
        assert(s.last() == b.last());
        assert(text::parts(s, sep) =~= text::parts(a, sep) + text::parts(b, sep));
    }
}

/// A text without white space is one word, unless it is empty.
pub proof fn law_one_word(s: Seq<char>)
    requires
        forall|i: int| 0 <= i < s.len() ==> !text::is_white_space(#[trigger] s[i]),
    ensures
        s.len() > 0 ==> text::words(s) == seq![s],
        s.len() == 0 ==> text::words(s).len() == 0,
{
    let filled = |part: Seq<char>| part.len() > 0;
    lemma_uncut(s);
    reveal_with_fuel(Seq::filter, 2);
    assert(seq![s].drop_last() =~= Seq::empty());
    assert(Seq::<Seq<char>>::empty().filter(filled) =~= Seq::empty());
    assert(s.len() > 0 ==> seq![s].filter(filled) =~= seq![s]);
}

/// A text without white space is one part.
proof fn lemma_uncut(s: Seq<char>)
    requires
        forall|i: int| 0 <= i < s.len() ==> !text::is_white_space(#[trigger] s[i]),
    ensures
        text::parts(s, Separator::WhiteSpace) == seq![s],
    decreases s.len(),
{
    if s.len() == 0 {
        assert(s =~= Seq::empty());
    } else {
        let before = s.drop_last();
        assert forall|i: int| 0 <= i < before.len() implies !text::is_white_space(
            #[trigger] before[i],
        ) by {
            assert(before[i] == s[i]);
        }
        lemma_uncut(before);
        assert(before.push(s.last()) =~= s);
        assert(text::parts(s, Separator::WhiteSpace) =~= seq![s]);
    }
}

/// What is cut off the end is made of the given character alone, and all of it is cut off.
pub proof fn law_trimmed_end(s: Seq<char>, c: char)
    ensures
        text::trimmed_end(s, c).is_prefix_of(s),
        text::trimmed_end(s, c).len() > 0 ==> text::trimmed_end(s, c).last() != c,
        forall|i: int| text::trimmed_end(s, c).len() <= i < s.len() ==> #[trigger] s[i] == c,
    decreases s.len(),
{
    if s.len() > 0 && s.last() == c {
        law_trimmed_end(s.drop_last(), c);
        let rest = text::trimmed_end(s, c);
        assert forall|i: int| rest.len() <= i < s.len() implies #[trigger] s[i] == c by {
            if i < s.len() - 1 {
                assert(s.drop_last()[i] == c);
            }
        }
        assert(rest =~= s.subrange(0, rest.len() as int)) by {
            assert(rest =~= s.drop_last().subrange(0, rest.len() as int));
        }
    } else {
        assert(s =~= s.subrange(0, s.len() as int));
    }
}

/// What is cut off the start is made of the given character alone, and all of it is cut off.
pub proof fn law_trimmed_start(s: Seq<char>, c: char)
    ensures
        text::trimmed_start(s, c).len() <= s.len(),
        text::trimmed_start(s, c) == s.skip(s.len() - text::trimmed_start(s, c).len()),
        text::trimmed_start(s, c).len() > 0 ==> text::trimmed_start(s, c)[0] != c,
        forall|i: int|
            0 <= i < s.len() - text::trimmed_start(s, c).len() ==> #[trigger] s[i] == c,
    decreases s.len(),
{
    let rest = text::trimmed_start(s, c);
    if s.len() > 0 && s[0] == c {
        law_trimmed_start(s.drop_first(), c);
        assert forall|i: int| 0 <= i < s.len() - rest.len() implies #[trigger] s[i] == c by {
            if i > 0 {
                assert(s.drop_first()[i - 1] == c);
            }
        }
        assert(rest =~= s.skip(s.len() - rest.len()));
    } else {
        assert(s =~= s.skip(0));
    }
}

/// Two texts are ordered by the first character in which they differ; a text comes before those
/// that it begins.
pub proof fn law_order(p: Seq<char>, a: Seq<char>, b: Seq<char>)
    ensures
        text::at_or_before(p, p + a),
        a.len() > 0 ==> !text::at_or_before(p + a, p),
        a.len() > 0 && b.len() > 0 && a[0] != b[0] ==> (text::at_or_before(p + a, p + b)
            <==> a[0] < b[0]),
    decreases p.len(),
{
    if p.len() == 0 {
        assert(p + a =~= a);
        assert(p + b =~= b);
    } else {
        let q = p.drop_first();
        law_order(q, a, b);
        assert((p + a).drop_first() =~= q + a);
        assert((p + b).drop_first() =~= q + b);
    }
}

/// A text occurs in those that have something before it or behind it, and in no others.
pub proof fn law_occurs(pattern: Seq<char>, s: Seq<char>)
    ensures
        text::occurs(pattern, s) <==> exists|a: Seq<char>, b: Seq<char>|
            s == #[trigger] (a + pattern + b),
{
    if text::occurs(pattern, s) {
        let i = choose|i: int|
            0 <= i && i + pattern.len() <= s.len() && #[trigger] s.subrange(i, i + pattern.len())
                == pattern;
        let a = s.take(i);
        let b = s.skip(i + pattern.len());
        assert(s =~= a + s.subrange(i, i + pattern.len()) + b);
    }
    if exists|a: Seq<char>, b: Seq<char>| s == #[trigger] (a + pattern + b) {
        let (a, b) = choose|a: Seq<char>, b: Seq<char>| s == #[trigger] (a + pattern + b);
        let i = a.len() as int;
        assert(s.subrange(i, i + pattern.len()) =~= pattern);
    }
}

/// A number is read digit by digit, each worth ten times the next. A plus sign before it changes
/// nothing. What is not made of digits, or is too large, is no number.
pub proof fn law_number(s: Seq<char>, d: char)
    ensures
        text::number(Seq::empty()) is None,
        '0' <= d <= '9' ==> text::number(seq![d]) == Some((d as int - '0' as int) as u32),
        text::number(s) matches Some(n) ==> {
            let more = n * 10 + (d as int - '0' as int);
            &&& !('0' <= d <= '9') ==> text::number(s.push(d)) is None
            &&& '0' <= d <= '9' && more <= u32::MAX ==> text::number(s.push(d)) == Some(
                more as u32,
            )
            &&& '0' <= d <= '9' && more > u32::MAX ==> text::number(s.push(d)) is None
        },
        s.len() > 0 && s[0] != '+' ==> text::number(seq!['+'] + s) == text::number(s),
        forall|i: int|
            1 <= i < s.len() && !('0' <= #[trigger] s[i] <= '9') ==> text::number(s) is None,
        s.len() > 0 && s[0] != '+' && !('0' <= s[0] <= '9') ==> text::number(s) is None,
        text::number(seq!['+']) is None,
        s.len() > 1 && text::number(s.push(d)) is Some ==> text::number(s) is Some,
{
    if s.len() > 1 && text::number(s.push(d)) is Some {
        lemma_number_begins(s, d);
    }
    assert(seq!['+'].drop_first() =~= Seq::empty());
    if s.len() > 0 && s[0] != '+' {
        assert(text::unsigned_part(s)[0] == s[0]);
    }
    reveal_with_fuel(text::decimal, 3);
    let one = seq![d];
    assert(one.drop_last() =~= Seq::empty());
    if d != '+' {
        assert(text::unsigned_part(one) == one);
        if '0' <= d <= '9' {
            assert(text::decimal(one) == (d as int - '0' as int));
        }
    }
    if let Some(n) = text::number(s) {
        let digits = text::unsigned_part(s);
        let longer = s.push(d);
        assert(text::unsigned_part(longer) =~= digits.push(d)) by {
            if s[0] == '+' {
                assert(longer.drop_first() =~= s.drop_first().push(d));
            }
        }
        assert(digits.push(d).drop_last() =~= digits);
        assert(digits.push(d)[digits.len() as int] == d);
        if '0' <= d <= '9' {
            assert forall|i: int| 0 <= i < digits.push(d).len() implies text::is_digit(
                #[trigger] digits.push(d)[i],
            ) by {
                if i < digits.len() {
                    assert(text::is_digit(digits[i]));
                }
            }
        } else {
            assert(!text::is_digit(digits.push(d)[digits.len() as int]));
        }
    }
    if s.len() > 0 && s[0] != '+' {
        assert((seq!['+'] + s).drop_first() =~= s);
    }
    assert forall|i: int| 1 <= i < s.len() && !('0' <= #[trigger] s[i] <= '9') implies text::number(
        s,
    ) is None by {
        let digits = text::unsigned_part(s);
        if s[0] == '+' {
            assert(digits[i - 1] == s[i]);
        } else {
            assert(digits[i] == s[i]);
        }
    }
}

/// What begins a number of more than one digit is a number.
proof fn lemma_number_begins(s: Seq<char>, d: char)
    requires
        s.len() > 1,
        text::number(s.push(d)) is Some,
    ensures
        text::number(s) is Some,
{
    let digits = text::unsigned_part(s);
    let longer = text::unsigned_part(s.push(d));
    assert(longer =~= digits.push(d)) by {
        if s[0] == '+' {
            assert(s.push(d).drop_first() =~= s.drop_first().push(d));
        }
    }
    assert(longer.drop_last() =~= digits);
    assert forall|i: int| 0 <= i < digits.len() implies text::is_digit(#[trigger] digits[i]) by {
        assert(text::is_digit(longer[i]));
    }
}

/// What actions say of their argument: a command is run as it is written, a layout is chosen by its
/// name, and a workspace by its number.
pub proof fn law_action_arguments(arg: Seq<char>)
    ensures
        crate::action::action_named("spawn"@, arg) == Some(ActionView::Spawn(arg)),
        crate::action::action_named("set_layout"@, "tile"@) == Some(
            ActionView::SetLayout(Layout::Tile),
        ),
        crate::action::action_named("set_layout"@, "grid"@) == Some(
            ActionView::SetLayout(Layout::Grid),
        ),
        crate::action::action_named("set_layout"@, "monocle"@) == Some(
            ActionView::SetLayout(Layout::Monocle),
        ),
        crate::action::action_named("set_layout"@, "float"@) == Some(
            ActionView::SetLayout(Layout::Float),
        ),
        arg != "tile"@ && arg != "grid"@ && arg != "monocle"@ && arg != "float"@
            ==> crate::action::action_named("set_layout"@, arg) is None,
        crate::action::action_named("switch_workspace"@, arg) == match text::number(arg) {
            Some(n) => Some(ActionView::SwitchWorkspace(n)),
            None => None,
        },
        crate::action::action_named("move_to_workspace"@, arg) == match text::number(arg) {
            Some(n) => Some(ActionView::MoveToWorkspace(n)),
            None => None,
        },
{
    lemma_action_names();
    reveal_strlit("tile");
    reveal_strlit("grid");
    reveal_strlit("monocle");
    reveal_strlit("float");
    assert("tile"@[0] == 't' && "grid"@[0] == 'g');
}

/// What actions do that heed no argument, and that other names do nothing.
pub proof fn law_action_names(name: Seq<char>, arg: Seq<char>)
    ensures
        crate::action::action_named("exec"@, arg) == Some(ActionView::Exec),
        crate::action::action_named("quit"@, arg) == Some(ActionView::Quit),
        crate::action::action_named("close"@, arg) == Some(ActionView::Close),
        crate::action::action_named("focus_next"@, arg) == Some(ActionView::FocusNext),
        crate::action::action_named("focus_prev"@, arg) == Some(ActionView::FocusPrev),
        crate::action::action_named("toggle_float"@, arg) == Some(ActionView::ToggleFloat),
        crate::action::action_named("toggle_fullscreen"@, arg) == Some(
            ActionView::ToggleFullscreen,
        ),
        crate::action::action_named("reload"@, arg) == Some(ActionView::Reload),
        crate::action::action_named(name, arg) is Some ==> name == "spawn"@ || name == "exec"@
            || name == "quit"@ || name == "close"@ || name == "focus_next"@ || name
            == "focus_prev"@ || name == "set_layout"@ || name == "toggle_float"@ || name
            == "toggle_fullscreen"@ || name == "reload"@ || name == "switch_workspace"@ || name
            == "move_to_workspace"@,
{
    lemma_action_names();
}

/// No two actions have the same name.
proof fn lemma_action_names()
    ensures
        "spawn"@.len() == 5,
        "exec"@.len() == 4,
        "quit"@.len() == 4,
        "close"@.len() == 5,
        "focus_next"@.len() == 10,
        "focus_prev"@.len() == 10,
        "set_layout"@.len() == 10,
        "toggle_float"@.len() == 12,
        "toggle_fullscreen"@.len() == 17,
        "reload"@.len() == 6,
        "switch_workspace"@.len() == 16,
        "move_to_workspace"@.len() == 17,
        "spawn"@ != "close"@,
        "exec"@ != "quit"@,
        "focus_next"@ != "focus_prev"@,
        "focus_next"@ != "set_layout"@,
        "focus_prev"@ != "set_layout"@,
        "toggle_fullscreen"@ != "move_to_workspace"@,
{
    reveal_strlit("spawn");
    reveal_strlit("exec");
    reveal_strlit("quit");
    reveal_strlit("close");
    reveal_strlit("focus_next");
    reveal_strlit("focus_prev");
    reveal_strlit("set_layout");
    reveal_strlit("toggle_float");
    reveal_strlit("toggle_fullscreen");
    reveal_strlit("reload");
    reveal_strlit("switch_workspace");
    reveal_strlit("move_to_workspace");
    assert("spawn"@[0] == 's' && "close"@[0] == 'c');
    assert("exec"@[0] == 'e' && "quit"@[0] == 'q');
    assert("focus_next"@[0] == 'f' && "set_layout"@[0] == 's' && "focus_prev"@[0] == 'f');
    assert("focus_next"@[6] == 'n' && "focus_prev"@[6] == 'p');
    assert("toggle_fullscreen"@[0] == 't' && "move_to_workspace"@[0] == 'm');
}

/// Each byte of a channel is the byte that was written, so that the darkest and the lightest are
/// the ends of its range.
pub proof fn law_channel_bytes(v: u8)
    ensures
        crate::color::channel(v) % 0x100 == v,
        (crate::color::channel(v) / 0x100) % 0x100 == v,
        (crate::color::channel(v) / 0x1_0000) % 0x100 == v,
        crate::color::channel(v) / 0x100_0000 == v,
{
    let c = crate::color::channel(v);
    assert(c % 0x100 == v && (c / 0x100) % 0x100 == v && (c / 0x1_0000) % 0x100 == v && c
        / 0x100_0000 == v) by (bit_vector)
        requires
            c == v * 0x0101_0101,
    ;
}

/// A colour is read pair by pair: each channel is the number that its two digits write, and a
/// colour of six digits is opaque.
pub proof fn law_color_pairs(digits: Seq<char>)
    requires
        digits.len() == 6 || digits.len() == 8,
        forall|i: int| 0 <= i < digits.len() ==> crate::color::is_hex(#[trigger] digits[i]),
    ensures
        ({
            let (r, g, b, a) = crate::color::color_of(seq!['#'] + digits);
            &&& r / 0x100_0000 == crate::color::hex_value(digits.subrange(0, 2))
            &&& g / 0x100_0000 == crate::color::hex_value(digits.subrange(2, 4))
            &&& b / 0x100_0000 == crate::color::hex_value(digits.subrange(4, 6))
            &&& digits.len() == 8 ==> a / 0x100_0000 == crate::color::hex_value(
                digits.subrange(6, 8),
            )
            &&& digits.len() == 6 ==> a == 0xffff_ffff
            &&& crate::color::color_of(digits) == crate::color::color_of(seq!['#'] + digits)
        }),
{
    let s = seq!['#'] + digits;
    assert(s.drop_first() =~= digits);
    reveal_with_fuel(text::trimmed_start, 3);
    assert(crate::color::is_hex(digits[0]) && crate::color::is_hex(digits[1]));
    assert(crate::color::is_hex(digits[2]) && crate::color::is_hex(digits[3]));
    assert(crate::color::is_hex(digits[4]) && crate::color::is_hex(digits[5]));
    assert(text::trimmed_start(s, '#') == digits);
    assert(text::trimmed_start(digits, '#') == digits);
    assert forall|i: int| 0 <= i < digits.len() implies (0 <= #[trigger] (digits[i] as nat)
        <= 127) by {
        assert(crate::color::is_hex(digits[i]));
    }
    vstd::utf8::is_ascii_chars_encode_utf8(digits);
    let b = crate::color::color_bytes(s);
    crate::color::lemma_two_digits(digits, 0);
    crate::color::lemma_two_digits(digits, 2);
    crate::color::lemma_two_digits(digits, 4);
    crate::color::lemma_channel(crate::color::pair_or(crate::color::hex_pair(b[0], b[1]), 0));
    crate::color::lemma_channel(crate::color::pair_or(crate::color::hex_pair(b[2], b[3]), 0));
    crate::color::lemma_channel(crate::color::pair_or(crate::color::hex_pair(b[4], b[5]), 0));
    if digits.len() == 8 {
        assert(crate::color::is_hex(digits[6]) && crate::color::is_hex(digits[7]));
        crate::color::lemma_two_digits(digits, 6);
        crate::color::lemma_channel(crate::color::pair_or(crate::color::hex_pair(b[6], b[7]), 0xff));
    }
}

/// A pixel has the top byte of each channel in a byte of its own.
pub proof fn law_pixel_bytes(r: u32, g: u32, b: u32, a: u32)
    ensures
        0 <= crate::color::pixel(r, g, b, a) <= u32::MAX,
        crate::color::pixel(r, g, b, a) / 0x100_0000 == a / 0x100_0000,
        (crate::color::pixel(r, g, b, a) / 0x1_0000) % 0x100 == r / 0x100_0000,
        (crate::color::pixel(r, g, b, a) / 0x100) % 0x100 == g / 0x100_0000,
        crate::color::pixel(r, g, b, a) % 0x100 == b / 0x100_0000,
{
    let p = crate::color::pixel(r, g, b, a);
    let (w, x, y, z) = (
        (a / 0x100_0000) as int,
        (r / 0x100_0000) as int,
        (g / 0x100_0000) as int,
        (b / 0x100_0000) as int,
    );
    assert(0 <= w < 256 && 0 <= x < 256 && 0 <= y < 256 && 0 <= z < 256);
    lemma_cut(p, 0x100_0000, w, x * 0x1_0000 + y * 0x100 + z);
    lemma_cut(p, 0x1_0000, w * 0x100 + x, y * 0x100 + z);
    lemma_cut(w * 0x100 + x, 0x100, w, x);
    lemma_cut(p, 0x100, (w * 0x100 + x) * 0x100 + y, z);
    lemma_cut((w * 0x100 + x) * 0x100 + y, 0x100, w * 0x100 + x, y);
}

/// A number that is put together from a multiple and a rest comes apart into them.
proof fn lemma_cut(p: int, d: int, q: int, r: int)
    requires
        d > 0,
        0 <= r < d,
        p == q * d + r,
    ensures
        p / d == q,
        p % d == r,
{
    vstd::arithmetic::div_mod::lemma_fundamental_div_mod_converse(p, d, q, r);
}

/// What a configuration sets is what it says: the numbers are taken over, the layout is the one
/// that is named, or else tiles, and the colours are those that are written, each in its place.
pub proof fn law_settings(cfg: Config, keysyms: Seq<u32>, digits: Seq<char>)
    requires
        digits.len() == 8,
        forall|i: int| 0 <= i < 8 ==> crate::color::is_hex(#[trigger] digits[i]),
    ensures
        ({
            let settings = crate::state::settings_of(cfg, keysyms);
            let name = cfg.default_layout@;
            let (fr, fg, fb, fa) = settings.foc_color;
            let (ur, ug, ub, ua) = settings.unf_color;
            let pixel = crate::color::hex_value(digits.subrange(6, 8)) * 0x100_0000
                + crate::color::hex_value(digits.subrange(0, 6));
            &&& settings.border_px == cfg.border_px
            &&& settings.gap == cfg.gap
            &&& settings.focus_follows_mouse == cfg.focus_follows_mouse
            &&& name == "grid"@ ==> settings.default_layout == Layout::Grid
            &&& name == "monocle"@ ==> settings.default_layout == Layout::Monocle
            &&& name == "float"@ ==> settings.default_layout == Layout::Float
            &&& name != "grid"@ && name != "monocle"@ && name != "float"@
                ==> settings.default_layout == Layout::Tile
            &&& settings.foc_color == crate::color::color_of(cfg.colors.focused@)
            &&& settings.unf_color == crate::color::color_of(cfg.colors.unfocused@)
            &&& cfg.colors.focused@ == seq!['#'] + digits ==> crate::color::pixel(fr, fg, fb, fa)
                == pixel
            &&& cfg.colors.unfocused@ == seq!['#'] + digits ==> crate::color::pixel(ur, ug, ub, ua)
                == pixel
        }),
{
    reveal_strlit("tile");
    reveal_strlit("grid");
    reveal_strlit("monocle");
    reveal_strlit("float");
    assert("tile"@[0] == 't' && "grid"@[0] == 'g');
    crate::color::law_color_round_trip(digits);
    assert("tile"@.len() == 4 && "grid"@.len() == 4 && "monocle"@.len() == 7 && "float"@.len() == 5);
}

/// The bindings of a configuration are those of its parts, in their order.
pub proof fn law_definitions_join(
    a: Seq<BindingView>,
    b: Seq<BindingView>,
    ka: Seq<u32>,
    kb: Seq<u32>,
)
    requires
        a.len() == ka.len(),
        b.len() == kb.len(),
    ensures
        crate::config::definitions(a + b, ka + kb) == crate::config::definitions(a, ka)
            + crate::config::definitions(b, kb),
    decreases b.len(),
{
    if b.len() == 0 {
        assert(a + b =~= a);
        assert(ka + kb =~= ka);
        assert(crate::config::definitions(a, ka) + crate::config::definitions(b, kb)
            =~= crate::config::definitions(a, ka));
    } else {
        let n = b.len() - 1;
        let all = a + b;
        let keys = ka + kb;
        law_definitions_join(a, b.take(n), ka, kb.take(n));
        assert(all.take(all.len() - 1) =~= a + b.take(n));
        assert(keys.take(keys.len() - 1) =~= ka + kb.take(n));
        lemma_definitions_prefix(all.take(all.len() - 1), keys, keys.take(keys.len() - 1));
        lemma_definitions_prefix(b.take(n), kb, kb.take(n));
        assert(crate::config::definitions(all, keys) =~= crate::config::definitions(a, ka)
            + crate::config::definitions(b, kb));
    }
}

/// Symbols behind those of the bindings make no difference.
proof fn lemma_definitions_prefix(b: Seq<BindingView>, k: Seq<u32>, m: Seq<u32>)
    requires
        forall|i: int| 0 <= i < b.len() ==> k[i] == m[i],
    ensures
        crate::config::definitions(b, k) == crate::config::definitions(b, m),
    decreases b.len(),
{
    if b.len() > 0 {
        assert(k[b.len() - 1] == m[b.len() - 1]);
        lemma_definitions_prefix(b.take(b.len() - 1), k, m);
    }
}

/// A binding defines its key with its modifiers and its action, if the key has a symbol and both
/// its modifiers and its action are known; and nothing otherwise.
pub proof fn law_definition(b: BindingView, keysym: u32)
    ensures
        ({
            let defs = crate::config::definitions(seq![b], seq![keysym]);
            let mods = crate::config::modifiers(crate::config::key_parts(b.keys).drop_last());
            let action = crate::action::action_named(b.action, b.arg);
            &&& keysym != 0 && mods is Some && action is Some ==> defs == seq![
                (keysym, mods->0, action->0),
            ]
            &&& keysym == 0 || mods is None || action is None ==> defs.len() == 0
        }),
{
    reveal_with_fuel(crate::config::definitions, 2);
    assert(seq![b].take(0) =~= Seq::empty());
    assert(crate::config::definitions(seq![b].take(0), seq![keysym]) =~= Seq::empty());
    let mods = crate::config::modifiers(crate::config::key_parts(b.keys).drop_last());
    let action = crate::action::action_named(b.action, b.arg);
    if keysym != 0 && mods is Some && action is Some {
        assert(crate::config::definitions(seq![b], seq![keysym]) =~= seq![
            (keysym, mods->0, action->0),
        ]);
    }
}

/// Each modifier has names of its own, whatever the case of their letters.
pub proof fn law_modifier_names(name: Seq<char>)
    ensures
        ({
            let low = text::ascii_lowered(name);
            let bit = crate::config::modifier_named(name);
            &&& bit == Some(64u32) <==> low == "super"@ || low == "meta"@ || low == "win"@ || low
                == "logo"@ || low == "mod4"@
            &&& bit == Some(1u32) <==> low == "shift"@
            &&& bit == Some(4u32) <==> low == "ctrl"@ || low == "control"@
            &&& bit == Some(8u32) <==> low == "alt"@ || low == "mod1"@
            &&& bit matches Some(b) ==> b == 64 || b == 1 || b == 4 || b == 8
        }),
{
    reveal_strlit("super");
    reveal_strlit("meta");
    reveal_strlit("win");
    reveal_strlit("logo");
    reveal_strlit("mod4");
    reveal_strlit("shift");
    reveal_strlit("ctrl");
    reveal_strlit("control");
    reveal_strlit("alt");
    reveal_strlit("mod1");
    assert("super"@[1] == 'u' && "shift"@[1] == 'h');
    assert("meta"@[1] == 'e' && "logo"@[0] == 'l' && "ctrl"@[0] == 'c');
    assert("mod4"@[3] == '4' && "mod1"@[3] == '1' && "meta"@[0] == 'm' && "mod1"@[1] == 'o');
    assert("mod4"@[0] == 'm' && "mod1"@[0] == 'm');
    assert("win"@[0] == 'w' && "alt"@[0] == 'a');
}

/// The arguments of a command are its words, unless there is none or one of them cannot be passed.
pub proof fn law_arguments(a: Seq<char>, b: Seq<char>, c: char)
    requires
        text::is_white_space(c),
    ensures
        crate::spawn::arguments(Seq::empty()) is None,
        ({
            let whole = crate::spawn::arguments(a.push(c) + b);
            match (crate::spawn::arguments(a), crate::spawn::arguments(b)) {
                (Some(x), Some(y)) => whole == Some(x + y),
                (Some(x), None) => whole == if text::words(b).len() == 0 {
                    Some(x)
                } else {
                    None
                },
                (None, Some(y)) => whole == if text::words(a).len() == 0 {
                    Some(y)
                } else {
                    None
                },
                (None, None) => whole is None,
            }
        }),
{
    law_words_join(a, b, c);
    law_one_word(Seq::empty());
    let (x, y) = (text::words(a), text::words(b));
    let all = x + y;
    assert(x.len() == 0 ==> all =~= y);
    assert(y.len() == 0 ==> all =~= x);
    assert(forall|i: int| 0 <= i < x.len() ==> all[i] == x[i]);
    assert(forall|i: int| 0 <= i < y.len() ==> all[x.len() + i] == y[i]);
}

/// A word is passed to a program as it is, unless it holds a zero character.
pub proof fn law_argument(word: Seq<char>)
    requires
        word.len() > 0,
        forall|i: int| 0 <= i < word.len() ==> !text::is_white_space(#[trigger] word[i]),
    ensures
        word.contains('\u{0}') ==> crate::spawn::arguments(word) is None,
        !word.contains('\u{0}') ==> crate::spawn::arguments(word) == Some(seq![word]),
{
    law_one_word(word);
    assert(text::words(word)[0] == word);
    if word.contains('\u{0}') {
        assert(!crate::spawn::passable(text::words(word)[0]));
    }
}

/// A keymap is the text that its bytes write, without the zeros at its end.
pub proof fn law_keymap(bytes: Seq<u8>)
    ensures
        !vstd::utf8::valid_utf8(bytes) ==> crate::keyboard::keymap_of(bytes).len() == 0,
        vstd::utf8::valid_utf8(bytes) ==> {
            let whole = vstd::utf8::decode_utf8(bytes);
            let keymap = crate::keyboard::keymap_of(bytes);
            &&& keymap.is_prefix_of(whole)
            &&& keymap.len() > 0 ==> keymap.last() != '\u{0}'
            &&& forall|i: int| keymap.len() <= i < whole.len() ==> #[trigger] whole[i] == '\u{0}'
        },
{
    if vstd::utf8::valid_utf8(bytes) {
        law_trimmed_end(vstd::utf8::decode_utf8(bytes), '\u{0}');
    }
}

/// Hexadecimal digits are worth what they are in the row of all of them, in capital and in small
/// letters, and nothing else is one.
pub proof fn law_hex_digits(b: u8, k: u8)
    ensures
        k < 10 ==> crate::color::hex_digit((48 + k) as u8) == Some(k),
        10 <= k < 16 ==> crate::color::hex_digit((65 + k - 10) as u8) == Some(k),
        10 <= k < 16 ==> crate::color::hex_digit((97 + k - 10) as u8) == Some(k),
        crate::color::hex_digit(b) is Some <==> 48 <= b <= 57 || 65 <= b <= 70 || 97 <= b <= 102,
        crate::color::hex_pair(b, b) is Some <==> crate::color::hex_digit(b) is Some,
        crate::color::hex_pair(48, b) == crate::color::hex_digit(b),
        crate::color::hex_pair(43, b) == crate::color::hex_digit(b),
        k < 10 && crate::color::hex_digit(b) is Some ==> crate::color::hex_pair(
            (48 + k) as u8,
            b,
        ) == Some((16 * k + crate::color::hex_digit(b)->0) as u8),
{
}

/// Any text of ASCII can be read as a colour. One that is too short is opaque black; a pair that is
/// not hexadecimal counts as nothing, for alpha as opaque; a plus sign stands for a zero; without a
/// whole fourth pair the colour is opaque, and what comes behind it does not count.
pub proof fn law_color_lenient(t: Seq<char>)
    requires
        vstd::utf8::is_ascii_chars(t),
        t.len() > 0 ==> t[0] != '#',
    ensures
        crate::color::color_pairs_whole(t),
        ({
            let (r, g, b, a) = crate::color::color_of(t);
            &&& t.len() < 6 ==> r == 0 && g == 0 && b == 0 && a == 0xffff_ffff
            &&& t.len() >= 6 ==> {
                &&& !crate::color::is_hex(t[1]) ==> r == 0
                &&& !crate::color::is_hex(t[0]) && t[0] != '+' ==> r == 0
                &&& !crate::color::is_hex(t[3]) ==> g == 0
                &&& !crate::color::is_hex(t[2]) && t[2] != '+' ==> g == 0
                &&& !crate::color::is_hex(t[5]) ==> b == 0
                &&& !crate::color::is_hex(t[4]) && t[4] != '+' ==> b == 0
                &&& t.len() < 8 ==> a == 0xffff_ffff
            }
            &&& t.len() >= 8 ==> {
                &&& !crate::color::is_hex(t[7]) ==> a == 0xffff_ffff
                &&& !crate::color::is_hex(t[6]) && t[6] != '+' ==> a == 0xffff_ffff
                &&& crate::color::color_of(t.take(8)) == (r, g, b, a)
            }
            &&& t.len() >= 6 && t[0] == '+' ==> {
                let u = t.update(0, '0');
                crate::color::color_of(u).0 == r
            }
        }),
{
    reveal_with_fuel(text::trimmed_start, 2);
    vstd::utf8::is_ascii_chars_encode_utf8(t);
    assert(text::trimmed_start(t, '#') == t);
    if t.len() >= 6 {
        crate::color::lemma_boundary(t, 2);
        crate::color::lemma_boundary(t, 4);
        crate::color::lemma_boundary(t, 6);
    }
    if t.len() >= 8 {
        crate::color::lemma_boundary(t, 8);
        let cut = t.take(8);
        assert(cut[0] == t[0]);
        assert(text::trimmed_start(cut, '#') == cut);
        vstd::utf8::is_ascii_chars_encode_utf8(cut);
    }
    if t.len() >= 6 && t[0] == '+' {
        let u = t.update(0, '0');
        assert(text::trimmed_start(u, '#') == u);
        vstd::utf8::is_ascii_chars_encode_utf8(u);
    }
}

/// White space and control characters are those of Unicode, by their numbers.
pub proof fn law_characters(c: char)
    ensures
        ({
            let n = c as u32;
            &&& text::is_white_space(c) <==> (9 <= n <= 13 || n == 32 || n == 133 || n == 160 || n
                == 5760 || 8192 <= n <= 8202 || n == 8232 || n == 8233 || n == 8239 || n == 8287
                || n == 12288)
            &&& text::is_control(c) <==> n < 32 || 127 <= n < 160
        }),
{
}

/// A text is lowered character by character.
pub proof fn law_lowered(s: Seq<char>, i: int)
    ensures
        text::ascii_lowered(s).len() == s.len(),
        0 <= i < s.len() ==> text::ascii_lowered(s)[i] == text::ascii_lower(s[i]),
        0 <= i < s.len() && 'A' <= s[i] <= 'Z' ==> text::ascii_lowered(s)[i] as int == s[i] as int
            + 32,
        0 <= i < s.len() && !('A' <= s[i] <= 'Z') ==> text::ascii_lowered(s)[i] == s[i],
{
}

/// A separator between two texts parts them; a text without it is one part.
pub proof fn law_parts(a: Seq<char>, b: Seq<char>, c: char)
    ensures
        text::parts(a.push(c) + b, Separator::Char(c)) == text::parts(a, Separator::Char(c))
            + text::parts(b, Separator::Char(c)),
        !a.contains(c) ==> text::parts(a, Separator::Char(c)) == seq![a],
{
    lemma_parts_join(a, b, c, Separator::Char(c));
    if !a.contains(c) {
        text::lemma_one_part(a, c);
    }
}

/// The key of a combination is what stands behind its last plus sign, and its modifiers are what
/// stands before it.
pub proof fn law_key_parts(before: Seq<char>, key: Seq<char>)
    requires
        !key.contains('+'),
    ensures
        crate::config::key_parts(key) == seq![key],
        crate::config::key_parts(before.push('+') + key).last() == key,
        crate::config::key_parts(before.push('+') + key).drop_last() == crate::config::key_parts(
            before,
        ),
{
    law_parts(before, key, '+');
    law_parts(key, key, '+');
    assert(crate::config::key_parts(before.push('+') + key).drop_last()
        =~= crate::config::key_parts(before));
}

/// The bits of some modifiers are those of each of them, if all are known.
pub proof fn law_modifiers(names: Seq<Seq<char>>, name: Seq<char>)
    ensures
        crate::config::modifiers(Seq::empty()) == Some(0u32),
        crate::config::modifier_named(name) is None ==> crate::config::modifiers(
            names.push(name),
        ) is None,
        crate::config::modifiers(names) is None ==> crate::config::modifiers(
            names.push(name),
        ) is None,
        crate::config::modifiers(names) is Some && crate::config::modifier_named(name) is Some ==> {
            let (old_bits, bit) = (
                crate::config::modifiers(names)->0,
                crate::config::modifier_named(name)->0,
            );
            let bits = crate::config::modifiers(names.push(name));
            &&& bits is Some
            &&& bits->0 & bit == bit
            &&& bits->0 & old_bits == old_bits
            &&& bits->0 & !(old_bits | bit) == 0
        },
{
    assert(names.push(name).drop_last() =~= names);
    if crate::config::modifiers(names) is Some && crate::config::modifier_named(name) is Some {
        let (x, y) = (crate::config::modifiers(names)->0, crate::config::modifier_named(name)->0);
        assert((x | y) & y == y && (x | y) & x == x && (x | y) & !(x | y) == 0) by (bit_vector);
    }
}

/// A combination is the symbol of its key with the bits of its modifiers, if both are known.
pub proof fn law_combination(keys: Seq<char>, keysym: u32)
    ensures
        ({
            let list = crate::config::key_parts(keys);
            let mods = crate::config::modifiers(list.drop_last());
            let combo = crate::config::combination(keys, keysym);
            &&& combo is Some <==> keysym != 0 && mods is Some
            &&& combo matches Some((sym, bits)) ==> sym == keysym && mods == Some(bits)
            &&& crate::config::key_named(keys) is Some <==> mods is Some
            &&& crate::config::key_named(keys) matches Some(name) ==> name == list.last()
        }),
{
}

/// The symbol of a key is what the look-up gives for its name; where a modifier is unknown there is
/// none, and nothing is looked up.
pub proof fn law_symbol<F: Fn(&str) -> u32>(look_up: F, keys: Seq<char>, name: &str, keysym: u32)
    ensures
        ({
            let list = crate::config::key_parts(keys);
            let known = crate::config::modifiers(list.drop_last()) is Some;
            &&& !known ==> (crate::config::is_symbol(look_up, keys, keysym) <==> keysym == 0)
            &&& !known ==> crate::config::can_look_up(look_up, keys)
            &&& known && name@ == list.last() && call_ensures(look_up, (name,), keysym)
                ==> crate::config::is_symbol(look_up, keys, keysym)
            &&& known && name@ == list.last() && crate::config::can_look_up(look_up, keys)
                ==> call_requires(look_up, (name,))
            &&& known && crate::config::is_symbol(look_up, keys, keysym) ==> exists|other: &str|
                other@ == list.last() && #[trigger] call_ensures(look_up, (other,), keysym)
        }),
{
}

/// Texts take as many bytes as UTF-8 gives them: one for each character of ASCII.
pub proof fn law_byte_len(s: Seq<char>)
    ensures
        crate::dialog::byte_len(s) == vstd::utf8::encode_utf8(s).len(),
        vstd::utf8::is_ascii_chars(s) ==> crate::dialog::byte_len(s) == s.len(),
{
    if vstd::utf8::is_ascii_chars(s) {
        vstd::utf8::is_ascii_chars_encode_utf8(s);
    }
}

/// The symbols of some bindings are those of each of them, in their order.
pub proof fn law_symbols<F: Fn(&str) -> u32>(
    look_up: F,
    bindings: Seq<BindingView>,
    keysyms: Seq<u32>,
    i: int,
)
    requires
        crate::config::are_symbols(look_up, bindings, keysyms),
    ensures
        keysyms.len() == bindings.len(),
        0 <= i < bindings.len() ==> crate::config::is_symbol(look_up, bindings[i].keys, keysyms[i]),
{
}

/// A configuration can be read just if its colours can, and its keys can be looked up; then each of
/// its bindings has the symbol of its own key.
pub proof fn law_config<F: Fn(&str) -> u32>(cfg: Config, look_up: F, keysyms: Seq<u32>, i: int)
    ensures
        crate::state::config_readable(cfg, keysyms) <==> {
            &&& crate::color::color_pairs_whole(cfg.colors.focused@)
            &&& crate::color::color_pairs_whole(cfg.colors.unfocused@)
            &&& keysyms.len() == cfg.bindings@.len()
        },
        crate::state::config_known(cfg, look_up) ==> crate::color::color_pairs_whole(
            cfg.colors.focused@,
        ) && crate::color::color_pairs_whole(cfg.colors.unfocused@),
        crate::state::config_known(cfg, look_up) && 0 <= i < cfg.bindings@.len()
            ==> crate::config::can_look_up(look_up, cfg.bindings@[i].keys@),
        crate::state::config_symbols(cfg, look_up, keysyms) ==> keysyms.len()
            == cfg.bindings@.len(),
        crate::state::config_symbols(cfg, look_up, keysyms) && 0 <= i < cfg.bindings@.len()
            ==> crate::config::is_symbol(look_up, cfg.bindings@[i].keys@, keysyms[i]),
{
    let views = crate::config::binding_views(cfg.bindings@);
    if crate::state::config_symbols(cfg, look_up, keysyms) && 0 <= i < cfg.bindings@.len() {
        law_symbols(look_up, views, keysyms, i);
        assert(views[i] == cfg.bindings@[i]@);
    }
}

/// A colon between two search paths parts their directories; a path without one is a directory.
pub proof fn law_search_dirs(a: Seq<char>, b: Seq<char>)
    ensures
        crate::dialog::dirs_of(a.push(':') + b) == crate::dialog::dirs_of(a)
            + crate::dialog::dirs_of(b),
        !a.contains(':') ==> crate::dialog::dirs_of(a) == seq![a],
{
    law_parts(a, b, ':');
}

} // verus!

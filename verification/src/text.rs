//! Text: cutting it into parts, comparing it, and reading numbers from it.
use vstd::prelude::*;

verus! {

/// The characters at which a text is cut into parts.
#[derive(Clone, Copy)]
pub enum Separator {
    /// One given character.
    Char(char),
    /// Any character with the Unicode property `White_Space`.
    WhiteSpace,
}

/// The Unicode property `White_Space`.
pub open spec fn is_white_space(c: char) -> bool {
    ||| '\u{9}' <= c <= '\u{d}'
    ||| c == ' '
    ||| c == '\u{85}'
    ||| c == '\u{a0}'
    ||| c == '\u{1680}'
    ||| '\u{2000}' <= c <= '\u{200a}'
    ||| '\u{2028}' <= c <= '\u{2029}'
    ||| c == '\u{202f}'
    ||| c == '\u{205f}'
    ||| c == '\u{3000}'
}

/// The Unicode general category `Cc`.
pub open spec fn is_control(c: char) -> bool {
    c <= '\u{1f}' || '\u{7f}' <= c <= '\u{9f}'
}

impl Separator {
    /// Whether a text is cut at `c`.
    pub open spec fn cuts_at(self, c: char) -> bool {
        match self {
            Separator::Char(sep) => c == sep,
            Separator::WhiteSpace => is_white_space(c),
        }
    }
}

/// The parts of `s` between the characters at which `sep` cuts: one more than there are cuts.
pub open spec fn parts(s: Seq<char>, sep: Separator) -> Seq<Seq<char>>
    decreases s.len(),
{
    if s.len() == 0 {
        seq![Seq::<char>::empty()]
    } else {
        let before = parts(s.drop_last(), sep);
        if sep.cuts_at(s.last()) {
            before.push(Seq::<char>::empty())
        } else {
            before.drop_last().push(before.last().push(s.last()))
        }
    }
}

/// The maximal runs of characters of `s` that are not white space.
pub open spec fn words(s: Seq<char>) -> Seq<Seq<char>> {
    parts(s, Separator::WhiteSpace).filter(|part: Seq<char>| part.len() > 0)
}

/// The texts that a vector of strings holds.
pub open spec fn texts(v: Seq<String>) -> Seq<Seq<char>> {
    v.map_values(|s: String| s@)
}

/// The parts of `list`, joined by one `glue` between each two.
pub open spec fn joined(list: Seq<Seq<char>>, glue: char) -> Seq<char>
    decreases list.len(),
{
    if list.len() == 0 {
        Seq::empty()
    } else if list.len() == 1 {
        list[0]
    } else {
        joined(list.drop_last(), glue).push(glue) + list.last()
    }
}

/// `c` with an ASCII capital letter made small.
pub open spec fn ascii_lower(c: char) -> char {
    if 'A' <= c <= 'Z' {
        ((c as u8 + 32) as u8) as char
    } else {
        c
    }
}

/// `s` with its ASCII capital letters made small.
pub open spec fn ascii_lowered(s: Seq<char>) -> Seq<char> {
    s.map_values(|c: char| ascii_lower(c))
}

/// Whether `c` is one of the ten decimal digits.
pub open spec fn is_digit(c: char) -> bool {
    '0' <= c <= '9'
}

/// The number that a sequence of decimal digits writes.
pub open spec fn decimal(s: Seq<char>) -> nat
    decreases s.len(),
{
    if s.len() == 0 {
        0
    } else {
        decimal(s.drop_last()) * 10 + (s.last() as nat - '0' as nat) as nat
    }
}

/// `s` without the plus sign that it may begin with.
pub open spec fn unsigned_part(s: Seq<char>) -> Seq<char> {
    if s.len() > 0 && s[0] == '+' {
        s.drop_first()
    } else {
        s
    }
}

/// The number that `s` writes: an optional plus sign, then one or more decimal digits, with a
/// value that fits in 32 bits.
pub open spec fn number(s: Seq<char>) -> Option<u32> {
    let digits = unsigned_part(s);
    if digits.len() > 0 && (forall|i: int| 0 <= i < digits.len() ==> is_digit(#[trigger] digits[i]))
        && decimal(digits) <= u32::MAX {
        Some(decimal(digits) as u32)
    } else {
        None
    }
}

/// Whether `a` stands at or before `b` in the order of their code points.
pub open spec fn at_or_before(a: Seq<char>, b: Seq<char>) -> bool
    decreases a.len(),
{
    if a.len() == 0 {
        true
    } else if b.len() == 0 {
        false
    } else {
        a[0] < b[0] || (a[0] == b[0] && at_or_before(a.drop_first(), b.drop_first()))
    }
}

/// Whether `pattern` occurs in `s`.
pub open spec fn occurs(pattern: Seq<char>, s: Seq<char>) -> bool {
    exists|i: int| 0 <= i && i + pattern.len() <= s.len() && #[trigger] s.subrange(i, i + pattern.len())
        == pattern
}

/// `s` without the characters `c` at its end.
pub open spec fn trimmed_end(s: Seq<char>, c: char) -> Seq<char>
    decreases s.len(),
{
    if s.len() > 0 && s.last() == c {
        trimmed_end(s.drop_last(), c)
    } else {
        s
    }
}

/// `s` without the characters `c` at its start.
pub open spec fn trimmed_start(s: Seq<char>, c: char) -> Seq<char>
    decreases s.len(),
{
    if s.len() > 0 && s[0] == c {
        trimmed_start(s.drop_first(), c)
    } else {
        s
    }
}

/// The characters of `s`.
pub fn chars_of(s: &str) -> (chars: Vec<char>)
    ensures
        chars@ == s@,
{
    let mut chars: Vec<char> = Vec::new();
    for c in it: s.chars()
        invariant
            chars@ == it.seq().take(it.index() as int),
    {
        chars.push(c);
    }
    chars
}

/// Whether `a` and `b` are the same text.
pub fn same(a: &str, b: &str) -> (equal: bool)
    ensures
        equal == (a@ == b@),
{
    let x = chars_of(a);
    let y = chars_of(b);
    if x.len() != y.len() {
        return false;
    }
    for i in 0..x.len()
        invariant
            x@ == a@,
            y@ == b@,
            x.len() == y.len(),
            a@.take(i as int) == b@.take(i as int),
    {
        if x[i] != y[i] {
            assert(a@[i as int] != b@[i as int]);
            return false;
        }
        assert(a@.take(i + 1) =~= a@.take(i as int).push(a@[i as int]));
        assert(b@.take(i + 1) =~= b@.take(i as int).push(b@[i as int]));
    }
    assert(a@.take(x.len() as int) =~= a@);
    assert(b@.take(x.len() as int) =~= b@);
    true
}

/// Whether `c` has the Unicode property `White_Space`.
pub fn white_space(c: char) -> (yes: bool)
    ensures
        yes == is_white_space(c),
{
    ('\u{9}' <= c && c <= '\u{d}') || c == ' ' || c == '\u{85}' || c == '\u{a0}' || c == '\u{1680}'
        || ('\u{2000}' <= c && c <= '\u{200a}') || ('\u{2028}' <= c && c <= '\u{2029}') || c
        == '\u{202f}' || c == '\u{205f}' || c == '\u{3000}'
}

/// Whether `c` has the Unicode general category `Cc`.
pub fn control(c: char) -> (yes: bool)
    ensures
        yes == is_control(c),
{
    c <= '\u{1f}' || ('\u{7f}' <= c && c <= '\u{9f}')
}

/// Whether `sep` cuts at `c`.
fn cut_here(sep: Separator, c: char) -> (yes: bool)
    ensures
        yes == sep.cuts_at(c),
{
    match sep {
        Separator::Char(at) => c == at,
        Separator::WhiteSpace => white_space(c),
    }
}

/// Cutting loses nothing: no part holds the separator, and the parts joined by it are the text
/// that was cut.
pub proof fn law_split_join(s: Seq<char>, sep: char)
    ensures
        parts(s, Separator::Char(sep)).len() > 0,
        joined(parts(s, Separator::Char(sep)), sep) == s,
        forall|i: int|
            0 <= i < parts(s, Separator::Char(sep)).len()
                ==> !(#[trigger] parts(s, Separator::Char(sep))[i]).contains(sep),
    decreases s.len(),
{
    if s.len() > 0 {
        let c = s.last();
        let before = parts(s.drop_last(), Separator::Char(sep));
        let after = parts(s, Separator::Char(sep));
        law_split_join(s.drop_last(), sep);
        if c == sep {
            assert(after.drop_last() =~= before);
            assert(joined(after, sep) =~= s.drop_last().push(c));
        } else {
            assert(after.drop_last() =~= before.drop_last());
            assert(!after.last().contains(sep)) by {
                assert forall|k: int| 0 <= k < after.last().len() implies after.last()[k] != sep by {
                    if k < before.last().len() {
                        assert(before.last().contains(before.last()[k]));
                    }
                }
            }
            assert(joined(after, sep) =~= joined(before, sep).push(c));
        }
        assert(s.drop_last().push(c) =~= s);
    }
}

/// A text without the separator is one part.
pub proof fn lemma_one_part(s: Seq<char>, sep: char)
    requires
        !s.contains(sep),
    ensures
        parts(s, Separator::Char(sep)) == seq![s],
    decreases s.len(),
{
    if s.len() == 0 {
        assert(s =~= Seq::empty());
    } else {
        let before = s.drop_last();
        assert(s.contains(s.last()));
        assert forall|k: int| 0 <= k < before.len() implies before[k] != sep by {
            assert(s.contains(s[k]));
        }
        lemma_one_part(before, sep);
        assert(before.push(s.last()) =~= s);
        assert(parts(s, Separator::Char(sep)) =~= seq![s]);
    }
}

/// What follows the last separator is the last part.
pub proof fn lemma_last_part(a: Seq<char>, b: Seq<char>, sep: char)
    requires
        !b.contains(sep),
    ensures
        parts(a.push(sep) + b, Separator::Char(sep)) == parts(a, Separator::Char(sep)).push(b),
    decreases b.len(),
{
    let s = a.push(sep) + b;
    if b.len() == 0 {
        assert(s =~= a.push(sep));
        assert(s.drop_last() =~= a);
        assert(b =~= Seq::empty());
    } else {
        let before = b.drop_last();
        assert(b.contains(b.last()));
        assert forall|k: int| 0 <= k < before.len() implies before[k] != sep by {
            assert(b.contains(b[k]));
        }
        lemma_last_part(a, before, sep);
        assert(s.drop_last() =~= a.push(sep) + before);
        assert(before.push(b.last()) =~= b);
        assert(parts(s, Separator::Char(sep)) =~= parts(a, Separator::Char(sep)).push(b));
    }
}

/// Cuts `s` into its parts.
pub fn split(s: &str, sep: Separator) -> (list: Vec<String>)
    ensures
        texts(list@) == parts(s@, sep),
{
    let chars = chars_of(s);
    let mut list: Vec<String> = Vec::new();
    let mut start: usize = 0;
    proof {
        assert(s@.subrange(0, 0) =~= Seq::<char>::empty());
        assert(parts(s@.take(0), sep) =~= texts(list@).push(s@.subrange(0, 0)));
    }
    for i in 0..chars.len()
        invariant
            chars@ == s@,
            start <= i,
            parts(s@.take(i as int), sep) == texts(list@).push(s@.subrange(start as int, i as int)),
    {
        let ghost before = texts(list@);
        let ghost open = s@.subrange(start as int, i as int);
        assert(s@.take(i + 1).drop_last() =~= s@.take(i as int));
        assert(parts(s@.take(i as int), sep).drop_last() =~= before);
        if cut_here(sep, chars[i]) {
            let part = s.substring_char(start, i).to_string();
            list.push(part);
            start = i + 1;
            assert(texts(list@) =~= before.push(open));
            assert(s@.subrange(start as int, i + 1) =~= Seq::<char>::empty());
        } else {
            assert(s@.subrange(start as int, i + 1) =~= open.push(s@[i as int]));
        }
    }
    let ghost before = texts(list@);
    let part = s.substring_char(start, chars.len()).to_string();
    list.push(part);
    assert(texts(list@) =~= before.push(part@));
    assert(s@.take(chars.len() as int) =~= s@);
    list
}

/// The words of `s`.
pub fn split_words(s: &str) -> (list: Vec<String>)
    ensures
        texts(list@) == words(s@),
{
    let all = split(s, Separator::WhiteSpace);
    let ghost filled = |part: Seq<char>| part.len() > 0;
    let mut list: Vec<String> = Vec::new();
    assert(texts(list@) =~= texts(all@).take(0).filter(filled)) by {
        reveal(Seq::filter);
    }
    for i in 0..all.len()
        invariant
            texts(all@) == parts(s@, Separator::WhiteSpace),
            filled == (|part: Seq<char>| part.len() > 0),
            texts(list@) == texts(all@).take(i as int).filter(filled),
    {
        reveal(Seq::filter);
        let ghost before = texts(list@);
        assert(texts(all@).take(i + 1).drop_last() =~= texts(all@).take(i as int));
        if !all[i].as_str().is_empty() {
            list.push(all[i].clone());
            assert(texts(list@) =~= before.push(all@[i as int]@));
        }
    }
    assert(texts(all@).take(all.len() as int) =~= texts(all@));
    list
}

/// Whether `name` is what `s` is with its ASCII capital letters made small.
pub fn is_lowered(s: &str, name: &str) -> (yes: bool)
    ensures
        yes == (ascii_lowered(s@) == name@),
{
    let x = chars_of(s);
    let y = chars_of(name);
    if x.len() != y.len() {
        assert(ascii_lowered(s@).len() == x.len());
        return false;
    }
    for i in 0..x.len()
        invariant
            x@ == s@,
            y@ == name@,
            x.len() == y.len(),
            forall|j: int| 0 <= j < i ==> ascii_lowered(s@)[j] == name@[j],
    {
        let c = x[i];
        let low: char = if 'A' <= c && c <= 'Z' {
            (c as u8 + 32) as char
        } else {
            c
        };
        assert(low == ascii_lowered(s@)[i as int]);
        if low != y[i] {
            return false;
        }
    }
    assert(ascii_lowered(s@) =~= name@);
    true
}

/// The number that `s` writes in decimal, with an optional plus sign before it.
pub fn read_number(s: &str) -> (value: Option<u32>)
    ensures
        value == number(s@),
{
    let chars = chars_of(s);
    let first: usize = if chars.len() > 0 && chars[0] == '+' {
        1
    } else {
        0
    };
    let ghost digits = unsigned_part(s@);
    assert(digits =~= s@.subrange(first as int, s@.len() as int));
    if chars.len() == first {
        return None;
    }
    let mut value: u32 = 0;
    for i in first..chars.len()
        invariant
            chars@ == s@,
            first <= chars.len(),
            digits == unsigned_part(s@),
            digits == s@.subrange(first as int, s@.len() as int),
            forall|j: int| 0 <= j < i - first ==> is_digit(#[trigger] digits[j]),
            value == decimal(digits.take(i - first)),
    {
        let c = chars[i];
        assert(c == digits[i - first]);
        if !('0' <= c && c <= '9') {
            return None;
        }
        let d: u32 = c as u32 - '0' as u32;
        assert(digits.take(i - first + 1).drop_last() =~= digits.take(i - first));
        assert(decimal(digits.take(i - first + 1)) == value * 10 + d);
        let wide: u64 = value as u64 * 10 + d as u64;
        if wide > u32::MAX as u64 {
            proof {
                lemma_decimal_grows(digits, i - first + 1);
            }
            return None;
        }
        value = wide as u32;
    }
    assert(digits.take(digits.len() as int) =~= digits);
    Some(value)
}

/// A number is at least what any of its leading digits write.
proof fn lemma_decimal_grows(digits: Seq<char>, n: int)
    requires
        0 <= n <= digits.len(),
    ensures
        decimal(digits.take(n)) <= decimal(digits),
    decreases digits.len() - n,
{
    if n == digits.len() {
        assert(digits.take(n) =~= digits);
    } else {
        lemma_decimal_grows(digits, n + 1);
        assert(digits.take(n + 1).drop_last() =~= digits.take(n));
    }
}

/// Whether `a` stands at or before `b` in the order of their code points.
pub fn not_after(a: &str, b: &str) -> (yes: bool)
    ensures
        yes == at_or_before(a@, b@),
{
    let x = chars_of(a);
    let y = chars_of(b);
    let mut i: usize = 0;
    assert(a@.skip(0) =~= a@);
    assert(b@.skip(0) =~= b@);
    while i < x.len()
        invariant
            x@ == a@,
            y@ == b@,
            i <= x.len(),
            i <= y.len(),
            at_or_before(a@, b@) == at_or_before(a@.skip(i as int), b@.skip(i as int)),
        decreases x.len() - i,
    {
        if i == y.len() {
            return false;
        }
        assert(a@.skip(i as int).drop_first() =~= a@.skip(i + 1));
        assert(b@.skip(i as int).drop_first() =~= b@.skip(i + 1));
        if x[i] < y[i] {
            return true;
        }
        if x[i] != y[i] {
            return false;
        }
        i += 1;
    }
    true
}

/// Whether `s` begins with `prefix`.
pub fn begins_with(s: &str, prefix: &str) -> (yes: bool)
    ensures
        yes == prefix@.is_prefix_of(s@),
{
    let x = chars_of(s);
    let p = chars_of(prefix);
    if p.len() > x.len() {
        return false;
    }
    same(s.substring_char(0, p.len()), prefix)
}

/// Whether `c` is among the characters of `s`.
pub fn has_char(s: &str, c: char) -> (yes: bool)
    ensures
        yes == s@.contains(c),
{
    let x = chars_of(s);
    for i in 0..x.len()
        invariant
            x@ == s@,
            forall|j: int| 0 <= j < i ==> s@[j] != c,
    {
        if x[i] == c {
            return true;
        }
    }
    false
}

/// Whether `pattern` occurs in `s`.
pub fn has_text(s: &str, pattern: &str) -> (yes: bool)
    ensures
        yes == occurs(pattern@, s@),
{
    let x = chars_of(s);
    let p = chars_of(pattern);
    if p.len() > x.len() {
        return false;
    }
    let last: usize = x.len() - p.len();
    let mut i: usize = 0;
    while i <= last
        invariant
            x@ == s@,
            p@ == pattern@,
            last == x.len() - p.len(),
            i <= last + 1,
            forall|j: int| 0 <= j < i ==> #[trigger] s@.subrange(j, j + pattern@.len()) != pattern@,
        decreases last + 1 - i,
    {
        if same(s.substring_char(i, i + p.len()), pattern) {
            return true;
        }
        if i == last {
            return false;
        }
        i += 1;
    }
    false
}

/// `s` without the characters `c` at its end.
pub fn trim_end(s: &str, c: char) -> (rest: String)
    ensures
        rest@ == trimmed_end(s@, c),
{
    let chars = chars_of(s);
    let mut n: usize = chars.len();
    assert(s@.take(n as int) =~= s@);
    while n > 0 && chars[n - 1] == c
        invariant
            chars@ == s@,
            n <= chars.len(),
            trimmed_end(s@, c) == trimmed_end(s@.take(n as int), c),
        decreases n,
    {
        assert(s@.take(n as int).drop_last() =~= s@.take(n - 1));
        n -= 1;
    }
    s.substring_char(0, n).to_string()
}

/// `s` without the characters `c` at its start.
pub fn trim_start(s: &str, c: char) -> (rest: &str)
    ensures
        rest@ == trimmed_start(s@, c),
{
    let chars = chars_of(s);
    let mut n: usize = 0;
    assert(s@.skip(0) =~= s@);
    while n < chars.len() && chars[n] == c
        invariant
            chars@ == s@,
            n <= chars.len(),
            trimmed_start(s@, c) == trimmed_start(s@.skip(n as int), c),
        decreases chars.len() - n,
    {
        assert(s@.skip(n as int).drop_first() =~= s@.skip(n + 1));
        n += 1;
    }
    assert(s@.subrange(n as int, s@.len() as int) =~= s@.skip(n as int));
    s.substring_char(n, chars.len())
}

} // verus!

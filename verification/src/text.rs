//! Small verified text utilities shared by the lexer and the parser:
//! decimal formatting and parsing of `u32` values, splitting, trimming,
//! and joining of character sequences.

use vstd::prelude::*;

verus! {

/// The decimal digit character for a value below ten.
pub open spec fn digit_char(d: nat) -> char
    recommends
        d < 10,
{
    if d == 0 {
        '0'
    } else if d == 1 {
        '1'
    } else if d == 2 {
        '2'
    } else if d == 3 {
        '3'
    } else if d == 4 {
        '4'
    } else if d == 5 {
        '5'
    } else if d == 6 {
        '6'
    } else if d == 7 {
        '7'
    } else if d == 8 {
        '8'
    } else {
        '9'
    }
}

/// The decimal representation of a natural number, most significant
/// digit first, with no sign and no leading zeros (zero itself is "0").
pub open spec fn spec_u32_string(n: nat) -> Seq<char>
    decreases n,
{
    if n < 10 {
        seq![digit_char(n)]
    } else {
        spec_u32_string(n / 10).push(digit_char(n % 10))
    }
}

/// A single decimal digit as a string slice.
fn digit_str(d: u32) -> (s: &'static str)
    requires
        d < 10,
    ensures
        s@ == seq![digit_char(d as nat)],
{
    let s: &'static str = if d == 0 {
        "0"
    } else if d == 1 {
        "1"
    } else if d == 2 {
        "2"
    } else if d == 3 {
        "3"
    } else if d == 4 {
        "4"
    } else if d == 5 {
        "5"
    } else if d == 6 {
        "6"
    } else if d == 7 {
        "7"
    } else if d == 8 {
        "8"
    } else {
        "9"
    };
    proof {
        reveal_strlit("0");
        reveal_strlit("1");
        reveal_strlit("2");
        reveal_strlit("3");
        reveal_strlit("4");
        reveal_strlit("5");
        reveal_strlit("6");
        reveal_strlit("7");
        reveal_strlit("8");
        reveal_strlit("9");
        assert(s@ =~= seq![digit_char(d as nat)]);
    }
    s
}

/// The views of a sequence of string slices.
pub open spec fn str_views(parts: Seq<&str>) -> Seq<Seq<char>> {
    parts.map_values(|p: &str| p@)
}

/// The concatenation of a sequence of character sequences in reverse
/// order: the last element comes first.
pub open spec fn rev_concat(parts: Seq<Seq<char>>) -> Seq<char>
    decreases parts.len(),
{
    if parts.len() == 0 {
        Seq::empty()
    } else {
        parts.last() + rev_concat(parts.drop_last())
    }
}

/// Formats a `u32` value in decimal.
pub fn u32_to_string(n: u32) -> (s: String)
    ensures
        s@ == spec_u32_string(n as nat),
{
    let mut digits: Vec<&'static str> = Vec::new();
    let d0 = digit_str(n % 10);
    digits.push(d0);
    let mut m: u32 = n / 10;
    proof {
        assert(str_views(digits@) =~= seq![d0@]);
        assert(str_views(digits@).drop_last() =~= Seq::<Seq<char>>::empty());
        assert(rev_concat(Seq::<Seq<char>>::empty()) == Seq::<char>::empty());
        assert(rev_concat(str_views(digits@)) =~= d0@ + rev_concat(Seq::<Seq<char>>::empty()));
        assert(rev_concat(str_views(digits@)) =~= seq![digit_char((n % 10) as nat)]);
    }
    while m > 0
        invariant
            m > 0 ==> spec_u32_string(n as nat) =~= spec_u32_string(m as nat) + rev_concat(
                str_views(digits@),
            ),
            m == 0 ==> spec_u32_string(n as nat) =~= rev_concat(str_views(digits@)),
        decreases m,
    {
        let ghost old_views = str_views(digits@);
        let dm = digit_str(m % 10);
        digits.push(dm);
        proof {
            assert(str_views(digits@).drop_last() =~= old_views);
            assert(rev_concat(str_views(digits@)) =~= dm@ + rev_concat(old_views));
        }
        m = m / 10;
        proof {
            if m > 0 {
                assert(spec_u32_string(n as nat) =~= spec_u32_string(m as nat) + rev_concat(
                    str_views(digits@),
                ));
            } else {
                assert(spec_u32_string(n as nat) =~= rev_concat(str_views(digits@)));
            }
        }
    }
    let ghost views = str_views(digits@);
    let mut s = String::new();
    let mut i: usize = digits.len();
    proof {
        assert(views.take(i as int) =~= views);
    }
    while i > 0
        invariant
            i <= digits@.len(),
            views == str_views(digits@),
            s@ + rev_concat(views.take(i as int)) =~= spec_u32_string(n as nat),
        decreases i,
    {
        i = i - 1;
        proof {
            assert(views.take(i + 1).drop_last() =~= views.take(i as int));
            assert(views.take(i + 1).last() == digits@[i as int]@);
        }
        s.append(digits[i]);
    }
    proof {
        assert(views.take(0) =~= Seq::<Seq<char>>::empty());
        assert(s@ =~= spec_u32_string(n as nat));
    }
    s
}

/// Whether a character is a decimal digit.
pub open spec fn spec_is_digit(c: char) -> bool {
    '0' <= c && c <= '9'
}

/// Whether a character is a decimal digit.
pub fn is_digit(c: char) -> (r: bool)
    ensures
        r == spec_is_digit(c),
{
    '0' <= c && c <= '9'
}

/// The numeric value of a decimal digit character.
pub open spec fn spec_digit_value(c: char) -> nat
    recommends
        spec_is_digit(c),
{
    (c as nat - '0' as nat) as nat
}

/// Whether a character has the White_Space property, as the standard
/// library's `str::trim` understands it.
pub open spec fn spec_is_whitespace(c: char) -> bool {
    c == ' ' || ('\u{0009}' <= c && c <= '\u{000D}') || c == '\u{0085}' || c == '\u{00A0}'
        || c == '\u{1680}' || ('\u{2000}' <= c && c <= '\u{200A}') || c == '\u{2028}' || c
        == '\u{2029}' || c == '\u{202F}' || c == '\u{205F}' || c == '\u{3000}'
}

/// Whether a character has the White_Space property.
pub fn is_whitespace(c: char) -> (r: bool)
    ensures
        r == spec_is_whitespace(c),
{
    c == ' ' || ('\u{0009}' <= c && c <= '\u{000D}') || c == '\u{0085}' || c == '\u{00A0}'
        || c == '\u{1680}' || ('\u{2000}' <= c && c <= '\u{200A}') || c == '\u{2028}' || c
        == '\u{2029}' || c == '\u{202F}' || c == '\u{205F}' || c == '\u{3000}'
}

/// Why a piece of text is not a `u32`: empty, holding a character that
/// is no digit, or too large.
#[derive(Debug, Clone, Copy, PartialEq, Eq, Structural)]
pub enum NumError {
    /// The text is empty.
    Empty,
    /// A character other than a digit (or a leading plus sign) occurs.
    InvalidDigit,
    /// The value does not fit in a `u32`.
    TooLarge,
}

/// Reads the digits of `s` from position `i` on into `acc`, as the
/// standard library's `u32::from_str` would: left to right, failing at
/// the first non-digit, or as soon as the value outgrows a `u32`.
pub open spec fn spec_parse_digits(s: Seq<char>, i: int, acc: u32) -> Result<u32, NumError>
    recommends
        0 <= i <= s.len(),
    decreases s.len() - i,
{
    if i < 0 || i >= s.len() {
        Ok(acc)
    } else if !spec_is_digit(s[i]) {
        Err(NumError::InvalidDigit)
    } else if acc as nat * 10 + spec_digit_value(s[i]) > u32::MAX as nat {
        Err(NumError::TooLarge)
    } else {
        spec_parse_digits(s, i + 1, (acc * 10 + spec_digit_value(s[i])) as u32)
    }
}

/// Parses text as a `u32` the way the standard library does: an
/// optional leading `+`, then one or more decimal digits.
pub open spec fn spec_parse_u32(s: Seq<char>) -> Result<u32, NumError> {
    if s.len() == 0 {
        Err(NumError::Empty)
    } else {
        let t = if s[0] == '+' {
            s.skip(1)
        } else {
            s
        };
        if t.len() == 0 {
            Err(NumError::InvalidDigit)
        } else {
            spec_parse_digits(t, 0, 0)
        }
    }
}

/// Parses a string as a `u32`: an optional leading `+`, then one or
/// more decimal digits, rejecting values that do not fit.
pub fn parse_u32(s: &str) -> (r: Result<u32, NumError>)
    ensures
        r == spec_parse_u32(s@),
{
    let len = s.unicode_len();
    if len == 0 {
        return Err(NumError::Empty);
    }
    let (t, tlen) = if s.get_char(0) == '+' {
        proof {
            assert(s@.subrange(1, len as int) =~= s@.skip(1));
        }
        (s.substring_char(1, len), len - 1)
    } else {
        (s, len)
    };
    if tlen == 0 {
        return Err(NumError::InvalidDigit);
    }
    let mut acc: u32 = 0;
    let mut i: usize = 0;
    while i < tlen
        invariant
            tlen == t@.len(),
            0 <= i <= tlen,
            spec_parse_u32(s@) == spec_parse_digits(t@, i as int, acc),
        decreases tlen - i,
    {
        let c = t.get_char(i);
        if !is_digit(c) {
            proof {
                assert(spec_parse_digits(t@, i as int, acc) == Err::<u32, NumError>(
                    NumError::InvalidDigit,
                ));
            }
            return Err(NumError::InvalidDigit);
        }
        let d: u32 = c as u32 - '0' as u32;
        if acc > (u32::MAX - d) / 10 {
            proof {
                let q = (u32::MAX - d) / 10;
                assert((u32::MAX - d) as int == q * 10 + (u32::MAX - d) % 10) by {
                    vstd::arithmetic::div_mod::lemma_fundamental_div_mod(
                        (u32::MAX - d) as int,
                        10,
                    );
                };
                assert(acc as nat * 10 + spec_digit_value(t@[i as int]) > u32::MAX as nat);
                assert(spec_parse_digits(t@, i as int, acc) == Err::<u32, NumError>(
                    NumError::TooLarge,
                ));
            }
            return Err(NumError::TooLarge);
        }
        proof {
            let q = (u32::MAX - d) / 10;
            assert((u32::MAX - d) as int == q * 10 + (u32::MAX - d) % 10) by {
                vstd::arithmetic::div_mod::lemma_fundamental_div_mod((u32::MAX - d) as int, 10);
            };
            assert(acc as nat * 10 + spec_digit_value(t@[i as int]) <= u32::MAX as nat);
        }
        acc = acc * 10 + d;
        i = i + 1;
    }
    Ok(acc)
}

/// The segments of `s` from position `i` on, where the current segment
/// began at `start`, cut at every occurrence of `sep`.
pub open spec fn spec_split_from(s: Seq<char>, sep: char, i: int, start: int) -> Seq<Seq<char>>
    recommends
        0 <= start <= i <= s.len(),
    decreases s.len() - i,
{
    if i < 0 || i >= s.len() {
        seq![s.subrange(start, s.len() as int)]
    } else if s[i] == sep {
        seq![s.subrange(start, i)] + spec_split_from(s, sep, i + 1, i + 1)
    } else {
        spec_split_from(s, sep, i + 1, start)
    }
}

/// The segments of `s` between occurrences of `sep`, as the standard
/// library's `str::split` yields them: `n` separators give `n + 1`
/// segments, empty ones included.
pub open spec fn spec_split(s: Seq<char>, sep: char) -> Seq<Seq<char>> {
    spec_split_from(s, sep, 0, 0)
}

/// The views of a sequence of strings.
pub open spec fn string_views(parts: Seq<String>) -> Seq<Seq<char>> {
    parts.map_values(|p: String| p@)
}

/// Splits a string at every occurrence of `sep`.
pub fn split_str(s: &str, sep: char) -> (parts: Vec<String>)
    ensures
        string_views(parts@) == spec_split(s@, sep),
{
    let len = s.unicode_len();
    let mut parts: Vec<String> = Vec::new();
    let mut start: usize = 0;
    let mut i: usize = 0;
    while i < len
        invariant
            len == s@.len(),
            0 <= start <= i <= len,
            spec_split(s@, sep) =~= string_views(parts@) + spec_split_from(
                s@,
                sep,
                i as int,
                start as int,
            ),
        decreases len - i,
    {
        if s.get_char(i) == sep {
            let ghost old_views = string_views(parts@);
            let seg = s.substring_char(start, i).to_owned();
            parts.push(seg);
            proof {
                assert(string_views(parts@) =~= old_views + seq![s@.subrange(
                    start as int,
                    i as int,
                )]);
            }
            start = i + 1;
        }
        i = i + 1;
    }
    let ghost old_views = string_views(parts@);
    let seg = s.substring_char(start, len).to_owned();
    parts.push(seg);
    proof {
        assert(string_views(parts@) =~= old_views + seq![s@.subrange(start as int, len as int)]);
        assert(string_views(parts@) =~= spec_split(s@, sep));
    }
    parts
}

/// `s` without its leading whitespace.
pub open spec fn spec_trim_start(s: Seq<char>) -> Seq<char>
    decreases s.len(),
{
    if s.len() > 0 && spec_is_whitespace(s.first()) {
        spec_trim_start(s.drop_first())
    } else {
        s
    }
}

/// `s` without its trailing whitespace.
pub open spec fn spec_trim_end(s: Seq<char>) -> Seq<char>
    decreases s.len(),
{
    if s.len() > 0 && spec_is_whitespace(s.last()) {
        spec_trim_end(s.drop_last())
    } else {
        s
    }
}

/// `s` without leading and trailing whitespace, as `str::trim` leaves
/// it.
pub open spec fn spec_trim(s: Seq<char>) -> Seq<char> {
    spec_trim_end(spec_trim_start(s))
}

/// Trims leading and trailing whitespace from a string.
pub fn trim_str(s: &str) -> (r: String)
    ensures
        r@ == spec_trim(s@),
{
    let len = s.unicode_len();
    let mut a: usize = 0;
    proof {
        assert(s@.skip(0) =~= s@);
    }
    while a < len && is_whitespace(s.get_char(a))
        invariant
            len == s@.len(),
            0 <= a <= len,
            spec_trim_start(s@) == spec_trim_start(s@.skip(a as int)),
        decreases len - a,
    {
        proof {
            assert(s@.skip(a as int).drop_first() =~= s@.skip(a + 1));
        }
        a = a + 1;
    }
    proof {
        assert(spec_trim_start(s@.skip(a as int)) == s@.skip(a as int));
    }
    let mut b: usize = len;
    while b > a && is_whitespace(s.get_char(b - 1))
        invariant
            len == s@.len(),
            a <= b <= len,
            spec_trim_start(s@) == s@.skip(a as int),
            spec_trim_end(s@.skip(a as int)) == spec_trim_end(s@.subrange(a as int, b as int)),
        decreases b,
    {
        proof {
            assert(s@.subrange(a as int, b as int).last() == s@[b - 1]);
            assert(s@.subrange(a as int, b as int).drop_last() =~= s@.subrange(a as int, b - 1));
        }
        b = b - 1;
    }
    proof {
        let cur = s@.subrange(a as int, b as int);
        if b == a {
            assert(cur.len() == 0);
        } else {
            assert(cur.last() == s@[b - 1]);
        }
        assert(spec_trim_end(cur) == cur);
        assert(s@.skip(a as int) =~= s@.subrange(a as int, len as int));
    }
    s.substring_char(a, b).to_owned()
}

/// The elements of `parts` joined with `sep` between them; empty when
/// `parts` is empty.
pub open spec fn spec_join(parts: Seq<Seq<char>>, sep: Seq<char>) -> Seq<char>
    decreases parts.len(),
{
    if parts.len() == 0 {
        Seq::empty()
    } else if parts.len() == 1 {
        parts[0]
    } else {
        spec_join(parts.drop_last(), sep) + sep + parts.last()
    }
}

/// Joins strings with `sep` between them.
pub fn join_strings(parts: &Vec<String>, sep: &str) -> (r: String)
    ensures
        r@ == spec_join(string_views(parts@), sep@),
{
    let ghost views = string_views(parts@);
    let mut r = String::new();
    let mut i: usize = 0;
    while i < parts.len()
        invariant
            views == string_views(parts@),
            0 <= i <= parts@.len(),
            r@ =~= spec_join(views.take(i as int), sep@),
        decreases parts@.len() - i,
    {
        if i > 0 {
            r.append(sep);
        }
        r.append(parts[i].as_str());
        proof {
            assert(views.take(i + 1).drop_last() =~= views.take(i as int));
            assert(views.take(i + 1).last() == views[i as int]);
            if i == 0 {
                assert(views.take(1) =~= seq![views[0]]);
            }
        }
        i = i + 1;
    }
    proof {
        assert(views.take(parts@.len() as int) =~= views);
    }
    r
}

/// Relies on `String::push`: appends exactly one character to the
/// string.
#[verifier::external_body]
pub fn push_char(s: &mut String, c: char)
    ensures
        final(s)@ == old(s)@.push(c),
{
    s.push(c);
}

} // verus!

//! Character-level utilities shared by the configuration and form modules:
//! hexadecimal digits, decimal rendering of numbers, and percent
//! encoding/decoding of URL components.

use vstd::prelude::*;

verus! {

/// True exactly when `c` is an ASCII character.
pub open spec fn is_ascii_char(c: char) -> bool {
    0 <= (c as int) && (c as int) < 128
}

/// True exactly when every character of `s` is ASCII.
pub open spec fn is_ascii_seq(s: Seq<char>) -> bool {
    forall|i: int| 0 <= i < s.len() ==> is_ascii_char(#[trigger] s[i])
}

/// True exactly when `c` is an ASCII decimal digit.
pub open spec fn is_digit(c: char) -> bool {
    '0' <= c && c <= '9'
}

/// True exactly when `c` is an ASCII hexadecimal digit.
pub open spec fn is_hex_digit(c: char) -> bool {
    is_digit(c) || ('a' <= c && c <= 'f') || ('A' <= c && c <= 'F')
}

/// The numeric value of a hexadecimal digit character.
pub open spec fn hex_digit_value(c: char) -> int {
    if is_digit(c) {
        c as int - '0' as int
    } else if 'a' <= c && c <= 'f' {
        10 + c as int - 'a' as int
    } else {
        10 + c as int - 'A' as int
    }
}

/// The uppercase hexadecimal digit character for a value below 16.
pub open spec fn hex_digit_char(d: int) -> char {
    if d < 10 {
        (d + '0' as int) as char
    } else {
        (d - 10 + 'A' as int) as char
    }
}

/// Decides whether a character is an ASCII hexadecimal digit.
pub fn check_hex_digit(c: char) -> (r: bool)
    ensures
        r == is_hex_digit(c),
{
    ('0' <= c && c <= '9') || ('a' <= c && c <= 'f') || ('A' <= c && c <= 'F')
}

/// The numeric value of a hexadecimal digit character.
pub fn hex_value(c: char) -> (v: u8)
    requires
        is_hex_digit(c),
    ensures
        v == hex_digit_value(c),
        v < 16,
{
    if '0' <= c && c <= '9' {
        (c as u8) - ('0' as u8)
    } else if 'a' <= c && c <= 'f' {
        10 + (c as u8) - ('a' as u8)
    } else {
        10 + (c as u8) - ('A' as u8)
    }
}

/// The uppercase hexadecimal digit character for a value below 16.
pub fn hex_char(d: u8) -> (c: char)
    requires
        d < 16,
    ensures
        c == hex_digit_char(d as int),
{
    if d < 10 {
        (d + ('0' as u8)) as char
    } else {
        (d - 10 + ('A' as u8)) as char
    }
}

/// Appends one character to a string.
///
/// Relies on `String::push` of std: it appends the given character to
/// the end of the string and changes nothing else.
#[verifier::external_body]
pub(crate) fn push_char(s: &mut String, c: char)
    ensures
        final(s)@ == old(s)@.push(c),
{
    s.push(c)
}

/// The decimal digit character for a value below 10.
pub open spec fn digit_char(d: int) -> char {
    (d + '0' as int) as char
}

/// The decimal rendering of a non-negative number, most significant
/// digit first, with no leading zeros (a lone zero for 0).
pub open spec fn decimal_seq(n: int) -> Seq<char>
    decreases n,
{
    if n < 10 {
        seq![digit_char(n)]
    } else {
        decimal_seq(n / 10).push(digit_char(n % 10))
    }
}

/// Appends the decimal rendering of `n` to `s`.
pub fn push_decimal(s: &mut String, n: u16)
    ensures
        final(s)@ == old(s)@ + decimal_seq(n as int),
    decreases n,
{
    if n < 10 {
        push_char(s, (((n as u8) + ('0' as u8)) as char));
        assert(final(s)@ =~= old(s)@ + decimal_seq(n as int));
    } else {
        push_decimal(s, n / 10);
        push_char(s, ((((n % 10) as u8) + ('0' as u8)) as char));
        assert(final(s)@ =~= old(s)@ + decimal_seq(n as int));
    }
}

/// The decimal rendering of `n` as a fresh string.
pub fn decimal_string(n: u16) -> (r: String)
    ensures
        r@ == decimal_seq(n as int),
{
    let mut s = String::new();
    push_decimal(&mut s, n);
    proof {
        assert(s@ =~= decimal_seq(n as int));
    }
    s
}

/// The numeric value of a digit sequence read from position `i` on,
/// starting from the accumulated value `acc`.
pub open spec fn decimal_value_from(s: Seq<char>, i: int, acc: int) -> int
    decreases s.len() - i,
{
    if i < 0 || i >= s.len() {
        acc
    } else {
        decimal_value_from(s, i + 1, acc * 10 + (s[i] as int - '0' as int))
    }
}

/// The numeric value of a sequence of decimal digit characters.
pub open spec fn decimal_value(s: Seq<char>) -> int {
    decimal_value_from(s, 0, 0)
}

/// Reading more digits from a non-negative accumulator never shrinks it.
pub proof fn lemma_decimal_value_from_monotone(s: Seq<char>, i: int, acc: int)
    requires
        0 <= acc,
        forall|j: int| 0 <= j < s.len() ==> is_digit(#[trigger] s[j]),
    ensures
        decimal_value_from(s, i, acc) >= acc,
    decreases s.len() - i,
{
    if 0 <= i < s.len() {
        lemma_decimal_value_from_monotone(s, i + 1, acc * 10 + (s[i] as int - '0' as int));
    }
}

/// True exactly when `c` may stand for itself in a percent-encoded
/// component (the unreserved characters of a URL).
pub open spec fn is_unreserved(c: char) -> bool {
    ('A' <= c && c <= 'Z') || ('a' <= c && c <= 'z') || is_digit(c) || c == '-' || c == '.'
        || c == '_' || c == '~'
}

/// True exactly when the text from position `i` on decodes cleanly:
/// every `%` is followed by two hexadecimal digits.
pub open spec fn decode_ok_from(s: Seq<char>, i: int) -> bool
    decreases s.len() - i,
{
    if i < 0 || i >= s.len() {
        true
    } else if s[i] == '%' {
        i + 2 < s.len() && is_hex_digit(s[i + 1]) && is_hex_digit(s[i + 2]) && decode_ok_from(
            s,
            i + 3,
        )
    } else {
        decode_ok_from(s, i + 1)
    }
}

/// The percent-decoding of the text from position `i` on: `%XX` becomes
/// the character with code `XX`, `+` becomes a space, and every other
/// character stands for itself. A `%` that is not followed by two
/// hexadecimal digits is skipped; `decode_ok_from` rules that case out.
pub open spec fn decode_from(s: Seq<char>, i: int) -> Seq<char>
    decreases s.len() - i,
{
    if i < 0 || i >= s.len() {
        Seq::empty()
    } else if s[i] == '%' {
        if i + 2 < s.len() && is_hex_digit(s[i + 1]) && is_hex_digit(s[i + 2]) {
            seq![(((hex_digit_value(s[i + 1]) * 16 + hex_digit_value(s[i + 2])) as u8) as char)]
                + decode_from(s, i + 3)
        } else {
            decode_from(s, i + 1)
        }
    } else if s[i] == '+' {
        seq![' '] + decode_from(s, i + 1)
    } else {
        seq![s[i]] + decode_from(s, i + 1)
    }
}

/// True exactly when the whole text decodes cleanly.
pub open spec fn percent_decode_ok(s: Seq<char>) -> bool {
    decode_ok_from(s, 0)
}

/// The percent-decoding of the whole text.
pub open spec fn percent_decoded(s: Seq<char>) -> Seq<char> {
    decode_from(s, 0)
}

/// Percent-decodes a component: `None` exactly on malformed input.
pub fn percent_decode(s: &str) -> (r: Option<String>)
    ensures
        r.is_some() == percent_decode_ok(s@),
        r matches Some(out) ==> out@ == percent_decoded(s@),
{
    let n = s.unicode_len();
    let mut out = String::new();
    let mut i: usize = 0;
    while i < n
        invariant
            0 <= i <= n,
            n == s@.len(),
            decode_ok_from(s@, 0) == decode_ok_from(s@, i as int),
            decode_from(s@, 0) == out@ + decode_from(s@, i as int),
        decreases n - i,
    {
        let c = s.get_char(i);
        if c == '%' {
            if n - i > 2 {
                let h = s.get_char(i + 1);
                let l = s.get_char(i + 2);
                if check_hex_digit(h) && check_hex_digit(l) {
                    let v = hex_value(h) * 16 + hex_value(l);
                    push_char(&mut out, v as char);
                    proof {
                        assert(decode_from(s@, 0) =~= out@ + decode_from(s@, i + 3));
                    }
                    i = i + 3;
                } else {
                    return None;
                }
            } else {
                return None;
            }
        } else {
            if c == '+' {
                push_char(&mut out, ' ');
            } else {
                push_char(&mut out, c);
            }
            proof {
                assert(decode_from(s@, 0) =~= out@ + decode_from(s@, i + 1));
            }
            i = i + 1;
        }
    }
    proof {
        assert(out@ =~= decode_from(s@, 0));
    }
    Some(out)
}

/// The encoding of one character: an unreserved character stands for
/// itself, any other becomes `%` and two uppercase hexadecimal digits.
pub open spec fn encoded_char(c: char) -> Seq<char> {
    if is_unreserved(c) {
        seq![c]
    } else {
        seq!['%', hex_digit_char(c as int / 16), hex_digit_char(c as int % 16)]
    }
}

/// The percent-encoding of a component, character by character.
pub open spec fn percent_encoded(s: Seq<char>) -> Seq<char>
    decreases s.len(),
{
    if s.len() == 0 {
        Seq::empty()
    } else {
        encoded_char(s[0]) + percent_encoded(s.skip(1))
    }
}

/// Percent-encodes an ASCII component.
pub fn percent_encode(s: &str) -> (r: String)
    requires
        is_ascii_seq(s@),
    ensures
        r@ == percent_encoded(s@),
{
    let n = s.unicode_len();
    let mut out = String::new();
    let mut i: usize = 0;
    proof {
        assert(s@.skip(0) =~= s@);
    }
    while i < n
        invariant
            0 <= i <= n,
            n == s@.len(),
            is_ascii_seq(s@),
            percent_encoded(s@) == out@ + percent_encoded(s@.skip(i as int)),
        decreases n - i,
    {
        let c = s.get_char(i);
        let ghost tail = s@.skip(i as int);
        proof {
            assert(tail[0] == s@[i as int]);
            assert(tail.skip(1) =~= s@.skip(i + 1));
            assert(percent_encoded(tail) == encoded_char(c) + percent_encoded(s@.skip(i + 1)));
        }
        if ('A' <= c && c <= 'Z') || ('a' <= c && c <= 'z') || ('0' <= c && c <= '9') || c == '-'
            || c == '.' || c == '_' || c == '~' {
            push_char(&mut out, c);
        } else {
            assert(is_ascii_char(s@[i as int]));
            let v = c as u8;
            push_char(&mut out, '%');
            push_char(&mut out, hex_char(v / 16));
            push_char(&mut out, hex_char(v % 16));
        }
        proof {
            assert(percent_encoded(s@) =~= out@ + percent_encoded(s@.skip(i + 1)));
        }
        i = i + 1;
    }
    proof {
        assert(out@ =~= percent_encoded(s@));
    }
    out
}

/// Decoding looks only at the suffix: decoding from position `i`
/// equals decoding the suffix that starts there.
pub proof fn lemma_decode_from_suffix(s: Seq<char>, i: int)
    requires
        0 <= i <= s.len(),
    ensures
        decode_from(s, i) == decode_from(s.skip(i), 0),
        decode_ok_from(s, i) == decode_ok_from(s.skip(i), 0),
    decreases s.len() - i,
{
    let t = s.skip(i);
    if i < s.len() {
        assert(t[0] == s[i]);
        assert(t.len() == s.len() - i);
        if s[i] == '%' && i + 2 < s.len() && is_hex_digit(s[i + 1]) && is_hex_digit(s[i + 2]) {
            assert(t[1] == s[i + 1]);
            assert(t[2] == s[i + 2]);
            lemma_decode_from_suffix(s, i + 3);
            lemma_decode_from_suffix(t, 3);
            assert(t.skip(3) =~= s.skip(i + 3));
        } else if s[i] == '%' {
            assert(i + 2 < s.len() ==> (t[1] == s[i + 1] && t[2] == s[i + 2]));
            lemma_decode_from_suffix(s, i + 1);
            lemma_decode_from_suffix(t, 1);
            assert(t.skip(1) =~= s.skip(i + 1));
        } else {
            lemma_decode_from_suffix(s, i + 1);
            lemma_decode_from_suffix(t, 1);
            assert(t.skip(1) =~= s.skip(i + 1));
        }
    }
}

/// A hexadecimal digit character reads back as its value, and is
/// itself an unreserved character.
pub proof fn lemma_hex_char_value(d: int)
    requires
        0 <= d < 16,
    ensures
        is_hex_digit(hex_digit_char(d)),
        hex_digit_value(hex_digit_char(d)) == d,
        is_unreserved(hex_digit_char(d)),
{
}

/// Percent-encoded ASCII text never contains a reserved character
/// other than `%` itself: every separator is escaped away.
pub proof fn lemma_encoded_avoids(s: Seq<char>, c: char)
    requires
        is_ascii_seq(s),
        !is_unreserved(c),
        c != '%',
    ensures
        forall|j: int| 0 <= j < percent_encoded(s).len() ==> percent_encoded(s)[j] != c,
    decreases s.len(),
{
    if s.len() > 0 {
        let rest = s.skip(1);
        assert(is_ascii_seq(rest)) by {
            assert(forall|j: int| 0 <= j < rest.len() ==> rest[j] == s[j + 1]);
        }
        lemma_encoded_avoids(rest, c);
        let chunk = encoded_char(s[0]);
        assert(forall|j: int| 0 <= j < chunk.len() ==> chunk[j] != c) by {
            assert(is_ascii_char(s[0]));
            if !is_unreserved(s[0]) {
                lemma_hex_char_value(s[0] as int / 16);
                lemma_hex_char_value(s[0] as int % 16);
            }
        }
        assert forall|j: int| 0 <= j < percent_encoded(s).len() implies percent_encoded(s)[j] != c by {
            if j < chunk.len() {
                assert(percent_encoded(s)[j] == chunk[j]);
            } else {
                assert(percent_encoded(s)[j] == percent_encoded(rest)[j - chunk.len()]);
            }
        }
    }
}

/// Text without `%` and `+` decodes cleanly, to itself.
pub proof fn lemma_plain_decode(s: Seq<char>, i: int)
    requires
        0 <= i <= s.len(),
        forall|j: int| i <= j < s.len() ==> s[j] != '%' && s[j] != '+',
    ensures
        decode_ok_from(s, i),
        decode_from(s, i) == s.skip(i),
    decreases s.len() - i,
{
    if i < s.len() {
        lemma_plain_decode(s, i + 1);
        assert(decode_from(s, i) =~= s.skip(i));
    } else {
        assert(decode_from(s, i) =~= s.skip(i));
    }
}

/// Percent-decoding inverts percent-encoding on ASCII text: the
/// encoding always decodes cleanly, back to the original text.
pub proof fn lemma_percent_round_trip(s: Seq<char>)
    requires
        is_ascii_seq(s),
    ensures
        percent_decode_ok(percent_encoded(s)),
        percent_decoded(percent_encoded(s)) == s,
    decreases s.len(),
{
    if s.len() == 0 {
        assert(percent_decoded(percent_encoded(s)) =~= s);
    } else {
        let c = s[0];
        let rest = s.skip(1);
        assert(is_ascii_seq(rest)) by {
            assert(forall|j: int| 0 <= j < rest.len() ==> rest[j] == s[j + 1]);
        }
        lemma_percent_round_trip(rest);
        let t = percent_encoded(rest);
        let e = percent_encoded(s);
        assert(e == encoded_char(c) + t);
        if is_unreserved(c) {
            assert(e[0] == c);
            assert(c != '%' && c != '+');
            lemma_decode_from_suffix(e, 1);
            assert(e.skip(1) =~= t);
            assert(percent_decoded(e) =~= s);
        } else {
            let hi = c as int / 16;
            let lo = c as int % 16;
            assert(is_ascii_char(s[0]));
            assert(0 <= hi < 16 && 0 <= lo < 16);
            lemma_hex_char_value(hi);
            lemma_hex_char_value(lo);
            assert(e[0] == '%');
            assert(e[1] == hex_digit_char(hi));
            assert(e[2] == hex_digit_char(lo));
            assert(e.len() >= 3);
            assert(hi * 16 + lo == c as int);
            assert((((hi * 16 + lo) as u8) as char) == c);
            lemma_decode_from_suffix(e, 3);
            assert(e.skip(3) =~= t);
            assert(percent_decoded(e) =~= s);
        }
    }
}

} // verus!

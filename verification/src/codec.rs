//! Textual form of a flag artifact: one JSON object with a fixed key
//! order, written and read by verified code. The encoder and the parser
//! are specified against the same spec functions, and parsing recovers
//! exactly what encoding produced.

use vstd::prelude::*;
use crate::models::{metrics_view, Flag, FlagType, FlagView, MetricValue, MetricValueView, Severity};
use crate::numtext::{
    char_to_digit, dec_chars, digit_char, digit_val, frac3_chars, is_digit, is_digit_char,
    lemma_dec_chars_val, lemma_digit_char_val, lemma_digits_prefix_le_len, lemma_parse_dec_chars,
    milli_chars, parse_digits, push_dec_chars, push_milli_chars, spec_parse_digits,
};

verus! {

/// Lowercase hexadecimal digit of a value in `0 ..= 15`.
pub open spec fn hex_char(d: int) -> char {
    if d < 10 {
        digit_char(d)
    } else if d == 10 { 'a' }
    else if d == 11 { 'b' }
    else if d == 12 { 'c' }
    else if d == 13 { 'd' }
    else if d == 14 { 'e' }
    else { 'f' }
}

/// `c` is a lowercase hexadecimal digit.
pub open spec fn is_hex(c: char) -> bool {
    is_digit(c) || 'a' <= c <= 'f'
}

/// Numeric value of a lowercase hexadecimal digit.
pub open spec fn hex_val(c: char) -> int {
    if is_digit(c) {
        digit_val(c)
    } else {
        c as int - 87
    }
}

/// The character of a code below 128, as the parser rebuilds it.
pub open spec fn code_char(code: int) -> char {
    (code as u8) as char
}

/// Escape of one character inside a quoted string: `"` and `\` get a
/// backslash, control characters become `\u00XY`, all else stands as is.
pub open spec fn esc_char(c: char) -> Seq<char> {
    if c == '"' {
        seq!['\\', '"']
    } else if c == '\\' {
        seq!['\\', '\\']
    } else if (c as u32) < 32 {
        seq!['\\', 'u', '0', '0', hex_char((c as u32 / 16) as int), hex_char((c as u32 % 16) as int)]
    } else {
        seq![c]
    }
}

/// Escape of a whole string, character by character.
pub open spec fn esc_chars(s: Seq<char>) -> Seq<char>
    decreases s.len(),
{
    if s.len() == 0 {
        Seq::empty()
    } else {
        esc_char(s[0]) + esc_chars(s.drop_first())
    }
}

/// A quoted, escaped JSON string.
pub open spec fn enc_string(s: Seq<char>) -> Seq<char> {
    seq!['"'] + esc_chars(s) + seq!['"']
}

/// Escaping distributes over concatenation.
pub proof fn lemma_esc_chars_add(a: Seq<char>, b: Seq<char>)
    ensures
        esc_chars(a + b) == esc_chars(a) + esc_chars(b),
    decreases a.len(),
{
    if a.len() == 0 {
        assert(a + b =~= b);
        assert(esc_chars(a) + esc_chars(b) =~= esc_chars(b));
    } else {
        assert((a + b).drop_first() =~= a.drop_first() + b);
        lemma_esc_chars_add(a.drop_first(), b);
        assert(esc_chars(a + b) =~= esc_chars(a) + esc_chars(b));
    }
}

/// The literal `lit` stands at position `i` of `s`; the position after it.
pub open spec fn spec_expect(s: Seq<char>, i: int, lit: Seq<char>) -> Option<int> {
    if 0 <= i && i + lit.len() <= s.len() && s.subrange(i, i + lit.len()) == lit {
        Some(i + lit.len())
    } else {
        None
    }
}

/// Body of a quoted string from position `i` (after the opening quote):
/// the unescaped content and the position after the closing quote.
pub open spec fn spec_parse_str_body(s: Seq<char>, i: int) -> Option<(Seq<char>, int)>
    decreases s.len() - i,
{
    if i < 0 || i >= s.len() {
        None
    } else if s[i] == '"' {
        Some((Seq::empty(), i + 1))
    } else if s[i] == '\\' {
        if i + 1 < s.len() && (s[i + 1] == '"' || s[i + 1] == '\\') {
            match spec_parse_str_body(s, i + 2) {
                Some((t, k)) => Some((seq![s[i + 1]] + t, k)),
                None => None,
            }
        } else if i + 5 < s.len() && s[i + 1] == 'u' && s[i + 2] == '0' && s[i + 3] == '0'
            && is_hex(s[i + 4]) && is_hex(s[i + 5]) && 16 * hex_val(s[i + 4]) + hex_val(s[i + 5]) < 32 {
            match spec_parse_str_body(s, i + 6) {
                Some((t, k)) => Some(
                    (seq![code_char(16 * hex_val(s[i + 4]) + hex_val(s[i + 5]))] + t, k),
                ),
                None => None,
            }
        } else {
            None
        }
    } else {
        match spec_parse_str_body(s, i + 1) {
            Some((t, k)) => Some((seq![s[i]] + t, k)),
            None => None,
        }
    }
}

/// A quoted string at position `i`: its content and the position after it.
pub open spec fn spec_parse_string(s: Seq<char>, i: int) -> Option<(Seq<char>, int)> {
    if 0 <= i < s.len() && s[i] == '"' {
        spec_parse_str_body(s, i + 1)
    } else {
        None
    }
}

/// The characters of a string, in order.
pub fn str_to_chars(s: &str) -> (r: Vec<char>)
    ensures
        r@ == s@,
{
    let n = s.unicode_len();
    let mut r: Vec<char> = Vec::new();
    let mut j: usize = 0;
    while j < n
        invariant
            n == s@.len(),
            j <= n,
            r@ == s@.take(j as int),
        decreases n - j,
    {
        r.push(s.get_char(j));
        proof {
            assert(s@.take(j + 1) =~= s@.take(j as int).push(s@[j as int]));
        }
        j = j + 1;
    }
    proof {
        assert(s@.take(n as int) =~= s@);
    }
    r
}

/// Relies on `String`'s `FromIterator<char>`: collecting characters
/// yields the string of exactly those characters in order.
#[verifier::external_body]
pub fn chars_to_string(v: &Vec<char>) -> (r: String)
    ensures
        r@ == v@,
{
    v.iter().collect()
}

/// Lowercase hexadecimal digit of a value in `0 ..= 15`.
pub fn hex_to_char(d: u32) -> (c: char)
    requires
        d <= 15,
    ensures
        c == hex_char(d as int),
{
    match d {
        0 => '0',
        1 => '1',
        2 => '2',
        3 => '3',
        4 => '4',
        5 => '5',
        6 => '6',
        7 => '7',
        8 => '8',
        9 => '9',
        10 => 'a',
        11 => 'b',
        12 => 'c',
        13 => 'd',
        14 => 'e',
        _ => 'f',
    }
}

/// Appends the characters of a literal.
pub fn push_lit(out: &mut Vec<char>, lit: &str)
    ensures
        final(out)@ == old(out)@ + lit@,
{
    let lv = str_to_chars(lit);
    let mut j: usize = 0;
    while j < lv.len()
        invariant
            j <= lv.len(),
            lv@ == lit@,
            out@ == old(out)@ + lit@.take(j as int),
        decreases lv.len() - j,
    {
        out.push(lv[j]);
        proof {
            assert(old(out)@ + lit@.take(j + 1) =~= (old(out)@ + lit@.take(j as int)).push(
                lit@[j as int],
            ));
        }
        j = j + 1;
    }
    proof {
        assert(lit@.take(lit@.len() as int) =~= lit@);
    }
}

/// Appends the escape of one character.
fn push_esc_char(out: &mut Vec<char>, c: char)
    ensures
        final(out)@ == old(out)@ + esc_char(c),
{
    if c == '"' {
        out.push('\\');
        out.push('"');
    } else if c == '\\' {
        out.push('\\');
        out.push('\\');
    } else if (c as u32) < 32 {
        let code = c as u32;
        out.push('\\');
        out.push('u');
        out.push('0');
        out.push('0');
        out.push(hex_to_char(code / 16));
        out.push(hex_to_char(code % 16));
    }
    else {
        out.push(c);
    }
    assert(final(out)@ =~= old(out)@ + esc_char(c));
}

/// Appends a quoted, escaped JSON string.
pub fn push_enc_string(out: &mut Vec<char>, s: &str)
    ensures
        final(out)@ == old(out)@ + enc_string(s@),
{
    let cv = str_to_chars(s);
    out.push('"');
    let mut j: usize = 0;
    while j < cv.len()
        invariant
            j <= cv.len(),
            cv@ == s@,
            out@ == old(out)@ + seq!['"'] + esc_chars(s@.take(j as int)),
        decreases cv.len() - j,
    {
        proof {
            let x = s@[j as int];
            assert(s@.take(j + 1) =~= s@.take(j as int) + seq![x]);
            lemma_esc_chars_add(s@.take(j as int), seq![x]);
            assert(seq![x].drop_first() =~= Seq::<char>::empty());
            assert(esc_chars(Seq::<char>::empty()) == Seq::<char>::empty());
            assert(esc_chars(seq![x]) == esc_char(seq![x][0]) + esc_chars(seq![x].drop_first()));
            assert(seq![x][0] == x);
            assert(esc_chars(seq![x]) =~= esc_char(x));
        }
        push_esc_char(out, cv[j]);
        j = j + 1;
    }
    out.push('"');
    proof {
        assert(s@.take(s@.len() as int) =~= s@);
        assert(final(out)@ =~= old(out)@ + enc_string(s@));
    }
}

/// Checks that `lit` stands at position `i` of `cs`.
pub fn expect_lit(cs: &Vec<char>, i: usize, lit: &str) -> (r: Option<usize>)
    requires
        i <= cs.len(),
    ensures
        match spec_expect(cs@, i as int, lit@) {
            Some(j) => r is Some && r->0 == j && i <= j <= cs.len(),
            None => r is None,
        },
{
    let lv = str_to_chars(lit);
    if cs.len() - i < lv.len() {
        return None;
    }
    let mut j: usize = 0;
    while j < lv.len()
        invariant
            j <= lv.len(),
            lv@ == lit@,
            i + lv.len() <= cs.len(),
            forall|t: int| 0 <= t < j ==> cs@[i + t] == lit@[t],
        decreases lv.len() - j,
    {
        if cs[i + j] != lv[j] {
            proof {
                assert(cs@.subrange(i as int, i + lit@.len())[j as int] == cs@[i + j]);
            }
            return None;
        }
        j = j + 1;
    }
    proof {
        assert(cs@.subrange(i as int, i + lit@.len()) =~= lit@);
    }
    Some(i + lv.len())
}

/// Reads a quoted string's body, appending its unescaped content.
fn parse_str_body(cs: &Vec<char>, i: usize, out: &mut Vec<char>) -> (r: Option<usize>)
    requires
        i <= cs.len(),
    ensures
        match spec_parse_str_body(cs@, i as int) {
            Some((t, k)) => {
                &&& r is Some
                &&& r->0 == k
                &&& i < k <= cs.len()
                &&& final(out)@ == old(out)@ + t
            },
            None => r is None,
        },
    decreases cs.len() - i,
{
    if i >= cs.len() {
        return None;
    }
    let c = cs[i];
    if c == '"' {
        assert(final(out)@ =~= old(out)@ + Seq::<char>::empty());
        Some(i + 1)
    } else if c == '\\' {
        if cs.len() - i > 1 && (cs[i + 1] == '"' || cs[i + 1] == '\\') {
            out.push(cs[i + 1]);
            let r = parse_str_body(cs, i + 2, out);
            proof {
                if let Some((t, k)) = spec_parse_str_body(cs@, i + 2) {
                    assert(final(out)@ =~= old(out)@ + (seq![cs@[i + 1]] + t));
                }
            }
            r
        } else if cs.len() - i > 5 && cs[i + 1] == 'u' && cs[i + 2] == '0' && cs[i + 3] == '0'
            && is_hex_digit(cs[i + 4]) && is_hex_digit(cs[i + 5])
            && 16 * hex_digit_val(cs[i + 4]) + hex_digit_val(cs[i + 5]) < 32 {
            let code: u32 = 16 * hex_digit_val(cs[i + 4]) + hex_digit_val(cs[i + 5]);
            let b: u8 = code as u8;
            out.push(b as char);
            let r = parse_str_body(cs, i + 6, out);
            proof {
                if let Some((t, k)) = spec_parse_str_body(cs@, i + 6) {
                    assert(final(out)@ =~= old(out)@ + (seq![
                        code_char(16 * hex_val(cs@[i + 4]) + hex_val(cs@[i + 5])),
                    ] + t));
                }
            }
            r
        } else {
            None
        }
    } else {
        out.push(c);
        let r = parse_str_body(cs, i + 1, out);
        proof {
            if let Some((t, k)) = spec_parse_str_body(cs@, i + 1) {
                assert(final(out)@ =~= old(out)@ + (seq![cs@[i as int]] + t));
            }
        }
        r
    }
}

/// Reads a quoted string at position `i`: its content and the position
/// after the closing quote.
pub fn parse_string(cs: &Vec<char>, i: usize) -> (r: Option<(Vec<char>, usize)>)
    requires
        i <= cs.len(),
    ensures
        match spec_parse_string(cs@, i as int) {
            Some((t, k)) => {
                &&& r is Some
                &&& (r->0).0@ == t
                &&& (r->0).1 == k
                &&& i < k <= cs.len()
            },
            None => r is None,
        },
{
    if i < cs.len() && cs[i] == '"' {
        let mut out: Vec<char> = Vec::new();
        match parse_str_body(cs, i + 1, &mut out) {
            Some(k) => Some((out, k)),
            None => None,
        }
    } else {
        None
    }
}

/// Decides `is_hex` on a character.
fn is_hex_digit(c: char) -> (r: bool)
    ensures
        r == is_hex(c),
{
    ('0' <= c && c <= '9') || ('a' <= c && c <= 'f')
}

/// Numeric value of a lowercase hexadecimal digit.
fn hex_digit_val(c: char) -> (d: u32)
    requires
        is_hex(c),
    ensures
        d == hex_val(c),
        d <= 15,
{
    if '0' <= c && c <= '9' {
        c as u32 - 48
    } else {
        c as u32 - 87
    }
}

/// Parsing recovers an encoded string: at position `i` of a text whose
/// next characters are `enc_string(v)`, the parse yields exactly `v` and
/// stops after the closing quote.
pub proof fn lemma_parse_enc_string(v: Seq<char>, s: Seq<char>, i: int)
    requires
        0 <= i,
        i + enc_string(v).len() <= s.len(),
        s.subrange(i, i + enc_string(v).len()) == enc_string(v),
    ensures
        spec_parse_string(s, i) == Some((v, i + enc_string(v).len())),
{
    let e = enc_string(v);
    assert(forall|t: int| i <= t < i + e.len() ==> #[trigger] s[t] == e[t - i]) by {
        assert(forall|t: int| 0 <= t < e.len() ==> #[trigger] s.subrange(i, i + e.len())[t] == s[
            i + t
        ]);
    }
    let e2 = esc_chars(v) + seq!['"'];
    assert(e =~= seq!['"'] + e2);
    assert(s[i] == e[0]);
    assert(e[0] == '"');
    assert(s.subrange(i + 1, i + 1 + e2.len()) =~= e2) by {
        assert(forall|t: int| 0 <= t < e2.len() ==> #[trigger] s.subrange(
            i + 1,
            i + 1 + e2.len(),
        )[t] == s[i + 1 + t]);
        assert(forall|t: int| 0 <= t < e2.len() ==> s[i + 1 + t] == #[trigger] e2[t]);
    }
    lemma_parse_esc_body(v, s, i + 1);
}

/// Parsing recovers an escaped body followed by a closing quote.
proof fn lemma_parse_esc_body(v: Seq<char>, s: Seq<char>, i: int)
    requires
        0 <= i,
        i + esc_chars(v).len() + 1 <= s.len(),
        s.subrange(i, i + esc_chars(v).len() + 1) == esc_chars(v) + seq!['"'],
    ensures
        spec_parse_str_body(s, i) == Some((v, i + esc_chars(v).len() + 1)),
    decreases v.len(),
{
    let quote = seq!['"'];
    let e = esc_chars(v) + quote;
    assert(forall|t: int| i <= t < i + e.len() ==> #[trigger] s[t] == e[t - i]) by {
        assert(forall|t: int| 0 <= t < e.len() ==> #[trigger] s.subrange(i, i + e.len())[t] == s[
            i + t
        ]);
    }
    if v.len() == 0 {
        assert(esc_chars(v) == Seq::<char>::empty());
        assert(e =~= quote);
        assert(s[i] == e[0]);
        assert(e[0] == '"');
    } else {
        let c = v[0];
        let rest = v.drop_first();
        assert(v =~= seq![c] + rest);
        assert(esc_chars(v) == esc_char(c) + esc_chars(rest));
        let a = esc_char(c);
        let cl = a.len() as int;
        let e2 = esc_chars(rest) + quote;
        assert(e =~= a + e2);
        assert(forall|t: int| 0 <= t < cl ==> e[t] == #[trigger] a[t]);
        assert(forall|t: int| 0 <= t < e2.len() ==> e[cl + t] == #[trigger] e2[t]);
        assert(forall|t: int| 0 <= t < cl ==> s[i + t] == #[trigger] a[t]);
        assert(s.subrange(i + cl, i + cl + e2.len()) =~= e2) by {
            assert(forall|t: int| 0 <= t < e2.len() ==> #[trigger] s.subrange(
                i + cl,
                i + cl + e2.len(),
            )[t] == s[i + cl + t]);
            assert(forall|t: int| 0 <= t < e2.len() ==> s[i + cl + t] == #[trigger] e2[t]);
        }
        lemma_parse_esc_body(rest, s, i + cl);
        if c == '"' {
            assert(s[i] == a[0] && s[i + 1] == a[1]);
            assert(a[0] == '\\' && a[1] == '"');
            assert(seq![s[i + 1]] + rest =~= v);
        } else if c == '\\' {
            assert(s[i] == a[0] && s[i + 1] == a[1]);
            assert(a[0] == '\\' && a[1] == '\\');
            assert(seq![s[i + 1]] + rest =~= v);
        } else if (c as u32) < 32 {
            let u: u32 = c as u32;
            assert(s[i] == a[0] && s[i + 1] == a[1] && s[i + 2] == a[2] && s[i + 3] == a[3]
                && s[i + 4] == a[4] && s[i + 5] == a[5]);
            assert(a[0] == '\\' && a[1] == 'u' && a[2] == '0' && a[3] == '0');
            assert(a[4] == hex_char((u / 16) as int));
            assert(a[5] == hex_char((u % 16) as int));
            lemma_hex_char_val(u as int / 16);
            lemma_hex_char_val(u as int % 16);
            assert(16 * hex_val(s[i + 4]) + hex_val(s[i + 5]) == u as int);
            assert(code_char(u as int) == c) by {
                let b: u8 = u as u8;
                assert(b == u);
                assert((u as int) as u8 == b);
                vstd::utf8::char_u32_cast(c, u);
                assert(b as char == u as char);
            }
            assert(seq![code_char(u as int)] + rest =~= v);
        } else {
            assert(s[i] == a[0]);
            assert(a[0] == c);
            assert(c != '"' && c != '\\');
            assert(seq![s[i]] + rest =~= v);
        }
    }
}

/// Hexadecimal digits evaluate back to their value.
proof fn lemma_hex_char_val(d: int)
    requires
        0 <= d <= 15,
    ensures
        is_hex(hex_char(d)),
        hex_val(hex_char(d)) == d,
{
    if d < 10 {
        lemma_digit_char_val(d);
    }
}

/// Exactly three fraction digits at position `i`: their value and the
/// position after them.
pub open spec fn spec_parse_frac3(s: Seq<char>, i: int) -> Option<(int, int)> {
    if 0 <= i && i + 3 <= s.len() && is_digit(s[i]) && is_digit(s[i + 1]) && is_digit(s[i + 2]) {
        Some((100 * digit_val(s[i]) + 10 * digit_val(s[i + 1]) + digit_val(s[i + 2]), i + 3))
    } else {
        None
    }
}

/// A number at position `i`: a fixed-point value when a fraction of
/// exactly three digits follows the point, else a plain count. A sign is
/// accepted only on a fixed-point value, and values outside the 64-bit
/// ranges are refused.
pub open spec fn spec_parse_number(s: Seq<char>, i: int) -> Option<(MetricValueView, int)> {
    if 0 <= i < s.len() && s[i] == '-' {
        match spec_parse_digits(s, i + 1) {
            Some((ip, j)) => if j < s.len() && s[j] == '.' {
                match spec_parse_frac3(s, j + 1) {
                    Some((fr, k)) => if ip * 1000 + fr <= 0x8000_0000_0000_0000 {
                        Some((MetricValueView::Fixed(0 - (ip * 1000 + fr)), k))
                    } else {
                        None
                    },
                    None => None,
                }
            } else {
                None
            },
            None => None,
        }
    } else {
        match spec_parse_digits(s, i) {
            Some((ip, j)) => if j < s.len() && s[j] == '.' {
                match spec_parse_frac3(s, j + 1) {
                    Some((fr, k)) => if ip * 1000 + fr <= 0x7fff_ffff_ffff_ffff {
                        Some((MetricValueView::Fixed(ip * 1000 + fr), k))
                    } else {
                        None
                    },
                    None => None,
                }
            } else if ip <= 0xffff_ffff_ffff_ffff {
                Some((MetricValueView::Count(ip), j))
            } else {
                None
            },
            None => None,
        }
    }
}

/// Reads three fraction digits.
pub fn parse_frac3(cs: &Vec<char>, i: usize) -> (r: Option<(u32, usize)>)
    requires
        i <= cs.len(),
    ensures
        match spec_parse_frac3(cs@, i as int) {
            Some((v, k)) => {
                &&& r is Some
                &&& (r->0).0 == v
                &&& (r->0).1 == k
                &&& i < k <= cs.len()
                &&& v <= 999
            },
            None => r is None,
        },
{
    if cs.len() - i >= 3 && is_digit_char(cs[i]) && is_digit_char(cs[i + 1]) && is_digit_char(
        cs[i + 2],
    ) {
        let d2 = char_to_digit(cs[i]);
        let d1 = char_to_digit(cs[i + 1]);
        let d0 = char_to_digit(cs[i + 2]);
        Some(((100 * d2 + 10 * d1 + d0) as u32, i + 3))
    } else {
        None
    }
}

/// Reads a number: a fixed-point value or a count.
pub fn parse_number(cs: &Vec<char>, i: usize) -> (r: Option<(MetricValue, usize)>)
    requires
        i <= cs.len(),
    ensures
        match spec_parse_number(cs@, i as int) {
            Some((v, k)) => {
                &&& r is Some
                &&& (r->0).0@ == v
                &&& (r->0).1 == k
                &&& i < k <= cs.len()
            },
            None => r is None,
        },
{
    if i < cs.len() && cs[i] == '-' {
        match parse_digits(cs, i + 1) {
            Some((ip, j)) => {
                if j < cs.len() && cs[j] == '.' {
                    match parse_frac3(cs, j + 1) {
                        Some((fr, k)) => {
                            let m: u128 = ip * 1000 + fr as u128;
                            if m <= 0x8000_0000_0000_0000 {
                                let x: i64 = if m == 0x8000_0000_0000_0000 {
                                    i64::MIN
                                } else {
                                    -((m as u64) as i64)
                                };
                                Some((MetricValue::Fixed(x), k))
                            } else {
                                None
                            }
                        },
                        None => None,
                    }
                } else {
                    None
                }
            },
            None => None,
        }
    } else {
        match parse_digits(cs, i) {
            Some((ip, j)) => {
                if j < cs.len() && cs[j] == '.' {
                    match parse_frac3(cs, j + 1) {
                        Some((fr, k)) => {
                            let m: u128 = ip * 1000 + fr as u128;
                            if m <= 0x7fff_ffff_ffff_ffff {
                                Some((MetricValue::Fixed((m as u64) as i64), k))
                            } else {
                                None
                            }
                        },
                        None => None,
                    }
                } else if ip <= 0xffff_ffff_ffff_ffff {
                    Some((MetricValue::Count(ip as u64), j))
                } else {
                    None
                }
            },
            None => None,
        }
    }
}

/// Textual form of one metrics value.
pub open spec fn enc_metric_value(v: MetricValueView) -> Seq<char> {
    match v {
        MetricValueView::Fixed(x) => milli_chars(x),
        MetricValueView::Count(n) => dec_chars(n as nat),
        MetricValueView::Text(t) => enc_string(t),
        MetricValueView::Truth(b) => if b {
            "true"@
        } else {
            "false"@
        },
    }
}

/// The value fits the 64-bit representation it is encoded from.
pub open spec fn wf_metric_value(v: MetricValueView) -> bool {
    match v {
        MetricValueView::Fixed(x) => -0x8000_0000_0000_0000 <= x <= 0x7fff_ffff_ffff_ffff,
        MetricValueView::Count(n) => 0 <= n <= 0xffff_ffff_ffff_ffff,
        MetricValueView::Text(_) => true,
        MetricValueView::Truth(_) => true,
    }
}

/// A metrics value at position `i`, told apart by its first character.
pub open spec fn spec_parse_metric_value(s: Seq<char>, i: int) -> Option<(MetricValueView, int)> {
    if i < 0 || i >= s.len() {
        None
    } else if s[i] == '"' {
        match spec_parse_string(s, i) {
            Some((t, k)) => Some((MetricValueView::Text(t), k)),
            None => None,
        }
    } else if s[i] == 't' {
        match spec_expect(s, i, "true"@) {
            Some(k) => Some((MetricValueView::Truth(true), k)),
            None => None,
        }
    } else if s[i] == 'f' {
        match spec_expect(s, i, "false"@) {
            Some(k) => Some((MetricValueView::Truth(false), k)),
            None => None,
        }
    } else {
        spec_parse_number(s, i)
    }
}

/// Appends the textual form of one metrics value.
pub fn push_metric_value(out: &mut Vec<char>, v: &MetricValue)
    ensures
        final(out)@ == old(out)@ + enc_metric_value(v@),
{
    match v {
        MetricValue::Fixed(x) => push_milli_chars(out, *x),
        MetricValue::Count(n) => push_dec_chars(out, *n),
        MetricValue::Text(t) => push_enc_string(out, t.as_str()),
        MetricValue::Truth(b) => {
            if *b {
                push_lit(out, "true");
            } else {
                push_lit(out, "false");
            }
        },
    }
}

/// Reads a metrics value.
pub fn parse_metric_value(cs: &Vec<char>, i: usize) -> (r: Option<(MetricValue, usize)>)
    requires
        i <= cs.len(),
    ensures
        match spec_parse_metric_value(cs@, i as int) {
            Some((v, k)) => {
                &&& r is Some
                &&& (r->0).0@ == v
                &&& (r->0).1 == k
                &&& i < k <= cs.len()
            },
            None => r is None,
        },
{
    if i >= cs.len() {
        return None;
    }
    let c = cs[i];
    if c == '"' {
        match parse_string(cs, i) {
            Some((t, k)) => Some((MetricValue::Text(chars_to_string(&t)), k)),
            None => None,
        }
    } else if c == 't' {
        let r = expect_lit(cs, i, "true");
        proof {
            reveal_strlit("true");
        }
        match r {
            Some(k) => Some((MetricValue::Truth(true), k)),
            None => None,
        }
    } else if c == 'f' {
        let r = expect_lit(cs, i, "false");
        proof {
            reveal_strlit("false");
        }
        match r {
            Some(k) => Some((MetricValue::Truth(false), k)),
            None => None,
        }
    } else {
        match parse_number(cs, i) {
            Some((v, k)) => Some((v, k)),
            None => None,
        }
    }
}

/// Index bookkeeping for one encoded piece `e` standing between a prefix
/// `a` and a suffix `b` of the text `s`.
proof fn lemma_piece_at(a: Seq<char>, e: Seq<char>, b: Seq<char>, s: Seq<char>)
    requires
        s == a + (e + b),
    ensures
        s.len() == a.len() + e.len() + b.len(),
        forall|t: int| 0 <= t < e.len() ==> s[a.len() + t] == #[trigger] e[t],
        forall|t: int| 0 <= t < b.len() ==> s[a.len() + e.len() + t] == #[trigger] b[t],
        s.subrange(a.len() as int, (a.len() + e.len()) as int) == e,
{
    assert(forall|t: int| 0 <= t < e.len() ==> s[a.len() + t] == #[trigger] e[t]);
    assert(forall|t: int| 0 <= t < b.len() ==> s[a.len() + e.len() + t] == #[trigger] b[t]);
    assert(s.subrange(a.len() as int, (a.len() + e.len()) as int) =~= e);
}

/// A literal parses where it was written.
pub proof fn lemma_expect_at(lit: Seq<char>, a: Seq<char>, b: Seq<char>, s: Seq<char>)
    requires
        s == a + (lit + b),
    ensures
        spec_expect(s, a.len() as int, lit) == Some((a.len() + lit.len()) as int),
{
    lemma_piece_at(a, lit, b, s);
}

/// An encoded string parses back to its content where it was written.
pub proof fn lemma_string_at(v: Seq<char>, a: Seq<char>, b: Seq<char>, s: Seq<char>)
    requires
        s == a + (enc_string(v) + b),
    ensures
        spec_parse_string(s, a.len() as int) == Some((v, (a.len() + enc_string(v).len()) as int)),
{
    lemma_piece_at(a, enc_string(v), b, s);
    lemma_parse_enc_string(v, s, a.len() as int);
}

/// A rendered count parses back to its value when no digit or point
/// follows it.
pub proof fn lemma_count_at(n: nat, a: Seq<char>, b: Seq<char>, s: Seq<char>)
    requires
        n < 0x1_0000_0000_0000_0000,
        s == a + (dec_chars(n) + b),
        b.len() == 0 || (!is_digit(b[0]) && b[0] != '.'),
    ensures
        spec_parse_number(s, a.len() as int) == Some(
            (MetricValueView::Count(n as int), (a.len() + dec_chars(n).len()) as int),
        ),
{
    let i = a.len() as int;
    let d = dec_chars(n);
    lemma_piece_at(a, d, b, s);
    lemma_dec_chars_val(n);
    assert(s[i] == d[0]);
    assert(is_digit(d[0]));
    assert(s[i] != '-');
    lemma_parse_dec_chars(s, i, n);
    let j = i + d.len();
    if j < s.len() {
        assert(s[j] == b[0]);
        assert(s[j] != '.');
    }
}

/// A rendered fixed-point value parses back to its value where it was
/// written; its three-digit fraction needs no delimiter.
pub proof fn lemma_milli_at(x: int, a: Seq<char>, b: Seq<char>, s: Seq<char>)
    requires
        -0x8000_0000_0000_0000 <= x <= 0x7fff_ffff_ffff_ffff,
        s == a + (milli_chars(x) + b),
    ensures
        spec_parse_number(s, a.len() as int) == Some(
            (MetricValueView::Fixed(x), (a.len() + milli_chars(x).len()) as int),
        ),
{
    let i = a.len() as int;
    let e = milli_chars(x);
    lemma_piece_at(a, e, b, s);
    let m = if x < 0 { -x } else { x };
    let sign: Seq<char> = if x < 0 { seq!['-'] } else { Seq::empty() };
    let ip = (m / 1000) as nat;
    let f = m % 1000;
    let d = dec_chars(ip);
    let fc = frac3_chars(f);
    assert(e == sign + d + seq!['.'] + fc);
    lemma_dec_chars_val(ip);
    let sl = sign.len() as int;
    // each sub-piece, by its offset in e
    assert(forall|t: int| 0 <= t < d.len() ==> e[sl + t] == #[trigger] d[t]);
    assert(forall|t: int| 0 <= t < 3 ==> e[sl + d.len() + 1 + t] == #[trigger] fc[t]);
    assert(e[sl + d.len()] == '.');
    assert(s.subrange(i + sl, i + sl + d.len()) =~= d) by {
        assert(forall|t: int| 0 <= t < d.len() ==> #[trigger] s.subrange(
            i + sl,
            i + sl + d.len(),
        )[t] == s[i + sl + t]);
    }
    assert(ip < 0x1_0000_0000_0000_0000);
    let j = i + sl + d.len();
    assert(s[j] == '.');
    assert(!is_digit('.'));
    lemma_parse_dec_chars(s, i + sl, ip);
    assert(spec_parse_digits(s, i + sl) == Some((ip as int, j)));
    // the three fraction digits
    lemma_digit_char_val(f / 100);
    lemma_digit_char_val((f / 10) % 10);
    lemma_digit_char_val(f % 10);
    assert(s[j + 1] == digit_char(f / 100));
    assert(s[j + 2] == digit_char((f / 10) % 10));
    assert(s[j + 3] == digit_char(f % 10));
    let fr = 100 * digit_val(s[j + 1]) + 10 * digit_val(s[j + 2]) + digit_val(s[j + 3]);
    assert(fr == 100 * (f / 100) + 10 * ((f / 10) % 10) + f % 10);
    assert(100 * (f / 100) + 10 * ((f / 10) % 10) + f % 10 == f) by (nonlinear_arith)
        requires
            0 <= f < 1000,
    ;
    assert(spec_parse_frac3(s, j + 1) == Some((f, j + 4)));
    assert(ip * 1000 + f == m);
    if x < 0 {
        assert(s[i] == '-');
        assert(m <= 0x8000_0000_0000_0000);
        assert(0 - (ip * 1000 + f) == x);
    } else {
        assert(is_digit(s[i]));
        assert(s[i] != '-');
        assert(m <= 0x7fff_ffff_ffff_ffff);
    }
    assert(j + 4 == i + e.len());
}

/// An encoded metrics value parses back to itself when a comma or a
/// closing brace follows it.
pub proof fn lemma_metric_value_at(
    v: MetricValueView,
    a: Seq<char>,
    b: Seq<char>,
    s: Seq<char>,
)
    requires
        wf_metric_value(v),
        s == a + (enc_metric_value(v) + b),
        b.len() > 0,
        b[0] == ',' || b[0] == '}',
    ensures
        spec_parse_metric_value(s, a.len() as int) == Some(
            (v, (a.len() + enc_metric_value(v).len()) as int),
        ),
{
    let i = a.len() as int;
    let e = enc_metric_value(v);
    lemma_piece_at(a, e, b, s);
    match v {
        MetricValueView::Text(t) => {
            assert(e == enc_string(t));
            assert(s[i] == e[0]);
            assert(e[0] == '"');
            lemma_string_at(t, a, b, s);
        },
        MetricValueView::Truth(tv) => {
            if tv {
                reveal_strlit("true");
                assert(s[i] == 't');
                lemma_expect_at("true"@, a, b, s);
            } else {
                reveal_strlit("false");
                assert(s[i] == 'f');
                lemma_expect_at("false"@, a, b, s);
            }
        },
        MetricValueView::Count(n) => {
            lemma_dec_chars_val(n as nat);
            assert(s[i] == e[0]);
            assert(is_digit(e[0]));
            lemma_count_at(n as nat, a, b, s);
        },
        MetricValueView::Fixed(x) => {
            let m = if x < 0 { -x } else { x };
            let sign: Seq<char> = if x < 0 { seq!['-'] } else { Seq::empty() };
            lemma_dec_chars_val((m / 1000) as nat);
            assert(s[i] == e[0]);
            if x < 0 {
                assert(e[0] == '-');
            } else {
                assert(e[0] == dec_chars((m / 1000) as nat)[0]);
                assert(is_digit(e[0]));
            }
            lemma_milli_at(x, a, b, s);
        },
    }
}

/// A parsed string body ends after its starting position and within the
/// text.
proof fn lemma_str_body_bounds(s: Seq<char>, i: int)
    ensures
        spec_parse_str_body(s, i) matches Some(r) ==> i < r.1 <= s.len(),
    decreases s.len() - i,
{
    if 0 <= i < s.len() {
        lemma_str_body_bounds(s, i + 1);
        if i + 2 <= s.len() {
            lemma_str_body_bounds(s, i + 2);
        }
        if i + 6 <= s.len() {
            lemma_str_body_bounds(s, i + 6);
        }
    }
}

/// A parsed string ends after its starting position and within the text.
proof fn lemma_string_bounds(s: Seq<char>, i: int)
    ensures
        spec_parse_string(s, i) matches Some(r) ==> i < r.1 <= s.len(),
{
    if 0 <= i < s.len() && s[i] == '"' {
        lemma_str_body_bounds(s, i + 1);
    }
}

/// A parsed digit run ends after its starting position and within the
/// text.
proof fn lemma_digits_bounds(s: Seq<char>, i: int)
    requires
        0 <= i <= s.len(),
    ensures
        spec_parse_digits(s, i) matches Some(r) ==> i < r.1 <= s.len(),
{
    lemma_digits_prefix_le_len(s.skip(i));
}

/// A parsed number ends after its starting position and within the text.
proof fn lemma_number_bounds(s: Seq<char>, i: int)
    requires
        0 <= i <= s.len(),
    ensures
        spec_parse_number(s, i) matches Some(r) ==> i < r.1 <= s.len(),
{
    lemma_digits_bounds(s, i);
    if 0 <= i < s.len() && s[i] == '-' {
        lemma_digits_bounds(s, i + 1);
    }
}

/// A parsed metrics value ends after its starting position and within the
/// text.
proof fn lemma_metric_value_bounds(s: Seq<char>, i: int)
    requires
        0 <= i <= s.len(),
    ensures
        spec_parse_metric_value(s, i) matches Some(r) ==> i < r.1 <= s.len(),
{
    lemma_string_bounds(s, i);
    lemma_number_bounds(s, i);
    reveal_strlit("true");
    reveal_strlit("false");
}

/// Textual form of one metrics entry: key, colon, value.
pub open spec fn enc_metric_entry(e: (Seq<char>, MetricValueView)) -> Seq<char> {
    enc_string(e.0) + seq![':'] + enc_metric_value(e.1)
}

/// Textual form of a metrics entry list, comma-separated.
pub open spec fn enc_metric_entries(m: Seq<(Seq<char>, MetricValueView)>) -> Seq<char>
    decreases m.len(),
{
    if m.len() == 0 {
        Seq::empty()
    } else if m.len() == 1 {
        enc_metric_entry(m[0])
    } else {
        enc_metric_entry(m[0]) + seq![','] + enc_metric_entries(m.drop_first())
    }
}

/// Textual form of a metrics payload: a braced object, keys in order.
pub open spec fn enc_metrics(m: Seq<(Seq<char>, MetricValueView)>) -> Seq<char> {
    seq!['{'] + enc_metric_entries(m) + seq!['}']
}

/// Every value of the payload fits its 64-bit representation.
pub open spec fn wf_metrics(m: Seq<(Seq<char>, MetricValueView)>) -> bool {
    forall|t: int| 0 <= t < m.len() ==> wf_metric_value((#[trigger] m[t]).1)
}

/// Appending one entry extends the encoded list, with a comma when the
/// list was not empty.
proof fn lemma_enc_entries_snoc(m: Seq<(Seq<char>, MetricValueView)>, e: (Seq<char>, MetricValueView))
    ensures
        enc_metric_entries(m.push(e)) == if m.len() == 0 {
            enc_metric_entry(e)
        } else {
            enc_metric_entries(m) + seq![','] + enc_metric_entries(seq![e])
        },
    decreases m.len(),
{
    let p = m.push(e);
    if m.len() == 0 {
        assert(p.len() == 1);
        assert(p[0] == e);
    } else {
        assert(p.len() >= 2);
        assert(p[0] == m[0]);
        assert(p.drop_first() =~= m.drop_first().push(e));
        lemma_enc_entries_snoc(m.drop_first(), e);
        assert(enc_metric_entries(seq![e]) == enc_metric_entry(e));
        if m.len() == 1 {
            assert(m.drop_first().len() == 0);
            assert(enc_metric_entries(p) == enc_metric_entry(m[0]) + seq![','] + enc_metric_entry(
                e,
            ));
            assert(enc_metric_entries(m) + seq![','] + enc_metric_entries(seq![e]) =~= enc_metric_entries(p));
        } else {
            assert(enc_metric_entries(m) + seq![','] + enc_metric_entries(seq![e])
                =~= enc_metric_entries(p));
        }
    }
}

/// Metrics entries from position `i`: the entry list and the position
/// after the closing brace, which this parser consumes.
pub open spec fn spec_parse_metric_entries(s: Seq<char>, i: int) -> Option<
    (Seq<(Seq<char>, MetricValueView)>, int),
>
    decreases s.len() - i,
    via spec_parse_metric_entries_decreases
{
    match spec_parse_string(s, i) {
        Some((key, j)) => if j < s.len() && s[j] == ':' {
            match spec_parse_metric_value(s, j + 1) {
                Some((v, k)) => if k < s.len() && s[k] == ',' {
                    match spec_parse_metric_entries(s, k + 1) {
                        Some((rest, l)) => Some((seq![(key, v)] + rest, l)),
                        None => None,
                    }
                } else if k < s.len() && s[k] == '}' {
                    Some((seq![(key, v)], k + 1))
                } else {
                    None
                },
                None => None,
            }
        } else {
            None
        },
        None => None,
    }
}

#[via_fn]
proof fn spec_parse_metric_entries_decreases(s: Seq<char>, i: int) {
    lemma_string_bounds(s, i);
    if let Some((key, j)) = spec_parse_string(s, i) {
        if j < s.len() && s[j] == ':' {
            lemma_metric_value_bounds(s, j + 1);
        }
    }
}

/// A metrics payload at position `i`: the entries and the position after
/// the closing brace.
pub open spec fn spec_parse_metrics(s: Seq<char>, i: int) -> Option<
    (Seq<(Seq<char>, MetricValueView)>, int),
> {
    if !(0 <= i < s.len() && s[i] == '{') {
        None
    } else if i + 1 < s.len() && s[i + 1] == '}' {
        Some((Seq::empty(), i + 2))
    } else {
        spec_parse_metric_entries(s, i + 1)
    }
}

/// An encoded metrics payload parses back to its entries where it was
/// written.
pub proof fn lemma_metrics_at(
    m: Seq<(Seq<char>, MetricValueView)>,
    a: Seq<char>,
    b: Seq<char>,
    s: Seq<char>,
)
    requires
        wf_metrics(m),
        s == a + (enc_metrics(m) + b),
    ensures
        spec_parse_metrics(s, a.len() as int) == Some(
            (m, (a.len() + enc_metrics(m).len()) as int),
        ),
{
    let i = a.len() as int;
    let e = enc_metrics(m);
    lemma_piece_at(a, e, b, s);
    assert(e[0] == '{');
    assert(s[i] == '{');
    if m.len() == 0 {
        assert(e =~= seq!['{', '}']);
        assert(s[i + 1] == '}');
    } else {
        let inner = enc_metric_entries(m);
        assert(inner[0] == enc_metric_entry(m[0])[0]);
        assert(enc_metric_entry(m[0])[0] == '"');
        assert(e[1] == inner[0]);
        assert(s[i + 1] == '"');
        assert(s =~= (a + seq!['{']) + (enc_metric_entries(m) + (seq!['}'] + b)));
        lemma_entries_at(m, a + seq!['{'], b, s);
    }
}

/// Concatenation of character sequences is associative.
proof fn lemma_seq_assoc(x: Seq<char>, y: Seq<char>, z: Seq<char>)
    ensures
        (x + y) + z == x + (y + z),
{
    assert((x + y) + z =~= x + (y + z));
}

/// An encoded, non-empty entry list followed by a closing brace parses
/// back to its entries.
#[verifier::rlimit(60)]
proof fn lemma_entries_at(
    m: Seq<(Seq<char>, MetricValueView)>,
    a: Seq<char>,
    b: Seq<char>,
    s: Seq<char>,
)
    requires
        m.len() >= 1,
        wf_metrics(m),
        s == a + (enc_metric_entries(m) + (seq!['}'] + b)),
    ensures
        spec_parse_metric_entries(s, a.len() as int) == Some(
            (m, (a.len() + enc_metric_entries(m).len() + 1) as int),
        ),
    decreases m.len(),
{
    let i = a.len() as int;
    let key = m[0].0;
    let v = m[0].1;
    assert(wf_metric_value(v));
    assert(m[0] == (key, v));
    let ek = enc_string(key);
    let co: Seq<char> = seq![':'];
    let ev = enc_metric_value(v);
    let t0 = seq!['}'] + b;
    if m.len() == 1 {
        assert(enc_metric_entries(m) == (ek + co) + ev);
        lemma_seq_assoc(ek + co, ev, t0);
        lemma_seq_assoc(ek, co, ev + t0);
        assert(s == a + (ek + (co + (ev + t0))));
        lemma_string_at(key, a, co + (ev + t0), s);
        let j = i + ek.len();
        lemma_seq_assoc(a, ek, co + (ev + t0));
        let a1 = a + ek;
        lemma_piece_at(a1, co, ev + t0, s);
        assert(s[j] == ':');
        lemma_seq_assoc(a1, co, ev + t0);
        let a2 = a1 + co;
        lemma_metric_value_at(v, a2, t0, s);
        lemma_piece_at(a2, ev, t0, s);
        let k = j + 1 + ev.len();
        assert(s[k] == '}');
        assert(seq![(key, v)] =~= m);
        assert(k + 1 == i + enc_metric_entries(m).len() + 1);
    } else {
        let rest = m.drop_first();
        assert(forall|t: int| 0 <= t < rest.len() ==> #[trigger] rest[t] == m[t + 1]);
        let er = enc_metric_entries(rest);
        let cm: Seq<char> = seq![','];
        let entry = enc_metric_entry(m[0]);
        assert(entry == (ek + co) + ev);
        assert(enc_metric_entries(m) == (entry + cm) + er);
        lemma_seq_assoc(entry + cm, er, t0);
        lemma_seq_assoc(entry, cm, er + t0);
        let t1 = cm + (er + t0);
        lemma_seq_assoc(ek + co, ev, t1);
        lemma_seq_assoc(ek, co, ev + t1);
        assert(s == a + (ek + (co + (ev + t1))));
        lemma_string_at(key, a, co + (ev + t1), s);
        let j = i + ek.len();
        lemma_seq_assoc(a, ek, co + (ev + t1));
        let a1 = a + ek;
        lemma_piece_at(a1, co, ev + t1, s);
        assert(s[j] == ':');
        lemma_seq_assoc(a1, co, ev + t1);
        let a2 = a1 + co;
        assert(t1[0] == ',');
        lemma_metric_value_at(v, a2, t1, s);
        lemma_piece_at(a2, ev, t1, s);
        let k = j + 1 + ev.len();
        assert(s[k] == ',');
        lemma_seq_assoc(a2, ev, t1);
        let a3 = a2 + ev;
        lemma_piece_at(a3, cm, er + t0, s);
        lemma_seq_assoc(a3, cm, er + t0);
        let a4 = a3 + cm;
        assert(s == a4 + (er + (seq!['}'] + b)));
        lemma_entries_at(rest, a4, b, s);
        assert(spec_parse_metric_entries(s, k + 1) == Some(
            (rest, (a4.len() + er.len() + 1) as int),
        ));
        assert(seq![(key, v)] + rest =~= m);
        assert(a4.len() + er.len() + 1 == i + enc_metric_entries(m).len() + 1);
    }
}

/// Appends the textual form of a metrics payload.
pub fn push_metrics(out: &mut Vec<char>, m: &Vec<(String, MetricValue)>)
    ensures
        final(out)@ == old(out)@ + enc_metrics(metrics_view(m@)),
{
    let ghost mv = metrics_view(m@);
    out.push('{');
    let mut j: usize = 0;
    while j < m.len()
        invariant
            j <= m.len(),
            mv == metrics_view(m@),
            mv.len() == m@.len(),
            out@ == old(out)@ + seq!['{'] + enc_metric_entries(mv.take(j as int)),
        decreases m.len() - j,
    {
        proof {
            assert(mv[j as int] == (m@[j as int].0@, m@[j as int].1@));
            assert(mv.take(j + 1) =~= mv.take(j as int).push(mv[j as int]));
            lemma_enc_entries_snoc(mv.take(j as int), mv[j as int]);
            assert(enc_metric_entries(seq![mv[j as int]]) == enc_metric_entry(mv[j as int]));
        }
        if j > 0 {
            out.push(',');
        }
        let pair = &m[j];
        push_enc_string(out, pair.0.as_str());
        out.push(':');
        push_metric_value(out, &pair.1);
        proof {
            assert(out@ =~= old(out)@ + seq!['{'] + enc_metric_entries(mv.take(j + 1)));
        }
        j = j + 1;
    }
    out.push('}');
    proof {
        assert(mv.take(mv.len() as int) =~= mv);
        assert(final(out)@ =~= old(out)@ + enc_metrics(mv));
    }
}

/// Reads metrics entries up to and including the closing brace,
/// appending the parsed entries.
fn parse_metric_entries(
    cs: &Vec<char>,
    i: usize,
    out: &mut Vec<(String, MetricValue)>,
) -> (r: Option<usize>)
    requires
        i <= cs.len(),
    ensures
        match spec_parse_metric_entries(cs@, i as int) {
            Some((m, k)) => {
                &&& r is Some
                &&& r->0 == k
                &&& i < k <= cs.len()
                &&& metrics_view(final(out)@) == metrics_view(old(out)@) + m
            },
            None => r is None,
        },
    decreases cs.len() - i,
{
    match parse_string(cs, i) {
        None => None,
        Some((kv, j)) => {
            if j < cs.len() && cs[j] == ':' {
                match parse_metric_value(cs, j + 1) {
                    None => None,
                    Some((v, k)) => {
                        let key = chars_to_string(&kv);
                        if k < cs.len() && cs[k] == ',' {
                            let ghost entry_view = (key@, v@);
                            out.push((key, v));
                            proof {
                                assert(metrics_view(out@) =~= metrics_view(old(out)@).push(
                                    entry_view,
                                ));
                            }
                            let r = parse_metric_entries(cs, k + 1, out);
                            proof {
                                if let Some((m, l)) = spec_parse_metric_entries(
                                    cs@,
                                    k + 1,
                                ) {
                                    assert(metrics_view(final(out)@) =~= metrics_view(old(out)@)
                                        + (seq![entry_view] + m));
                                }
                            }
                            r
                        } else if k < cs.len() && cs[k] == '}' {
                            let ghost entry_view = (key@, v@);
                            out.push((key, v));
                            proof {
                                assert(metrics_view(final(out)@) =~= metrics_view(old(out)@)
                                    + seq![entry_view]);
                            }
                            Some(k + 1)
                        } else {
                            None
                        }
                    },
                }
            } else {
                None
            }
        },
    }
}

/// Reads a metrics payload.
pub fn parse_metrics(cs: &Vec<char>, i: usize) -> (r: Option<(Vec<(String, MetricValue)>, usize)>)
    requires
        i <= cs.len(),
    ensures
        match spec_parse_metrics(cs@, i as int) {
            Some((m, k)) => {
                &&& r is Some
                &&& metrics_view((r->0).0@) == m
                &&& (r->0).1 == k
                &&& i < k <= cs.len()
            },
            None => r is None,
        },
{
    if i < cs.len() && cs[i] == '{' {
        if cs.len() - i > 1 && cs[i + 1] == '}' {
            let empty: Vec<(String, MetricValue)> = Vec::new();
            proof {
                assert(metrics_view(empty@) =~= Seq::<(Seq<char>, MetricValueView)>::empty());
            }
            Some((empty, i + 2))
        } else {
            let mut out: Vec<(String, MetricValue)> = Vec::new();
            match parse_metric_entries(cs, i + 1, &mut out) {
                Some(k) => {
                    proof {
                        if let Some((m, l)) = spec_parse_metric_entries(cs@, i + 1) {
                            assert(metrics_view(out@) =~= m);
                        }
                    }
                    Some((out, k))
                },
                None => None,
            }
        }
    } else {
        None
    }
}

/// Name of a severity, as persisted.
pub open spec fn severity_name(v: Severity) -> Seq<char> {
    match v {
        Severity::Low => "Low"@,
        Severity::Medium => "Medium"@,
        Severity::High => "High"@,
        Severity::Critical => "Critical"@,
    }
}

/// Name of a severity, as persisted.
pub fn severity_str(v: Severity) -> (r: &'static str)
    ensures
        r@ == severity_name(v),
{
    match v {
        Severity::Low => "Low",
        Severity::Medium => "Medium",
        Severity::High => "High",
        Severity::Critical => "Critical",
    }
}

/// The severity of a name; `None` for any other text.
pub open spec fn spec_severity_of_name(t: Seq<char>) -> Option<Severity> {
    if t == "Low"@ {
        Some(Severity::Low)
    } else if t == "Medium"@ {
        Some(Severity::Medium)
    } else if t == "High"@ {
        Some(Severity::High)
    } else if t == "Critical"@ {
        Some(Severity::Critical)
    } else {
        None
    }
}

/// Name of a flag category, as persisted.
pub open spec fn flag_type_name(v: FlagType) -> Seq<char> {
    match v {
        FlagType::SystemAnomaly => "SystemAnomaly"@,
        FlagType::BehaviorAnomaly => "BehaviorAnomaly"@,
        FlagType::PerformanceIssue => "PerformanceIssue"@,
        FlagType::SecurityConcern => "SecurityConcern"@,
        FlagType::HealthConcern => "HealthConcern"@,
        FlagType::ProductivityAlert => "ProductivityAlert"@,
    }
}

/// Name of a flag category, as persisted.
pub fn flag_type_str(v: FlagType) -> (r: &'static str)
    ensures
        r@ == flag_type_name(v),
{
    match v {
        FlagType::SystemAnomaly => "SystemAnomaly",
        FlagType::BehaviorAnomaly => "BehaviorAnomaly",
        FlagType::PerformanceIssue => "PerformanceIssue",
        FlagType::SecurityConcern => "SecurityConcern",
        FlagType::HealthConcern => "HealthConcern",
        FlagType::ProductivityAlert => "ProductivityAlert",
    }
}

/// The flag category of a name; `None` for any other text.
pub open spec fn spec_flag_type_of_name(t: Seq<char>) -> Option<FlagType> {
    if t == "SystemAnomaly"@ {
        Some(FlagType::SystemAnomaly)
    } else if t == "BehaviorAnomaly"@ {
        Some(FlagType::BehaviorAnomaly)
    } else if t == "PerformanceIssue"@ {
        Some(FlagType::PerformanceIssue)
    } else if t == "SecurityConcern"@ {
        Some(FlagType::SecurityConcern)
    } else if t == "HealthConcern"@ {
        Some(FlagType::HealthConcern)
    } else if t == "ProductivityAlert"@ {
        Some(FlagType::ProductivityAlert)
    } else {
        None
    }
}

/// Compares parsed characters with a literal.
fn chars_eq_lit(v: &Vec<char>, lit: &str) -> (r: bool)
    ensures
        r == (v@ == lit@),
{
    let lv = str_to_chars(lit);
    if v.len() != lv.len() {
        proof {
            assert(v@.len() != lit@.len());
        }
        return false;
    }
    let mut j: usize = 0;
    while j < lv.len()
        invariant
            j <= lv.len(),
            lv@ == lit@,
            v@.len() == lv@.len(),
            forall|t: int| 0 <= t < j ==> v@[t] == lit@[t],
        decreases lv.len() - j,
    {
        if v[j] != lv[j] {
            return false;
        }
        j = j + 1;
    }
    proof {
        assert(v@ =~= lit@);
    }
    true
}

/// Decides equality of two strings by their characters.
pub fn str_equal(a: &str, b: &str) -> (r: bool)
    ensures
        r == (a@ == b@),
{
    let av = str_to_chars(a);
    chars_eq_lit(&av, b)
}

/// The severity named by parsed characters.
pub fn severity_of_chars(v: &Vec<char>) -> (r: Option<Severity>)
    ensures
        r == spec_severity_of_name(v@),
{
    if chars_eq_lit(v, "Low") {
        Some(Severity::Low)
    } else if chars_eq_lit(v, "Medium") {
        Some(Severity::Medium)
    } else if chars_eq_lit(v, "High") {
        Some(Severity::High)
    } else if chars_eq_lit(v, "Critical") {
        Some(Severity::Critical)
    } else {
        None
    }
}

/// The flag category named by parsed characters.
pub fn flag_type_of_chars(v: &Vec<char>) -> (r: Option<FlagType>)
    ensures
        r == spec_flag_type_of_name(v@),
{
    if chars_eq_lit(v, "SystemAnomaly") {
        Some(FlagType::SystemAnomaly)
    } else if chars_eq_lit(v, "BehaviorAnomaly") {
        Some(FlagType::BehaviorAnomaly)
    } else if chars_eq_lit(v, "PerformanceIssue") {
        Some(FlagType::PerformanceIssue)
    } else if chars_eq_lit(v, "SecurityConcern") {
        Some(FlagType::SecurityConcern)
    } else if chars_eq_lit(v, "HealthConcern") {
        Some(FlagType::HealthConcern)
    } else if chars_eq_lit(v, "ProductivityAlert") {
        Some(FlagType::ProductivityAlert)
    } else {
        None
    }
}

/// A severity's persisted name always names it back.
pub proof fn lemma_severity_name_inverse(v: Severity)
    ensures
        spec_severity_of_name(severity_name(v)) == Some(v),
{
    reveal_strlit("Low");
    reveal_strlit("Medium");
    reveal_strlit("High");
    reveal_strlit("Critical");
    assert("Low"@.len() == 3);
    assert("Medium"@.len() == 6);
    assert("High"@.len() == 4);
    assert("Critical"@.len() == 8);
}

/// A flag category's persisted name always names it back.
pub proof fn lemma_flag_type_name_inverse(v: FlagType)
    ensures
        spec_flag_type_of_name(flag_type_name(v)) == Some(v),
{
    reveal_strlit("SystemAnomaly");
    reveal_strlit("BehaviorAnomaly");
    reveal_strlit("PerformanceIssue");
    reveal_strlit("SecurityConcern");
    reveal_strlit("HealthConcern");
    reveal_strlit("ProductivityAlert");
    assert("SystemAnomaly"@.len() == 13);
    assert("BehaviorAnomaly"@.len() == 15);
    assert("PerformanceIssue"@.len() == 16);
    assert("SecurityConcern"@.len() == 15);
    assert("HealthConcern"@.len() == 13);
    assert("ProductivityAlert"@.len() == 17);
    match v {
        FlagType::HealthConcern => {
            assert("SystemAnomaly"@[0] != "HealthConcern"@[0]);
        },
        FlagType::SecurityConcern => {
            assert("BehaviorAnomaly"@[0] != "SecurityConcern"@[0]);
        },
        _ => {},
    }
}

/// Textual form of the identity fields of a flag artifact.
pub open spec fn enc_flag_idents(id: Seq<char>, ts: Seq<char>, sid: Seq<char>) -> Seq<char> {
    "{\"id\":"@ + enc_string(id) + ",\"timestamp\":"@ + enc_string(ts) + ",\"session_id\":"@
        + enc_string(sid)
}

/// Textual form of the category and severity of a flag artifact.
pub open spec fn enc_flag_kind(t: FlagType, v: Severity) -> Seq<char> {
    ",\"flag_type\":{\"type\":"@ + enc_string(flag_type_name(t)) + "},\"severity\":"@
        + enc_string(severity_name(v))
}

/// Textual form of the free-text fields of a flag artifact.
pub open spec fn enc_flag_texts(title: Seq<char>, desc: Seq<char>, ds: Seq<char>) -> Seq<char> {
    ",\"title\":"@ + enc_string(title) + ",\"description\":"@ + enc_string(desc)
        + ",\"data_source\":"@ + enc_string(ds)
}

/// Textual form of the metrics and confidence of a flag artifact.
pub open spec fn enc_flag_tail(m: Seq<(Seq<char>, MetricValueView)>, c: int) -> Seq<char> {
    ",\"metrics\":"@ + enc_metrics(m) + ",\"confidence\":"@ + milli_chars(c) + "}"@
}

/// Textual form of a whole flag artifact: one JSON object with a fixed
/// key order.
pub open spec fn enc_flag(f: FlagView) -> Seq<char> {
    enc_flag_idents(f.id, f.timestamp, f.session_id) + enc_flag_kind(f.flag_type, f.severity)
        + enc_flag_texts(f.title, f.description, f.data_source) + enc_flag_tail(
        f.metrics,
        f.confidence,
    )
}

/// A flag whose artifact parses back exactly: its confidence counts
/// thousandths of the unit interval and its payload values fit their
/// 64-bit representations.
pub open spec fn flag_codec_wf(f: FlagView) -> bool {
    &&& 0 <= f.confidence <= 1000
    &&& wf_metrics(f.metrics)
}

/// The identity fields of a flag artifact at position `i`.
pub open spec fn spec_parse_flag_idents(s: Seq<char>, i: int) -> Option<
    ((Seq<char>, Seq<char>, Seq<char>), int),
> {
    match spec_expect(s, i, "{\"id\":"@) {
        None => None,
        Some(p1) => match spec_parse_string(s, p1) {
            None => None,
            Some((id, p2)) => match spec_expect(s, p2, ",\"timestamp\":"@) {
                None => None,
                Some(p3) => match spec_parse_string(s, p3) {
                    None => None,
                    Some((ts, p4)) => match spec_expect(s, p4, ",\"session_id\":"@) {
                        None => None,
                        Some(p5) => match spec_parse_string(s, p5) {
                            None => None,
                            Some((sid, p6)) => Some(((id, ts, sid), p6)),
                        },
                    },
                },
            },
        },
    }
}

/// The category and severity of a flag artifact at position `i`.
pub open spec fn spec_parse_flag_kind(s: Seq<char>, i: int) -> Option<((FlagType, Severity), int)> {
    match spec_expect(s, i, ",\"flag_type\":{\"type\":"@) {
        None => None,
        Some(p1) => match spec_parse_string(s, p1) {
            None => None,
            Some((tn, p2)) => match spec_flag_type_of_name(tn) {
                None => None,
                Some(t) => match spec_expect(s, p2, "},\"severity\":"@) {
                    None => None,
                    Some(p3) => match spec_parse_string(s, p3) {
                        None => None,
                        Some((vn, p4)) => match spec_severity_of_name(vn) {
                            None => None,
                            Some(v) => Some(((t, v), p4)),
                        },
                    },
                },
            },
        },
    }
}

/// The free-text fields of a flag artifact at position `i`.
pub open spec fn spec_parse_flag_texts(s: Seq<char>, i: int) -> Option<
    ((Seq<char>, Seq<char>, Seq<char>), int),
> {
    match spec_expect(s, i, ",\"title\":"@) {
        None => None,
        Some(p1) => match spec_parse_string(s, p1) {
            None => None,
            Some((title, p2)) => match spec_expect(s, p2, ",\"description\":"@) {
                None => None,
                Some(p3) => match spec_parse_string(s, p3) {
                    None => None,
                    Some((desc, p4)) => match spec_expect(s, p4, ",\"data_source\":"@) {
                        None => None,
                        Some(p5) => match spec_parse_string(s, p5) {
                            None => None,
                            Some((ds, p6)) => Some(((title, desc, ds), p6)),
                        },
                    },
                },
            },
        },
    }
}

/// The metrics and confidence of a flag artifact at position `i`,
/// including the closing brace of the object.
pub open spec fn spec_parse_flag_tail(s: Seq<char>, i: int) -> Option<
    ((Seq<(Seq<char>, MetricValueView)>, int), int),
> {
    match spec_expect(s, i, ",\"metrics\":"@) {
        None => None,
        Some(p1) => match spec_parse_metrics(s, p1) {
            None => None,
            Some((m, p2)) => match spec_expect(s, p2, ",\"confidence\":"@) {
                None => None,
                Some(p3) => match spec_parse_number(s, p3) {
                    None => None,
                    Some((v, p4)) => match v {
                        MetricValueView::Fixed(c) => if 0 <= c <= 1000 {
                            match spec_expect(s, p4, "}"@) {
                                None => None,
                                Some(p5) => Some(((m, c), p5)),
                            }
                        } else {
                            None
                        },
                        _ => None,
                    },
                },
            },
        },
    }
}

/// A whole flag artifact at position `i`: the flag and the position
/// after the object.
pub open spec fn spec_parse_flag(s: Seq<char>, i: int) -> Option<(FlagView, int)> {
    match spec_parse_flag_idents(s, i) {
        None => None,
        Some(((id, ts, sid), p1)) => match spec_parse_flag_kind(s, p1) {
            None => None,
            Some(((t, v), p2)) => match spec_parse_flag_texts(s, p2) {
                None => None,
                Some(((title, desc, ds), p3)) => match spec_parse_flag_tail(s, p3) {
                    None => None,
                    Some(((m, c), p4)) => Some(
                        (
                            FlagView {
                                id: id,
                                timestamp: ts,
                                session_id: sid,
                                flag_type: t,
                                severity: v,
                                title: title,
                                description: desc,
                                data_source: ds,
                                metrics: m,
                                confidence: c,
                            },
                            p4,
                        ),
                    ),
                },
            },
        },
    }
}

/// A flag from a whole artifact text: the object with nothing after it.
pub open spec fn spec_flag_of_text(s: Seq<char>) -> Option<FlagView> {
    match spec_parse_flag(s, 0) {
        Some((f, k)) => if k == s.len() {
            Some(f)
        } else {
            None
        },
        None => None,
    }
}

/// Writes the artifact text of a flag.
pub fn encode_flag(f: &Flag) -> (r: String)
    ensures
        r@ == enc_flag(f@),
{
    let mut out: Vec<char> = Vec::new();
    push_lit(&mut out, "{\"id\":");
    push_enc_string(&mut out, f.id.as_str());
    push_lit(&mut out, ",\"timestamp\":");
    push_enc_string(&mut out, f.timestamp.as_str());
    push_lit(&mut out, ",\"session_id\":");
    push_enc_string(&mut out, f.session_id.as_str());
    push_lit(&mut out, ",\"flag_type\":{\"type\":");
    push_enc_string(&mut out, flag_type_str(f.flag_type));
    push_lit(&mut out, "},\"severity\":");
    push_enc_string(&mut out, severity_str(f.severity));
    push_lit(&mut out, ",\"title\":");
    push_enc_string(&mut out, f.title.as_str());
    push_lit(&mut out, ",\"description\":");
    push_enc_string(&mut out, f.description.as_str());
    push_lit(&mut out, ",\"data_source\":");
    push_enc_string(&mut out, f.data_source.as_str());
    push_lit(&mut out, ",\"metrics\":");
    push_metrics(&mut out, &f.metrics);
    push_lit(&mut out, ",\"confidence\":");
    push_milli_chars(&mut out, f.confidence as i64);
    push_lit(&mut out, "}");
    proof {
        assert(out@ =~= enc_flag(f@));
    }
    chars_to_string(&out)
}

/// Reads the identity fields of a flag artifact.
fn parse_flag_idents(cs: &Vec<char>, i: usize) -> (r: Option<((String, String, String), usize)>)
    requires
        i <= cs.len(),
    ensures
        match spec_parse_flag_idents(cs@, i as int) {
            Some(((id, ts, sid), k)) => {
                &&& r is Some
                &&& ((r->0).0).0@ == id
                &&& ((r->0).0).1@ == ts
                &&& ((r->0).0).2@ == sid
                &&& (r->0).1 == k
                &&& i <= k <= cs.len()
            },
            None => r is None,
        },
{
    let p1 = match expect_lit(cs, i, "{\"id\":") {
        Some(p) => p,
        None => {
            return None;
        },
    };
    let (id, p2) = match parse_string(cs, p1) {
        Some(x) => x,
        None => {
            return None;
        },
    };
    let p3 = match expect_lit(cs, p2, ",\"timestamp\":") {
        Some(p) => p,
        None => {
            return None;
        },
    };
    let (ts, p4) = match parse_string(cs, p3) {
        Some(x) => x,
        None => {
            return None;
        },
    };
    let p5 = match expect_lit(cs, p4, ",\"session_id\":") {
        Some(p) => p,
        None => {
            return None;
        },
    };
    let (sid, p6) = match parse_string(cs, p5) {
        Some(x) => x,
        None => {
            return None;
        },
    };
    Some(((chars_to_string(&id), chars_to_string(&ts), chars_to_string(&sid)), p6))
}

/// Reads the category and severity of a flag artifact.
fn parse_flag_kind(cs: &Vec<char>, i: usize) -> (r: Option<((FlagType, Severity), usize)>)
    requires
        i <= cs.len(),
    ensures
        match spec_parse_flag_kind(cs@, i as int) {
            Some(((t, v), k)) => {
                &&& r is Some
                &&& ((r->0).0).0 == t
                &&& ((r->0).0).1 == v
                &&& (r->0).1 == k
                &&& i <= k <= cs.len()
            },
            None => r is None,
        },
{
    let p1 = match expect_lit(cs, i, ",\"flag_type\":{\"type\":") {
        Some(p) => p,
        None => {
            return None;
        },
    };
    let (tn, p2) = match parse_string(cs, p1) {
        Some(x) => x,
        None => {
            return None;
        },
    };
    let t = match flag_type_of_chars(&tn) {
        Some(t) => t,
        None => {
            return None;
        },
    };
    let p3 = match expect_lit(cs, p2, "},\"severity\":") {
        Some(p) => p,
        None => {
            return None;
        },
    };
    let (vn, p4) = match parse_string(cs, p3) {
        Some(x) => x,
        None => {
            return None;
        },
    };
    let v = match severity_of_chars(&vn) {
        Some(v) => v,
        None => {
            return None;
        },
    };
    Some(((t, v), p4))
}

/// Reads the free-text fields of a flag artifact.
fn parse_flag_texts(cs: &Vec<char>, i: usize) -> (r: Option<((String, String, String), usize)>)
    requires
        i <= cs.len(),
    ensures
        match spec_parse_flag_texts(cs@, i as int) {
            Some(((title, desc, ds), k)) => {
                &&& r is Some
                &&& ((r->0).0).0@ == title
                &&& ((r->0).0).1@ == desc
                &&& ((r->0).0).2@ == ds
                &&& (r->0).1 == k
                &&& i <= k <= cs.len()
            },
            None => r is None,
        },
{
    let p1 = match expect_lit(cs, i, ",\"title\":") {
        Some(p) => p,
        None => {
            return None;
        },
    };
    let (title, p2) = match parse_string(cs, p1) {
        Some(x) => x,
        None => {
            return None;
        },
    };
    let p3 = match expect_lit(cs, p2, ",\"description\":") {
        Some(p) => p,
        None => {
            return None;
        },
    };
    let (desc, p4) = match parse_string(cs, p3) {
        Some(x) => x,
        None => {
            return None;
        },
    };
    let p5 = match expect_lit(cs, p4, ",\"data_source\":") {
        Some(p) => p,
        None => {
            return None;
        },
    };
    let (ds, p6) = match parse_string(cs, p5) {
        Some(x) => x,
        None => {
            return None;
        },
    };
    Some(((chars_to_string(&title), chars_to_string(&desc), chars_to_string(&ds)), p6))
}

/// Reads the metrics and confidence of a flag artifact, including the
/// closing brace.
fn parse_flag_tail(cs: &Vec<char>, i: usize) -> (r: Option<
    ((Vec<(String, MetricValue)>, u32), usize),
>)
    requires
        i <= cs.len(),
    ensures
        match spec_parse_flag_tail(cs@, i as int) {
            Some(((m, c), k)) => {
                &&& r is Some
                &&& metrics_view((((r->0).0).0)@) == m
                &&& (((r->0).0).1) as int == c
                &&& (r->0).1 == k
                &&& i <= k <= cs.len()
            },
            None => r is None,
        },
{
    let p1 = match expect_lit(cs, i, ",\"metrics\":") {
        Some(p) => p,
        None => {
            return None;
        },
    };
    let (m, p2) = match parse_metrics(cs, p1) {
        Some(x) => x,
        None => {
            return None;
        },
    };
    let p3 = match expect_lit(cs, p2, ",\"confidence\":") {
        Some(p) => p,
        None => {
            return None;
        },
    };
    let (v, p4) = match parse_number(cs, p3) {
        Some(x) => x,
        None => {
            return None;
        },
    };
    let c: u32 = match v {
        MetricValue::Fixed(x) => {
            if 0 <= x && x <= 1000 {
                x as u32
            } else {
                return None;
            }
        },
        _ => {
            return None;
        },
    };
    let p5 = match expect_lit(cs, p4, "}") {
        Some(p) => p,
        None => {
            return None;
        },
    };
    Some(((m, c), p5))
}

/// Reads a whole flag artifact at position `i`.
pub fn parse_flag_chars(cs: &Vec<char>, i: usize) -> (r: Option<(Flag, usize)>)
    requires
        i <= cs.len(),
    ensures
        match spec_parse_flag(cs@, i as int) {
            Some((fv, k)) => {
                &&& r is Some
                &&& (r->0).0@ == fv
                &&& (r->0).1 == k
                &&& i <= k <= cs.len()
            },
            None => r is None,
        },
{
    let (ids, p1) = match parse_flag_idents(cs, i) {
        Some(x) => x,
        None => {
            return None;
        },
    };
    let (kind, p2) = match parse_flag_kind(cs, p1) {
        Some(x) => x,
        None => {
            return None;
        },
    };
    let (texts, p3) = match parse_flag_texts(cs, p2) {
        Some(x) => x,
        None => {
            return None;
        },
    };
    let (tail, p4) = match parse_flag_tail(cs, p3) {
        Some(x) => x,
        None => {
            return None;
        },
    };
    let (id, ts, sid) = ids;
    let (t, v) = kind;
    let (title, desc, ds) = texts;
    let (m, c) = tail;
    Some(
        (
            Flag {
                id: id,
                timestamp: ts,
                session_id: sid,
                flag_type: t,
                severity: v,
                title: title,
                description: desc,
                data_source: ds,
                metrics: m,
                confidence: c,
            },
            p4,
        ),
    )
}

/// Encoded identity fields parse back to themselves where they were
/// written.
proof fn lemma_idents_at(
    id: Seq<char>,
    ts: Seq<char>,
    sid: Seq<char>,
    a: Seq<char>,
    b: Seq<char>,
    s: Seq<char>,
)
    requires
        s == a + (enc_flag_idents(id, ts, sid) + b),
    ensures
        spec_parse_flag_idents(s, a.len() as int) == Some(
            ((id, ts, sid), (a.len() + enc_flag_idents(id, ts, sid).len()) as int),
        ),
{
    let l1 = "{\"id\":"@;
    let e1 = enc_string(id);
    let l2 = ",\"timestamp\":"@;
    let e2 = enc_string(ts);
    let l3 = ",\"session_id\":"@;
    let e3 = enc_string(sid);
    let ec = enc_flag_idents(id, ts, sid);
    assert(ec == ((((l1 + e1) + l2) + e2) + l3) + e3);
    lemma_seq_assoc((((l1 + e1) + l2) + e2) + l3, e3, b);
    lemma_seq_assoc(((l1 + e1) + l2) + e2, l3, e3 + b);
    lemma_seq_assoc((l1 + e1) + l2, e2, l3 + (e3 + b));
    lemma_seq_assoc(l1 + e1, l2, e2 + (l3 + (e3 + b)));
    lemma_seq_assoc(l1, e1, l2 + (e2 + (l3 + (e3 + b))));
    assert(s == a + (l1 + (e1 + (l2 + (e2 + (l3 + (e3 + b)))))));
    lemma_expect_at(l1, a, e1 + (l2 + (e2 + (l3 + (e3 + b)))), s);
    lemma_seq_assoc(a, l1, e1 + (l2 + (e2 + (l3 + (e3 + b)))));
    let a1 = a + l1;
    lemma_string_at(id, a1, l2 + (e2 + (l3 + (e3 + b))), s);
    lemma_seq_assoc(a1, e1, l2 + (e2 + (l3 + (e3 + b))));
    let a2 = a1 + e1;
    lemma_expect_at(l2, a2, e2 + (l3 + (e3 + b)), s);
    lemma_seq_assoc(a2, l2, e2 + (l3 + (e3 + b)));
    let a3 = a2 + l2;
    lemma_string_at(ts, a3, l3 + (e3 + b), s);
    lemma_seq_assoc(a3, e2, l3 + (e3 + b));
    let a4 = a3 + e2;
    lemma_expect_at(l3, a4, e3 + b, s);
    lemma_seq_assoc(a4, l3, e3 + b);
    let a5 = a4 + l3;
    lemma_string_at(sid, a5, b, s);
}

/// An encoded category and severity parse back to themselves where they
/// were written.
proof fn lemma_kind_at(t: FlagType, v: Severity, a: Seq<char>, b: Seq<char>, s: Seq<char>)
    requires
        s == a + (enc_flag_kind(t, v) + b),
    ensures
        spec_parse_flag_kind(s, a.len() as int) == Some(
            ((t, v), (a.len() + enc_flag_kind(t, v).len()) as int),
        ),
{
    let l1 = ",\"flag_type\":{\"type\":"@;
    let e1 = enc_string(flag_type_name(t));
    let l2 = "},\"severity\":"@;
    let e2 = enc_string(severity_name(v));
    assert(enc_flag_kind(t, v) == ((l1 + e1) + l2) + e2);
    lemma_seq_assoc((l1 + e1) + l2, e2, b);
    lemma_seq_assoc(l1 + e1, l2, e2 + b);
    lemma_seq_assoc(l1, e1, l2 + (e2 + b));
    assert(s == a + (l1 + (e1 + (l2 + (e2 + b)))));
    lemma_expect_at(l1, a, e1 + (l2 + (e2 + b)), s);
    lemma_seq_assoc(a, l1, e1 + (l2 + (e2 + b)));
    let a1 = a + l1;
    lemma_string_at(flag_type_name(t), a1, l2 + (e2 + b), s);
    lemma_flag_type_name_inverse(t);
    lemma_seq_assoc(a1, e1, l2 + (e2 + b));
    let a2 = a1 + e1;
    lemma_expect_at(l2, a2, e2 + b, s);
    lemma_seq_assoc(a2, l2, e2 + b);
    let a3 = a2 + l2;
    lemma_string_at(severity_name(v), a3, b, s);
    lemma_severity_name_inverse(v);
}

/// Encoded free-text fields parse back to themselves where they were
/// written.
proof fn lemma_texts_at(
    title: Seq<char>,
    desc: Seq<char>,
    ds: Seq<char>,
    a: Seq<char>,
    b: Seq<char>,
    s: Seq<char>,
)
    requires
        s == a + (enc_flag_texts(title, desc, ds) + b),
    ensures
        spec_parse_flag_texts(s, a.len() as int) == Some(
            ((title, desc, ds), (a.len() + enc_flag_texts(title, desc, ds).len()) as int),
        ),
{
    let l1 = ",\"title\":"@;
    let e1 = enc_string(title);
    let l2 = ",\"description\":"@;
    let e2 = enc_string(desc);
    let l3 = ",\"data_source\":"@;
    let e3 = enc_string(ds);
    assert(enc_flag_texts(title, desc, ds) == ((((l1 + e1) + l2) + e2) + l3) + e3);
    lemma_seq_assoc((((l1 + e1) + l2) + e2) + l3, e3, b);
    lemma_seq_assoc(((l1 + e1) + l2) + e2, l3, e3 + b);
    lemma_seq_assoc((l1 + e1) + l2, e2, l3 + (e3 + b));
    lemma_seq_assoc(l1 + e1, l2, e2 + (l3 + (e3 + b)));
    lemma_seq_assoc(l1, e1, l2 + (e2 + (l3 + (e3 + b))));
    assert(s == a + (l1 + (e1 + (l2 + (e2 + (l3 + (e3 + b)))))));
    lemma_expect_at(l1, a, e1 + (l2 + (e2 + (l3 + (e3 + b)))), s);
    lemma_seq_assoc(a, l1, e1 + (l2 + (e2 + (l3 + (e3 + b)))));
    let a1 = a + l1;
    lemma_string_at(title, a1, l2 + (e2 + (l3 + (e3 + b))), s);
    lemma_seq_assoc(a1, e1, l2 + (e2 + (l3 + (e3 + b))));
    let a2 = a1 + e1;
    lemma_expect_at(l2, a2, e2 + (l3 + (e3 + b)), s);
    lemma_seq_assoc(a2, l2, e2 + (l3 + (e3 + b)));
    let a3 = a2 + l2;
    lemma_string_at(desc, a3, l3 + (e3 + b), s);
    lemma_seq_assoc(a3, e2, l3 + (e3 + b));
    let a4 = a3 + e2;
    lemma_expect_at(l3, a4, e3 + b, s);
    lemma_seq_assoc(a4, l3, e3 + b);
    let a5 = a4 + l3;
    lemma_string_at(ds, a5, b, s);
}

/// An encoded metrics payload and confidence parse back to themselves
/// where they were written.
#[verifier::rlimit(60)]
proof fn lemma_tail_at(
    m: Seq<(Seq<char>, MetricValueView)>,
    c: int,
    a: Seq<char>,
    b: Seq<char>,
    s: Seq<char>,
)
    requires
        wf_metrics(m),
        0 <= c <= 1000,
        s == a + (enc_flag_tail(m, c) + b),
    ensures
        spec_parse_flag_tail(s, a.len() as int) == Some(
            ((m, c), (a.len() + enc_flag_tail(m, c).len()) as int),
        ),
{
    let l1 = ",\"metrics\":"@;
    let e1 = enc_metrics(m);
    let l2 = ",\"confidence\":"@;
    let e2 = milli_chars(c);
    let l3 = "}"@;
    let i = a.len() as int;
    let p1 = i + l1.len();
    let p2 = p1 + e1.len();
    let p3 = p2 + l2.len();
    let p4 = p3 + e2.len();
    let p5 = p4 + l3.len();
    assert(enc_flag_tail(m, c) == (((l1 + e1) + l2) + e2) + l3);
    assert(spec_expect(s, i, l1) == Some(p1)) by {
        lemma_seq_assoc(((l1 + e1) + l2) + e2, l3, b);
        lemma_seq_assoc((l1 + e1) + l2, e2, l3 + b);
        lemma_seq_assoc(l1 + e1, l2, e2 + (l3 + b));
        lemma_seq_assoc(l1, e1, l2 + (e2 + (l3 + b)));
        lemma_expect_at(l1, a, e1 + (l2 + (e2 + (l3 + b))), s);
    }
    assert(spec_parse_metrics(s, p1) == Some((m, p2))) by {
        lemma_seq_assoc(((l1 + e1) + l2) + e2, l3, b);
        lemma_seq_assoc((l1 + e1) + l2, e2, l3 + b);
        lemma_seq_assoc(l1 + e1, l2, e2 + (l3 + b));
        lemma_seq_assoc(l1, e1, l2 + (e2 + (l3 + b)));
        lemma_seq_assoc(a, l1, e1 + (l2 + (e2 + (l3 + b))));
        lemma_metrics_at(m, a + l1, l2 + (e2 + (l3 + b)), s);
    }
    assert(spec_expect(s, p2, l2) == Some(p3)) by {
        lemma_seq_assoc(((l1 + e1) + l2) + e2, l3, b);
        lemma_seq_assoc((l1 + e1) + l2, e2, l3 + b);
        lemma_seq_assoc(l1 + e1, l2, e2 + (l3 + b));
        lemma_seq_assoc(l1, e1, l2 + (e2 + (l3 + b)));
        lemma_seq_assoc(a, l1, e1 + (l2 + (e2 + (l3 + b))));
        lemma_seq_assoc(a + l1, e1, l2 + (e2 + (l3 + b)));
        lemma_expect_at(l2, (a + l1) + e1, e2 + (l3 + b), s);
    }
    assert(spec_parse_number(s, p3) == Some((MetricValueView::Fixed(c), p4))) by {
        lemma_seq_assoc(((l1 + e1) + l2) + e2, l3, b);
        lemma_seq_assoc((l1 + e1) + l2, e2, l3 + b);
        lemma_seq_assoc(l1 + e1, l2, e2 + (l3 + b));
        lemma_seq_assoc(l1, e1, l2 + (e2 + (l3 + b)));
        lemma_seq_assoc(a, l1, e1 + (l2 + (e2 + (l3 + b))));
        lemma_seq_assoc(a + l1, e1, l2 + (e2 + (l3 + b)));
        lemma_seq_assoc((a + l1) + e1, l2, e2 + (l3 + b));
        lemma_milli_at(c, ((a + l1) + e1) + l2, l3 + b, s);
    }
    assert(spec_expect(s, p4, l3) == Some(p5)) by {
        lemma_seq_assoc(((l1 + e1) + l2) + e2, l3, b);
        lemma_seq_assoc((l1 + e1) + l2, e2, l3 + b);
        lemma_seq_assoc(l1 + e1, l2, e2 + (l3 + b));
        lemma_seq_assoc(l1, e1, l2 + (e2 + (l3 + b)));
        lemma_seq_assoc(a, l1, e1 + (l2 + (e2 + (l3 + b))));
        lemma_seq_assoc(a + l1, e1, l2 + (e2 + (l3 + b)));
        lemma_seq_assoc((a + l1) + e1, l2, e2 + (l3 + b));
        lemma_seq_assoc(((a + l1) + e1) + l2, e2, l3 + b);
        lemma_expect_at(l3, (((a + l1) + e1) + l2) + e2, b, s);
    }
    assert(p5 == i + enc_flag_tail(m, c).len());
}

/// Round trip of the artifact codec: the text written for a well-formed
/// flag parses back to exactly that flag.
pub proof fn lemma_flag_round_trip(f: FlagView)
    requires
        flag_codec_wf(f),
    ensures
        spec_flag_of_text(enc_flag(f)) == Some(f),
{
    let e1 = enc_flag_idents(f.id, f.timestamp, f.session_id);
    let e2 = enc_flag_kind(f.flag_type, f.severity);
    let e3 = enc_flag_texts(f.title, f.description, f.data_source);
    let e4 = enc_flag_tail(f.metrics, f.confidence);
    let s = enc_flag(f);
    assert(s == ((e1 + e2) + e3) + e4);
    lemma_seq_assoc(e1 + e2, e3, e4);
    lemma_seq_assoc(e1, e2, e3 + e4);
    let empty = Seq::<char>::empty();
    assert(s =~= empty + (e1 + (e2 + (e3 + e4))));
    lemma_idents_at(f.id, f.timestamp, f.session_id, empty, e2 + (e3 + e4), s);
    assert(empty + (e1 + (e2 + (e3 + e4))) =~= e1 + (e2 + (e3 + e4)));
    lemma_kind_at(f.flag_type, f.severity, e1, e3 + e4, s);
    lemma_seq_assoc(e1, e2, e3 + e4);
    lemma_texts_at(f.title, f.description, f.data_source, e1 + e2, e4, s);
    lemma_seq_assoc(e1 + e2, e3, e4);
    let empty_tail = Seq::<char>::empty();
    assert(((e1 + e2) + e3) + (e4 + empty_tail) =~= s);
    lemma_tail_at(f.metrics, f.confidence, (e1 + e2) + e3, empty_tail, s);
    assert(spec_parse_flag(s, 0) is Some);
    let (g, k) = spec_parse_flag(s, 0)->0;
    assert(g == f);
    assert(k == s.len());
}

/// Reads a flag from a whole artifact text; anything after the object
/// makes the text invalid.
pub fn flag_of_text(text: &str) -> (r: Option<Flag>)
    ensures
        match spec_flag_of_text(text@) {
            Some(fv) => r is Some && r->0@ == fv,
            None => r is None,
        },
{
    let cs = str_to_chars(text);
    match parse_flag_chars(&cs, 0) {
        Some((f, k)) => {
            if k == cs.len() {
                Some(f)
            } else {
                None
            }
        },
        None => None,
    }
}

} // verus!

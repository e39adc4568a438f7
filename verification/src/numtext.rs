//! Decimal text for the integers the library carries: plain counts and
//! fixed-point thousandths. Rendering and parsing are verified against one
//! pair of spec functions, and parsing recovers exactly what rendering
//! produced.

use vstd::prelude::*;

verus! {

/// `c` is a decimal digit.
pub open spec fn is_digit(c: char) -> bool {
    '0' <= c <= '9'
}

/// Numeric value of a digit character.
pub open spec fn digit_val(c: char) -> int {
    c as int - 48
}

/// Digit character of a value in `0 ..= 9`.
pub open spec fn digit_char(d: int) -> char {
    if d == 0 { '0' }
    else if d == 1 { '1' }
    else if d == 2 { '2' }
    else if d == 3 { '3' }
    else if d == 4 { '4' }
    else if d == 5 { '5' }
    else if d == 6 { '6' }
    else if d == 7 { '7' }
    else if d == 8 { '8' }
    else { '9' }
}

/// Decimal text of a natural number, most significant digit first,
/// without leading zeros (`0` is the single digit `0`).
pub open spec fn dec_chars(n: nat) -> Seq<char>
    decreases n,
{
    if n < 10 {
        seq![digit_char(n as int)]
    } else {
        dec_chars(n / 10).push(digit_char((n % 10) as int))
    }
}

/// Value of a digit string, most significant digit first.
pub open spec fn chars_val(s: Seq<char>) -> int
    decreases s.len(),
{
    if s.len() == 0 {
        0
    } else {
        chars_val(s.drop_last()) * 10 + digit_val(s.last())
    }
}

/// Every character of `s` is a decimal digit.
pub open spec fn all_digits(s: Seq<char>) -> bool {
    forall|i: int| 0 <= i < s.len() ==> is_digit(#[trigger] s[i])
}

/// Powers of ten.
pub open spec fn pow10(k: nat) -> nat
    decreases k,
{
    if k == 0 {
        1
    } else {
        10 * pow10((k - 1) as nat)
    }
}

pub proof fn lemma_digit_char_val(d: int)
    requires
        0 <= d <= 9,
    ensures
        is_digit(digit_char(d)),
        digit_val(digit_char(d)) == d,
{
}

/// Rendering is faithful: the digit string of `n` evaluates back to `n`,
/// consists of digits alone, and is never empty.
pub proof fn lemma_dec_chars_val(n: nat)
    ensures
        chars_val(dec_chars(n)) == n,
        all_digits(dec_chars(n)),
        dec_chars(n).len() >= 1,
        n >= 1 ==> pow10((dec_chars(n).len() - 1) as nat) <= n,
        n < pow10(dec_chars(n).len()),
    decreases n,
{
    if n < 10 {
        lemma_digit_char_val(n as int);
        let s = dec_chars(n);
        assert(pow10(0) == 1);
        assert(pow10(1) == 10);
        assert(s =~= seq![digit_char(n as int)]);
        assert(s.drop_last() =~= Seq::<char>::empty());
        assert(chars_val(s.drop_last()) == 0);
        assert(chars_val(s) == 0 * 10 + digit_val(s.last()));
    } else {
        lemma_dec_chars_val(n / 10);
        lemma_digit_char_val((n % 10) as int);
        let prefix = dec_chars(n / 10);
        let s = dec_chars(n);
        assert(s == prefix.push(digit_char((n % 10) as int)));
        assert(s.drop_last() =~= prefix);
        assert(chars_val(s) == chars_val(prefix) * 10 + n % 10);
        assert(forall|i: int| 0 <= i < s.len() - 1 ==> s[i] == prefix[i]);
        assert(pow10(s.len()) == 10 * pow10(prefix.len()));
        assert(pow10((s.len() - 1) as nat) == 10 * pow10((prefix.len() - 1) as nat));
    }
}

/// A digit string's value lies below `pow10` of its length.
pub proof fn lemma_chars_val_bound(s: Seq<char>)
    requires
        all_digits(s),
    ensures
        0 <= chars_val(s) < pow10(s.len()),
    decreases s.len(),
{
    if s.len() > 0 {
        assert(all_digits(s.drop_last())) by {
            assert(forall|i: int| 0 <= i < s.len() - 1 ==> s.drop_last()[i] == s[i]);
        }
        lemma_chars_val_bound(s.drop_last());
        assert(is_digit(s.last()));
        assert(pow10(s.len()) == 10 * pow10((s.len() - 1) as nat));
    }
}

pub proof fn lemma_pow10_20()
    ensures
        pow10(20) == 100_000_000_000_000_000_000,
{
    reveal_with_fuel(pow10, 21);
}

/// The digit string of a value that fits in 64 bits has at most 20 digits.
pub proof fn lemma_dec_chars_len_u64(n: nat)
    requires
        n < 0x1_0000_0000_0000_0000,
    ensures
        dec_chars(n).len() <= 20,
{
    lemma_dec_chars_val(n);
    lemma_pow10_20();
    if dec_chars(n).len() > 20 {
        assert(n >= 1) by {
            if n == 0 {
                reveal_with_fuel(dec_chars, 2);
            }
        }
        assert(pow10((dec_chars(n).len() - 1) as nat) <= n);
        lemma_pow10_mono(20, (dec_chars(n).len() - 1) as nat);
    }
}

pub proof fn lemma_pow10_mono(a: nat, b: nat)
    requires
        a <= b,
    ensures
        pow10(a) <= pow10(b),
    decreases b,
{
    if a < b {
        lemma_pow10_mono(a, (b - 1) as nat);
        assert(pow10(b) == 10 * pow10((b - 1) as nat));
        lemma_pow10_pos((b - 1) as nat);
    }
}

pub proof fn lemma_pow10_pos(k: nat)
    ensures
        pow10(k) >= 1,
    decreases k,
{
    if k > 0 {
        lemma_pow10_pos((k - 1) as nat);
    }
}

/// Three-digit, zero-padded text of a fraction in thousandths.
pub open spec fn frac3_chars(f: int) -> Seq<char> {
    seq![digit_char(f / 100), digit_char((f / 10) % 10), digit_char(f % 10)]
}

/// Text of a fixed-point value in thousandths: optional sign, the whole
/// part, a point, and exactly three fraction digits.
pub open spec fn milli_chars(v: int) -> Seq<char> {
    let m = if v < 0 { -v } else { v };
    let sign: Seq<char> = if v < 0 { seq!['-'] } else { Seq::empty() };
    sign + dec_chars((m / 1000) as nat) + seq!['.'] + frac3_chars(m % 1000)
}

/// Digit character of a value in `0 ..= 9`.
pub fn digit_to_char(d: u64) -> (c: char)
    requires
        d <= 9,
    ensures
        c == digit_char(d as int),
{
    match d {
        0 => '0',
        1 => '1',
        2 => '2',
        3 => '3',
        4 => '4',
        5 => '5',
        6 => '6',
        7 => '7',
        8 => '8',
        _ => '9',
    }
}

/// Numeric value of a digit character.
pub fn char_to_digit(c: char) -> (d: u64)
    requires
        is_digit(c),
    ensures
        d == digit_val(c),
        d <= 9,
{
    (c as u32 - 48) as u64
}

/// Appends the decimal text of `n`.
pub fn push_dec_chars(out: &mut Vec<char>, n: u64)
    ensures
        final(out)@ == old(out)@ + dec_chars(n as nat),
    decreases n,
{
    if n < 10 {
        out.push(digit_to_char(n));
        assert(final(out)@ =~= old(out)@ + dec_chars(n as nat));
    } else {
        push_dec_chars(out, n / 10);
        out.push(digit_to_char(n % 10));
        assert(final(out)@ =~= old(out)@ + dec_chars(n as nat));
    }
}

/// Appends the fixed-point text of `v` thousandths.
pub fn push_milli_chars(out: &mut Vec<char>, v: i64)
    ensures
        final(out)@ == old(out)@ + milli_chars(v as int),
{
    let w: i128 = v as i128;
    let m: u64 = if w < 0 { (-w) as u64 } else { w as u64 };
    if v < 0 {
        out.push('-');
    }
    push_dec_chars(out, m / 1000);
    out.push('.');
    let f = m % 1000;
    out.push(digit_to_char(f / 100));
    out.push(digit_to_char((f / 10) % 10));
    out.push(digit_to_char(f % 10));
    assert(final(out)@ =~= old(out)@ + milli_chars(v as int));
}

/// Length of the maximal digit prefix of `s`.
pub open spec fn digits_prefix_len(s: Seq<char>) -> nat
    decreases s.len(),
{
    if s.len() == 0 || !is_digit(s[0]) {
        0
    } else {
        1 + digits_prefix_len(s.drop_first())
    }
}

/// The digit prefix never reaches past the end.
pub proof fn lemma_digits_prefix_le_len(s: Seq<char>)
    ensures
        digits_prefix_len(s) <= s.len(),
    decreases s.len(),
{
    if s.len() > 0 && is_digit(s[0]) {
        lemma_digits_prefix_le_len(s.drop_first());
    }
}

/// The digit prefix is characterized by its digits and its first non-digit.
pub proof fn lemma_digits_prefix_len_is(s: Seq<char>, k: int)
    requires
        0 <= k <= s.len(),
        forall|i: int| 0 <= i < k ==> is_digit(#[trigger] s[i]),
        k == s.len() || !is_digit(s[k]),
    ensures
        digits_prefix_len(s) == k,
    decreases s.len(),
{
    if k == 0 {
    } else {
        let t = s.drop_first();
        assert(forall|i: int| 0 <= i < k - 1 ==> t[i] == s[i + 1]);
        assert(k - 1 == t.len() || !is_digit(t[k - 1]));
        lemma_digits_prefix_len_is(t, k - 1);
    }
}

/// At least `k` leading digits give a digit prefix of at least `k`.
pub proof fn lemma_digits_prefix_len_ge(s: Seq<char>, k: int)
    requires
        0 <= k <= s.len(),
        forall|i: int| 0 <= i < k ==> is_digit(#[trigger] s[i]),
    ensures
        digits_prefix_len(s) >= k,
    decreases s.len(),
{
    if k > 0 {
        assert(is_digit(s[0]));
        let t = s.drop_first();
        assert(forall|i: int| 0 <= i < k - 1 ==> t[i] == s[i + 1]);
        lemma_digits_prefix_len_ge(t, k - 1);
    }
}

/// Greedy parse of an unsigned decimal number: the value of the maximal
/// digit prefix and the position after it, refused when there is no digit
/// or when there are more than 20 (no value that the library renders has
/// more).
pub open spec fn spec_parse_digits(s: Seq<char>, i: int) -> Option<(int, int)> {
    let k = digits_prefix_len(s.skip(i));
    if k == 0 || k > 20 {
        None
    } else {
        Some((chars_val(s.subrange(i, i + k)), i + k))
    }
}

/// Reads the maximal digit run of `cs` starting at `i`.
pub fn parse_digits(cs: &Vec<char>, i: usize) -> (r: Option<(u128, usize)>)
    requires
        i <= cs.len(),
    ensures
        match spec_parse_digits(cs@, i as int) {
            Some((v, j)) => {
                &&& r is Some
                &&& (r->0).0 == v
                &&& (r->0).1 == j
                &&& i < j <= cs.len()
                &&& 0 <= v < 0x1_0000_0000_0000_0000_0000_0000
            },
            None => r is None,
        },
{
    let ghost rest = cs@.skip(i as int);
    let mut j: usize = i;
    let mut acc: u128 = 0;
    while j < cs.len() && is_digit_char(cs[j]) && j - i < 21
        invariant
            i <= j <= cs.len(),
            j - i <= 21,
            forall|t: int| i <= t < j ==> is_digit(#[trigger] cs@[t]),
            acc == chars_val(cs@.subrange(i as int, j as int)),
            all_digits(cs@.subrange(i as int, j as int)),
        decreases cs.len() - j,
    {
        let d = char_to_digit(cs[j]);
        proof {
            lemma_chars_val_bound(cs@.subrange(i as int, j as int));
            lemma_pow10_mono((j - i) as nat, 21);
            lemma_pow10_20();
            assert(pow10(21) == 10 * pow10(20));
            assert(cs@.subrange(i as int, j + 1).drop_last() =~= cs@.subrange(
                i as int,
                j as int,
            ));
        }
        acc = acc * 10 + (d as u128);
        j = j + 1;
    }
    proof {
        assert(cs@.subrange(i as int, j as int) =~= rest.take(j - i));
        assert(forall|t: int| 0 <= t < j - i ==> rest[t] == cs@[i + t]);
    }
    if j == i {
        proof {
            lemma_digits_prefix_len_is(rest, 0);
        }
        None
    } else if j - i > 20 {
        proof {
            lemma_digits_prefix_len_ge(rest, 21);
        }
        None
    } else {
        proof {
            if j < cs.len() && is_digit(cs@[j as int]) {
                assert(j - i == 21);  // the loop only stops on a digit at the count cap
            }
            lemma_digits_prefix_len_is(rest, j - i);
            lemma_chars_val_bound(cs@.subrange(i as int, j as int));
            lemma_pow10_mono((j - i) as nat, 20);
            lemma_pow10_20();
        }
        Some((acc, j))
    }
}

/// Decides `is_digit` on a character.
pub fn is_digit_char(c: char) -> (r: bool)
    ensures
        r == is_digit(c),
{
    '0' <= c && c <= '9'
}

/// Parsing recovers a rendered number: at position `i` of a text whose
/// next characters are `dec_chars(n)` followed by a non-digit (or the
/// end), the greedy parse yields exactly `n` and stops after it.
pub proof fn lemma_parse_dec_chars(s: Seq<char>, i: int, n: nat)
    requires
        n < 0x1_0000_0000_0000_0000,
        0 <= i,
        i + dec_chars(n).len() <= s.len(),
        s.subrange(i, i + dec_chars(n).len()) == dec_chars(n),
        i + dec_chars(n).len() == s.len() || !is_digit(s[i + dec_chars(n).len()]),
    ensures
        spec_parse_digits(s, i) == Some((n as int, i + dec_chars(n).len())),
{
    let d = dec_chars(n);
    lemma_dec_chars_val(n);
    lemma_dec_chars_len_u64(n);
    let rest = s.skip(i);
    assert(forall|t: int| 0 <= t < d.len() ==> rest[t] == s[i + t] && s[i + t] == d[t]);
    assert(d.len() == rest.len() || !is_digit(rest[d.len() as int]));
    lemma_digits_prefix_len_is(rest, d.len() as int);
    assert(s.subrange(i, i + d.len()) == d);
}

} // verus!

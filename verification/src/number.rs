//! Numerals: the grammar of decimal numbers, and integers read from and
//! written as text.

use crate::text::{
    chars_of, copy_range, is_digit, is_space, lemma_run_end, lemma_run_to, run_end, scan_run,
    string_of, CharClass,
};
use vstd::prelude::*;

verus! {

/// The value of `c` as a digit, for radices up to sixteen; sixteen or more
/// where it is no digit.
pub open spec fn digit_value(c: char) -> nat {
    if '0' <= c <= '9' {
        (c as nat - '0' as nat) as nat
    } else if 'a' <= c <= 'f' {
        (c as nat - 'a' as nat + 10) as nat
    } else if 'A' <= c <= 'F' {
        (c as nat - 'A' as nat + 10) as nat
    } else {
        16
    }
}

/// Whether every character of `s` is a digit of the radix.
pub open spec fn all_digits(s: Seq<char>, radix: nat) -> bool {
    forall|i: int| 0 <= i < s.len() ==> digit_value(#[trigger] s[i]) < radix
}

/// The number that the digits of `s` write in the radix, most significant
/// digit first.
pub open spec fn radix_value(s: Seq<char>, radix: nat) -> nat
    decreases s.len(),
{
    if s.len() == 0 {
        0
    } else {
        radix_value(s.drop_last(), radix) * radix + digit_value(s.last())
    }
}

/// The number that `s` writes without a sign, where `s` is one digit or more
/// of the radix and the number is at most `limit`.
pub open spec fn magnitude(s: Seq<char>, radix: nat, limit: nat) -> Option<nat> {
    if s.len() > 0 && all_digits(s, radix) && radix_value(s, radix) <= limit {
        Some(radix_value(s, radix))
    } else {
        None
    }
}

/// A longer numeral is never worth less than one of its prefixes.
pub proof fn lemma_radix_value_grows(s: Seq<char>, k: int, radix: nat)
    requires
        0 <= k <= s.len(),
        radix >= 1,
    ensures
        radix_value(s.take(k), radix) <= radix_value(s, radix),
    decreases s.len(),
{
    if k == s.len() {
        assert(s.take(k) =~= s);
    } else {
        lemma_radix_value_grows(s.drop_last(), k, radix);
        assert(s.drop_last().take(k) =~= s.take(k));
        let v = radix_value(s.drop_last(), radix);
        assert(v <= v * radix) by (nonlinear_arith)
            requires
                radix >= 1,
        ;
    }
}

/// The digit that `c` stands for in a radix of at most sixteen.
pub fn digit_of(c: char) -> (d: u32)
    ensures
        d == digit_value(c),
        d <= 16,
{
    if '0' <= c && c <= '9' {
        c as u32 - '0' as u32
    } else if 'a' <= c && c <= 'f' {
        c as u32 - 'a' as u32 + 10
    } else if 'A' <= c && c <= 'F' {
        c as u32 - 'A' as u32 + 10
    } else {
        16
    }
}

/// Reads an unsigned number of the given radix that may not exceed `limit`.
pub fn parse_magnitude(s: &[char], radix: u32, limit: u64) -> (r: Option<u64>)
    requires
        2 <= radix <= 16,
    ensures
        match r {
            Some(v) => magnitude(s@, radix as nat, limit as nat) == Some(v as nat),
            None => magnitude(s@, radix as nat, limit as nat) is None,
        },
{
    if s.len() == 0 {
        return None;
    }
    let mut acc: u64 = 0;
    let mut i: usize = 0;
    while i < s.len()
        invariant
            i <= s.len(),
            2 <= radix <= 16,
            all_digits(s@.take(i as int), radix as nat),
            acc == radix_value(s@.take(i as int), radix as nat),
            acc <= limit,
        decreases s.len() - i,
    {
        let d = digit_of(s[i]);
        if d >= radix {
            assert(!all_digits(s@, radix as nat));
            return None;
        }
        assert(acc as u128 * radix as u128 <= 0xffff_ffff_ffff_ffff * 16) by (nonlinear_arith)
            requires
                acc <= 0xffff_ffff_ffff_ffff,
                radix <= 16,
        ;
        let next: u128 = acc as u128 * radix as u128 + d as u128;
        proof {
            assert(s@.take(i + 1).drop_last() =~= s@.take(i as int));
            assert(s@.take(i + 1).last() == s@[i as int]);
            assert(next == radix_value(s@.take(i + 1), radix as nat));
            lemma_radix_value_grows(s@, i + 1, radix as nat);
        }
        if next > limit as u128 {
            return None;
        }
        proof {
            assert forall|k: int| 0 <= k < i + 1 implies digit_value(
                #[trigger] s@.take(i + 1)[k],
            ) < radix by {
                if k < i {
                    assert(s@.take(i as int)[k] == s@.take(i + 1)[k]);
                }
            }
        }
        acc = next as u64;
        i += 1;
    }
    assert(s@.take(s.len() as int) =~= s@);
    Some(acc)
}

/// The integer that `s` writes in decimal, with an optional `+` or, where
/// `low` is negative, `-` in front, if it lies between `low` and `high`.
pub open spec fn signed_decimal(s: Seq<char>, low: int, high: int) -> Option<int> {
    if s.len() > 0 && s[0] == '-' && low < 0 {
        match magnitude(s.skip(1), 10, (-low) as nat) {
            Some(m) => Some(-(m as int)),
            None => None,
        }
    } else if s.len() > 0 && s[0] == '+' {
        match magnitude(s.skip(1), 10, high as nat) {
            Some(m) => Some(m as int),
            None => None,
        }
    } else {
        match magnitude(s, 10, high as nat) {
            Some(m) => Some(m as int),
            None => None,
        }
    }
}

/// Reads a 32-bit signed integer written in decimal.
pub fn parse_i32(s: &[char]) -> (r: Option<i32>)
    ensures
        match r {
            Some(v) => signed_decimal(s@, i32::MIN as int, i32::MAX as int) == Some(v as int),
            None => signed_decimal(s@, i32::MIN as int, i32::MAX as int) is None,
        },
{
    if s.len() > 0 && s[0] == '-' {
        let rest = copy_range(s, 1, s.len());
        match parse_magnitude(rest.as_slice(), 10, 0x8000_0000) {
            Some(m) => {
                if m == 0x8000_0000 {
                    Some(i32::MIN)
                } else {
                    Some(-(m as i32))
                }
            },
            None => None,
        }
    } else if s.len() > 0 && s[0] == '+' {
        let rest = copy_range(s, 1, s.len());
        match parse_magnitude(rest.as_slice(), 10, 0x7fff_ffff) {
            Some(m) => Some(m as i32),
            None => None,
        }
    } else {
        match parse_magnitude(s, 10, 0x7fff_ffff) {
            Some(m) => Some(m as i32),
            None => None,
        }
    }
}

/// The byte that `s` writes in the radix, with an optional `+` in front.
pub open spec fn unsigned_byte(s: Seq<char>, radix: nat) -> Option<nat> {
    if s.len() > 0 && s[0] == '+' {
        magnitude(s.skip(1), radix, 255)
    } else {
        magnitude(s, radix, 255)
    }
}

/// Reads a byte written in the given radix.
pub fn parse_u8(s: &[char], radix: u32) -> (r: Option<u8>)
    requires
        2 <= radix <= 16,
    ensures
        match r {
            Some(v) => unsigned_byte(s@, radix as nat) == Some(v as nat),
            None => unsigned_byte(s@, radix as nat) is None,
        },
{
    if s.len() > 0 && s[0] == '+' {
        let rest = copy_range(s, 1, s.len());
        match parse_magnitude(rest.as_slice(), radix, 255) {
            Some(m) => Some(m as u8),
            None => None,
        }
    } else {
        match parse_magnitude(s, radix, 255) {
            Some(m) => Some(m as u8),
            None => None,
        }
    }
}

/// The decimal digits of `n`, most significant first, without leading zeros.
pub open spec fn decimal(n: nat) -> Seq<char>
    decreases n,
{
    if n < 10 {
        seq![('0' as nat + n) as char]
    } else {
        decimal(n / 10).push(('0' as nat + n % 10) as char)
    }
}

/// Appends the decimal digits of `n` to `out`.
pub fn push_decimal(out: &mut Vec<char>, n: u64)
    ensures
        final(out)@ == old(out)@ + decimal(n as nat),
    decreases n,
{
    if n >= 10 {
        push_decimal(out, n / 10);
    }
    let d: u8 = (n % 10) as u8;
    let c: char = (48u8 + d) as char;
    out.push(c);
    assert(out@ =~= old(out)@ + decimal(n as nat));
}

/// Appends the decimal digits of `n` to a string.
pub fn append_decimal(s: &mut String, n: u64)
    ensures
        final(s)@ == old(s)@ + decimal(n as nat),
{
    let mut digits: Vec<char> = Vec::new();
    push_decimal(&mut digits, n);
    let text = string_of(digits.as_slice());
    assert(text@ =~= decimal(n as nat));
    s.append(text.as_str());
}

/// The decimal digits of `n`, with `-` in front where it is negative.
pub open spec fn signed(n: int) -> Seq<char> {
    if n < 0 {
        seq!['-'] + decimal((-n) as nat)
    } else {
        decimal(n as nat)
    }
}

/// Appends the decimal digits of `n`, with its sign where it is negative,
/// to `out`.
pub fn push_signed(out: &mut Vec<char>, n: i64)
    requires
        n > i64::MIN,
    ensures
        final(out)@ == old(out)@ + signed(n as int),
{
    if n < 0 {
        out.push('-');
        push_decimal(out, (-n) as u64);
        assert(out@ =~= old(out)@ + (seq!['-'] + decimal((-n) as nat)));
    } else {
        push_decimal(out, n as u64);
    }
}

/// Reading back the digits that write a number gives the number.
pub proof fn decimal_round_trip(n: nat)
    ensures
        decimal(n).len() > 0,
        all_digits(decimal(n), 10),
        radix_value(decimal(n), 10) == n,
        forall|limit: nat| n <= limit ==> #[trigger] magnitude(decimal(n), 10, limit) == Some(n),
    decreases n,
{
    let s = decimal(n);
    if n < 10 {
        assert(s.drop_last() =~= Seq::<char>::empty());
        assert(radix_value(s.drop_last(), 10) == 0);
    } else {
        decimal_round_trip(n / 10);
        assert(s.drop_last() =~= decimal(n / 10));
        assert forall|i: int| 0 <= i < s.len() implies digit_value(#[trigger] s[i]) < 10 by {
            if i < s.len() - 1 {
                assert(s[i] == decimal(n / 10)[i]);
            }
        }
    }
}

/// The lower-case form of an ASCII letter; any other character unchanged.
pub open spec fn ascii_lower(c: char) -> char {
    if 'A' <= c <= 'Z' {
        ((c as nat) + 32) as char
    } else {
        c
    }
}

/// Whether `s` is `word` but for the case of its ASCII letters.
pub open spec fn is_word(s: Seq<char>, word: Seq<char>) -> bool {
    s.len() == word.len() && forall|i: int| 0 <= i < s.len() ==> ascii_lower(#[trigger] s[i]) == word[i]
}

/// Whether `s` is a decimal number: digits with at most one point among or
/// beside them and at least one digit, then an optional exponent made of
/// `e` or `E`, an optional sign and one digit or more.
pub open spec fn is_plain_number(s: Seq<char>) -> bool {
    let int_end = run_end(s, 0, CharClass::Digit);
    let has_point = int_end < s.len() && s[int_end] == '.';
    let frac_start = if has_point {
        int_end + 1
    } else {
        int_end
    };
    let frac_end = run_end(s, frac_start, CharClass::Digit);
    let digits = int_end + (frac_end - frac_start);
    digits > 0 && (frac_end == s.len() || ((s[frac_end] == 'e' || s[frac_end] == 'E') && {
        let sign = frac_end + 1;
        let exp_start = if sign < s.len() && (s[sign] == '+' || s[sign] == '-') {
            sign + 1
        } else {
            sign
        };
        let exp_end = run_end(s, exp_start, CharClass::Digit);
        exp_end > exp_start && exp_end == s.len()
    }))
}

/// Whether `s` is a numeral: an optional sign, then a decimal number or one
/// of the words `inf`, `infinity` and `nan` in any case.
pub open spec fn is_numeral(s: Seq<char>) -> bool {
    let body = if s.len() > 0 && (s[0] == '+' || s[0] == '-') {
        s.skip(1)
    } else {
        s
    };
    is_plain_number(body) || is_word(body, seq!['i', 'n', 'f']) || is_word(
        body,
        seq!['i', 'n', 'f', 'i', 'n', 'i', 't', 'y'],
    ) || is_word(body, seq!['n', 'a', 'n'])
}

/// The lower-case form of an ASCII letter; any other character unchanged.
fn lower(c: char) -> (l: char)
    ensures
        l == ascii_lower(c),
{
    if 'A' <= c && c <= 'Z' {
        ((c as u8) + 32) as char
    } else {
        c
    }
}

/// Whether `s` is `word` but for the case of its ASCII letters.
fn matches_word(s: &[char], word: &str) -> (r: bool)
    ensures
        r == is_word(s@, word@),
{
    let w = chars_of(word);
    if s.len() != w.len() {
        return false;
    }
    let mut i: usize = 0;
    while i < s.len()
        invariant
            i <= s.len(),
            s.len() == w.len(),
            w@ == word@,
            forall|k: int| 0 <= k < i ==> ascii_lower(#[trigger] s@[k]) == w@[k],
        decreases s.len() - i,
    {
        if lower(s[i]) != w[i] {
            return false;
        }
        i += 1;
    }
    true
}

/// Whether `s` is a decimal number.
fn check_plain_number(s: &[char]) -> (r: bool)
    ensures
        r == is_plain_number(s@),
{
    let int_end = scan_run(s, 0, CharClass::Digit);
    let has_point = int_end < s.len() && s[int_end] == '.';
    let frac_start: usize = if has_point {
        int_end + 1
    } else {
        int_end
    };
    let frac_end = scan_run(s, frac_start, CharClass::Digit);
    let digits: usize = int_end + (frac_end - frac_start);
    if digits == 0 {
        return false;
    }
    if frac_end == s.len() {
        return true;
    }
    if s[frac_end] != 'e' && s[frac_end] != 'E' {
        return false;
    }
    let sign: usize = frac_end + 1;
    let exp_start: usize = if sign < s.len() && (s[sign] == '+' || s[sign] == '-') {
        sign + 1
    } else {
        sign
    };
    let exp_end = scan_run(s, exp_start, CharClass::Digit);
    exp_end > exp_start && exp_end == s.len()
}

/// Whether `s` is a numeral.
pub fn check_numeral(s: &[char]) -> (r: bool)
    ensures
        r == is_numeral(s@),
{
    proof {
        reveal_strlit("inf");
        reveal_strlit("infinity");
        reveal_strlit("nan");
        assert("inf"@ =~= seq!['i', 'n', 'f']);
        assert("infinity"@ =~= seq!['i', 'n', 'f', 'i', 'n', 'i', 't', 'y']);
        assert("nan"@ =~= seq!['n', 'a', 'n']);
    }
    if s.len() > 0 && (s[0] == '+' || s[0] == '-') {
        let body = copy_range(s, 1, s.len());
        check_plain_number(body.as_slice()) || matches_word(body.as_slice(), "inf") || matches_word(
            body.as_slice(),
            "infinity",
        ) || matches_word(body.as_slice(), "nan")
    } else {
        check_plain_number(s) || matches_word(s, "inf") || matches_word(s, "infinity")
            || matches_word(s, "nan")
    }
}

/// Whether the text is a numeral.
pub fn is_numeral_text(s: &str) -> (r: bool)
    ensures
        r == is_numeral(s@),
{
    let v = chars_of(s);
    check_numeral(v.as_slice())
}

/// A text that is one of the words `inf`, `infinity` and `nan`, in any
/// case, is made of letters.
proof fn lemma_word_has_no_space(s: Seq<char>)
    requires
        is_word(s, seq!['i', 'n', 'f']) || is_word(
            s,
            seq!['i', 'n', 'f', 'i', 'n', 'i', 't', 'y'],
        ) || is_word(s, seq!['n', 'a', 'n']),
    ensures
        s.len() > 0,
        forall|i: int| 0 <= i < s.len() ==> !is_space(#[trigger] s[i]),
{
    assert forall|i: int| 0 <= i < s.len() implies !is_space(#[trigger] s[i]) by {
        let c = ascii_lower(s[i]);
        let inf = seq!['i', 'n', 'f'];
        let infinity = seq!['i', 'n', 'f', 'i', 'n', 'i', 't', 'y'];
        let nan = seq!['n', 'a', 'n'];
        if is_word(s, inf) {
            assert(c == inf[i]);
        } else if is_word(s, infinity) {
            assert(c == infinity[i]);
        } else {
            assert(c == nan[i]);
        }
        assert(c == 'i' || c == 'n' || c == 'f' || c == 't' || c == 'y' || c == 'a');
    }
}

/// A decimal number is made of digits, points, signs and the letter `e`.
proof fn lemma_plain_number_has_no_space(s: Seq<char>)
    requires
        is_plain_number(s),
    ensures
        s.len() > 0,
        forall|i: int| 0 <= i < s.len() ==> !is_space(#[trigger] s[i]),
{
    let int_end = run_end(s, 0, CharClass::Digit);
    lemma_run_end(s, 0, CharClass::Digit);
    let has_point = int_end < s.len() && s[int_end] == '.';
    let frac_start = if has_point {
        int_end + 1
    } else {
        int_end
    };
    let frac_end = run_end(s, frac_start, CharClass::Digit);
    lemma_run_end(s, frac_start, CharClass::Digit);
    if frac_end < s.len() {
        let sign = frac_end + 1;
        let exp_start = if sign < s.len() && (s[sign] == '+' || s[sign] == '-') {
            sign + 1
        } else {
            sign
        };
        lemma_run_end(s, exp_start, CharClass::Digit);
    }
    assert forall|i: int| 0 <= i < s.len() implies !is_space(#[trigger] s[i]) by {
        let c = s[i];
        assert(is_digit(c) || c == '.' || c == 'e' || c == 'E' || c == '+' || c
            == '-') by {
            if i < int_end {
                assert(CharClass::Digit.holds(s[i]));
            } else if i < frac_start {
            } else if i < frac_end {
                assert(CharClass::Digit.holds(s[i]));
            } else if i == frac_end {
            } else {
                let sign = frac_end + 1;
                let exp_start = if sign < s.len() && (s[sign] == '+' || s[sign] == '-') {
                    sign + 1
                } else {
                    sign
                };
                if i >= exp_start {
                    assert(CharClass::Digit.holds(s[i]));
                }
            }
        }
    }
}

/// A single digit is a numeral.
pub proof fn digit_is_numeral(c: char)
    requires
        is_digit(c),
    ensures
        is_numeral(seq![c]),
{
    let s = seq![c];
    assert(CharClass::Digit.holds(s[0]));
    lemma_run_to(s, 0, 1, CharClass::Digit);
    lemma_run_to(s, 1, 1, CharClass::Digit);
    assert(is_plain_number(s));
}

/// A numeral is a word: it is not empty and holds no white space.
pub proof fn numeral_has_no_space(s: Seq<char>)
    requires
        is_numeral(s),
    ensures
        s.len() > 0,
        forall|i: int| 0 <= i < s.len() ==> !is_space(#[trigger] s[i]),
{
    if s.len() > 0 && (s[0] == '+' || s[0] == '-') {
        let body = s.skip(1);
        if is_plain_number(body) {
            lemma_plain_number_has_no_space(body);
        } else {
            lemma_word_has_no_space(body);
        }
        assert forall|i: int| 0 <= i < s.len() implies !is_space(#[trigger] s[i]) by {
            if i > 0 {
                assert(s[i] == body[i - 1]);
            }
        }
    } else {
        if is_plain_number(s) {
            lemma_plain_number_has_no_space(s);
        } else {
            lemma_word_has_no_space(s);
        }
    }
}

} // verus!

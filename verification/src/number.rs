//! Numbers as stylesheets write them.
//!
//! A number is kept as the text of its literal, and the grammar below says
//! which texts are literals:
//!
//! ```text
//! number   := [sign] mantissa [exponent] | 'nan' | [sign] 'infinity' | [sign] 'inf'
//! mantissa := digit+ ['.' digit*] | '.' digit+
//! exponent := ('e' | 'E') [sign] digit+
//! sign     := '+' | '-'
//! ```
//!
//! The three words are taken in any mix of upper and lower case.
//!
//! What a literal is worth is `number_value`: its digits without the zeros
//! at their two ends, and the power of ten that they are taken times. Two
//! numbers are the same where they are worth the same, however they are
//! written. The machine number nearest to it is for the reader of the style
//! to work out.

use vstd::prelude::*;
use vstd::string::StringExecFns;
use crate::chars::{
    lemma_run_len_bounds, lemma_run_len_is, lemma_run_len_take, run_len, scan, to_chars, to_text,
    CharClass,
};

verus! {

broadcast use vstd::string::group_string_axioms;

/// `c` is the lower-case letter `letter`, or the upper-case form of it.
pub open spec fn is_letter(c: char, letter: char) -> bool {
    c == letter || c as u32 + 32 == letter as u32
}

/// `s` starts with `word`, a word of lower-case letters, in any mix of
/// upper and lower case.
pub open spec fn starts_with_word(s: Seq<char>, word: Seq<char>) -> bool {
    word.len() <= s.len() && forall|i: int| 0 <= i < word.len() ==> is_letter(s[i], #[trigger] word[i])
}

/// The length of the sign at the start of `s`: 1 or 0.
pub open spec fn sign_len(s: Seq<char>) -> nat {
    if s.len() > 0 && (s[0] == '+' || s[0] == '-') {
        1
    } else {
        0
    }
}

/// The length of the mantissa at the start of `s`, if one stands there.
pub open spec fn mantissa_len(s: Seq<char>) -> Option<nat> {
    let whole = run_len(s, CharClass::Digit);
    if whole > 0 {
        if whole < s.len() && s[whole as int] == '.' {
            Some(whole + 1 + run_len(s.skip((whole + 1) as int), CharClass::Digit))
        } else {
            Some(whole)
        }
    } else if s.len() > 0 && s[0] == '.' && run_len(s.skip(1), CharClass::Digit) > 0 {
        Some(1 + run_len(s.skip(1), CharClass::Digit))
    } else {
        None
    }
}

/// What stands at the start of a text where a number is looked for.
pub ghost enum NumberScan {
    /// A number of this length.
    Found(nat),
    /// No number.
    Missing,
    /// The start of a number, and at this place an `e` with no digits after
    /// it. Nothing else can be read from here either.
    Broken(nat),
}

/// The exponent at the start of `s`: its length, 0 where there is none; or
/// the place where its digits are missing.
pub open spec fn exponent_len(s: Seq<char>) -> Result<nat, nat> {
    if s.len() > 0 && (s[0] == 'e' || s[0] == 'E') {
        let sign = sign_len(s.skip(1));
        let digits = run_len(s.skip((1 + sign) as int), CharClass::Digit);
        if digits > 0 {
            Ok(1 + sign + digits)
        } else {
            Err(1 + sign)
        }
    } else {
        Ok(0)
    }
}

/// The number at the start of `s`.
#[verifier::opaque]
pub open spec fn number_scan(s: Seq<char>) -> NumberScan {
    let sign = sign_len(s);
    let rest = s.skip(sign as int);
    match mantissa_len(rest) {
        Some(m) => match exponent_len(rest.skip(m as int)) {
            Ok(e) => NumberScan::Found(sign + m + e),
            Err(at) => NumberScan::Broken(sign + m + at),
        },
        None => if starts_with_word(s, "nan"@) {
            NumberScan::Found(3)
        } else if starts_with_word(rest, "infinity"@) {
            NumberScan::Found(sign + 8)
        } else if starts_with_word(rest, "inf"@) {
            NumberScan::Found(sign + 3)
        } else {
            NumberScan::Missing
        },
    }
}

/// The whole of `s` is one number.
pub open spec fn is_number(s: Seq<char>) -> bool {
    number_scan(s) == NumberScan::Found(s.len())
}

/// A mantissa that is found in a text is found in that text cut off behind
/// it, or further on.
pub proof fn lemma_mantissa_take(s: Seq<char>, n: nat)
    requires
        n <= s.len(),
        mantissa_len(s) matches Some(m) && m <= n,
    ensures
        mantissa_len(s.take(n as int)) == mantissa_len(s),
{
    let t = s.take(n as int);
    let whole = run_len(s, CharClass::Digit);
    lemma_run_len_bounds(s, CharClass::Digit);
    lemma_run_len_take(s, CharClass::Digit, n);
    if whole > 0 {
        if whole < s.len() && s[whole as int] == '.' {
            let from = (whole + 1) as int;
            lemma_run_len_bounds(s.skip(from), CharClass::Digit);
            lemma_run_len_take(s.skip(from), CharClass::Digit, (n - from) as nat);
            assert(t[whole as int] == '.');
            assert(t.skip(from) == s.skip(from).take(n - from));
        } else {
            if whole < t.len() {
                assert(t[whole as int] == s[whole as int]);
            }
        }
    } else {
        lemma_run_len_bounds(s.skip(1), CharClass::Digit);
        lemma_run_len_take(s.skip(1), CharClass::Digit, (n - 1) as nat);
        assert(t[0] == '.');
        assert(t.skip(1) == s.skip(1).take(n - 1));
    }
}

/// Where no mantissa stands at the start of a text, none stands at the
/// start of the text cut off.
pub proof fn lemma_no_mantissa_take(s: Seq<char>, n: nat)
    requires
        n <= s.len(),
        mantissa_len(s) is None,
    ensures
        mantissa_len(s.take(n as int)) is None,
{
    let t = s.take(n as int);
    lemma_run_len_take(s, CharClass::Digit, n);
    if t.len() > 0 && t[0] == '.' {
        assert(s[0] == '.');
        lemma_run_len_take(s.skip(1), CharClass::Digit, (n - 1) as nat);
        assert(t.skip(1) == s.skip(1).take(n - 1));
    }
}

/// A number that is found at the start of a text is all of the text cut
/// off behind it.
pub proof fn lemma_number_scan_take(s: Seq<char>, n: nat)
    requires
        number_scan(s) == NumberScan::Found(n),
        n <= s.len(),
    ensures
        is_number(s.take(n as int)),
{
    reveal(number_scan);
    reveal_strlit("nan");
    reveal_strlit("infinity");
    reveal_strlit("inf");
    let t = s.take(n as int);
    let sign = sign_len(s);
    let rest = s.skip(sign as int);
    match mantissa_len(rest) {
        Some(m) => {
            assert(sign + m <= n);
            assert(t[0] == s[0]);
            assert(t.skip(sign as int) == rest.take(n - sign));
            lemma_mantissa_take(rest, (n - sign) as nat);
            let after = rest.skip(m as int);
            let cut = t.skip(sign as int).skip(m as int);
            assert(cut == after.take(n - sign - m));
            if after.len() > 0 && (after[0] == 'e' || after[0] == 'E') {
                let exp_sign = sign_len(after.skip(1));
                let from = (1 + exp_sign) as int;
                lemma_run_len_bounds(after.skip(from), CharClass::Digit);
                lemma_run_len_take(
                    after.skip(from),
                    CharClass::Digit,
                    (n - sign - m - from) as nat,
                );
                assert(cut[0] == after[0]);
                if exp_sign > 0 {
                    assert(cut.skip(1)[0] == after.skip(1)[0]);
                } else if cut.skip(1).len() > 0 {
                    assert(cut.skip(1)[0] == after.skip(1)[0]);
                }
                assert(cut.skip(from) == after.skip(from).take(n - sign - m - from));
            } else {
                assert(cut.len() == 0);
            }
        },
        None => {
            if t.len() > 0 {
                assert(t[0] == s[0]);
            }
            assert(t.skip(sign as int) == rest.take(n - sign));
            lemma_no_mantissa_take(rest, (n - sign) as nat);
            if starts_with_word(s, "nan"@) {
                assert forall|i: int| 0 <= i < 3 implies is_letter(t[i], #[trigger] "nan"@[i]) by {
                    assert(t[i] == s[i]);
                }
            } else if starts_with_word(rest, "infinity"@) {
                let u = t.skip(sign as int);
                assert forall|i: int| 0 <= i < 8 implies is_letter(
                    u[i],
                    #[trigger] "infinity"@[i],
                ) by {
                    assert(u[i] == rest[i]);
                }
                if starts_with_word(t, "nan"@) {
                    assert(is_letter(t[0], "nan"@[0]));
                    assert(is_letter(t[1], "nan"@[1]));
                    assert(t[0] == s[0]);
                    assert(t[1] == s[1]);
                    assert(is_letter(rest[0], "infinity"@[0]));
                    assert(is_letter(rest[1], "infinity"@[1]));
                }
            } else {
                let u = t.skip(sign as int);
                assert forall|i: int| 0 <= i < 3 implies is_letter(u[i], #[trigger] "inf"@[i]) by {
                    assert(u[i] == rest[i]);
                }
                assert(u.len() == 3);
                if starts_with_word(t, "nan"@) {
                    assert(is_letter(t[0], "nan"@[0]));
                    assert(is_letter(t[1], "nan"@[1]));
                    assert(t[0] == s[0]);
                    assert(t[1] == s[1]);
                    assert(is_letter(rest[0], "inf"@[0]));
                    assert(is_letter(rest[1], "inf"@[1]));
                }
            }
        },
    }
}

/// What stands at a place where a number is looked for.
#[derive(Clone, Copy, Debug, PartialEq, Eq)]
pub enum NumberToken {
    /// A number that ends before this position.
    Found(usize),
    /// No number.
    Missing,
    /// The start of a number, and at this position an `e` with no digits
    /// after it.
    Broken(usize),
}

/// Whether `word`, a word of lower-case letters, stands at `pos` in any mix
/// of upper and lower case.
pub fn word_at(input: &[char], pos: usize, word: &str) -> (r: bool)
    requires
        pos <= input.len(),
    ensures
        r == starts_with_word(input@.skip(pos as int), word@),
{
    let n = word.unicode_len();
    if n > input.len() - pos {
        return false;
    }
    let ghost s = input@.skip(pos as int);
    let mut i: usize = 0;
    while i < n
        invariant
            i <= n,
            n == word@.len(),
            pos + n <= input.len(),
            s == input@.skip(pos as int),
            forall|j: int| 0 <= j < i ==> is_letter(s[j], #[trigger] word@[j]),
        decreases n - i,
    {
        let c = input[pos + i];
        let w = word.get_char(i);
        assert(s[i as int] == c);
        if !(c == w || c as u32 as u64 + 32 == w as u32 as u64) {
            return false;
        }
        i += 1;
    }
    true
}

/// The end of the sign at `pos`.
fn sign_at(input: &[char], pos: usize) -> (end: usize)
    requires
        pos <= input.len(),
    ensures
        end == pos + sign_len(input@.skip(pos as int)),
        end <= input.len(),
{
    if pos < input.len() && (input[pos] == '+' || input[pos] == '-') {
        pos + 1
    } else {
        pos
    }
}

/// The end of the mantissa at `pos`, if one stands there.
fn mantissa_at(input: &[char], pos: usize) -> (r: Option<usize>)
    requires
        pos <= input.len(),
    ensures
        match r {
            Some(end) => pos < end <= input.len() && mantissa_len(input@.skip(pos as int))
                == Some((end - pos) as nat),
            None => mantissa_len(input@.skip(pos as int)) is None,
        },
{
    let ghost s = input@.skip(pos as int);
    let whole = scan(input, pos, CharClass::Digit);
    if whole > pos {
        if whole < input.len() && input[whole] == '.' {
            let end = scan(input, whole + 1, CharClass::Digit);
            proof {
                assert(s.skip(whole - pos + 1) == input@.skip(whole + 1));
            }
            Some(end)
        } else {
            Some(whole)
        }
    } else if pos < input.len() && input[pos] == '.' {
        let end = scan(input, pos + 1, CharClass::Digit);
        proof {
            assert(s.skip(1) == input@.skip(pos + 1));
        }
        if end > pos + 1 {
            Some(end)
        } else {
            None
        }
    } else {
        None
    }
}

/// The number at `pos`.
pub fn number_at(input: &[char], pos: usize) -> (r: NumberToken)
    requires
        pos <= input.len(),
    ensures
        match r {
            NumberToken::Found(end) => pos < end <= input.len() && number_scan(
                input@.skip(pos as int),
            ) == NumberScan::Found((end - pos) as nat),
            NumberToken::Missing => number_scan(input@.skip(pos as int)) == NumberScan::Missing,
            NumberToken::Broken(at) => pos < at <= input.len() && number_scan(
                input@.skip(pos as int),
            ) == NumberScan::Broken((at - pos) as nat),
        },
{
    let ghost s = input@.skip(pos as int);
    let start = sign_at(input, pos);
    proof {
        reveal(number_scan);
        assert(s.skip(start - pos) == input@.skip(start as int));
        reveal_strlit("nan");
        reveal_strlit("infinity");
        reveal_strlit("inf");
    }
    match mantissa_at(input, start) {
        Some(m) => {
            proof {
                assert(s.skip(start - pos).skip(m - start) == input@.skip(m as int));
            }
            if m < input.len() && (input[m] == 'e' || input[m] == 'E') {
                let digits = sign_at(input, m + 1);
                let end = scan(input, digits, CharClass::Digit);
                proof {
                    assert(input@.skip(m as int).skip(1) == input@.skip(m + 1));
                    assert(input@.skip(m as int).skip(digits - m) == input@.skip(digits as int));
                }
                if end > digits {
                    NumberToken::Found(end)
                } else {
                    NumberToken::Broken(digits)
                }
            } else {
                NumberToken::Found(m)
            }
        },
        None => {
            if word_at(input, pos, "nan") {
                NumberToken::Found(pos + 3)
            } else if word_at(input, start, "infinity") {
                NumberToken::Found(start + 8)
            } else if word_at(input, start, "inf") {
                NumberToken::Found(start + 3)
            } else {
                NumberToken::Missing
            }
        },
    }
}

/// What a decimal digit is worth; 0 for any other character.
pub open spec fn digit_value(c: char) -> nat {
    if '0' <= c && c <= '9' {
        (c as u32 - '0' as u32) as nat
    } else {
        0
    }
}

/// The number that the decimal digits `digits` write.
pub open spec fn decimal(digits: Seq<char>) -> nat
    decreases digits.len(),
{
    if digits.len() == 0 {
        0
    } else {
        decimal(digits.drop_last()) * 10 + digit_value(digits.last())
    }
}

/// The number of zeros that `digits` end in.
pub open spec fn zeros_after(digits: Seq<char>) -> nat
    decreases digits.len(),
{
    if digits.len() > 0 && digits.last() == '0' {
        1 + zeros_after(digits.drop_last())
    } else {
        0
    }
}

/// `digits` without the zeros at their two ends.
pub open spec fn significant(digits: Seq<char>) -> Seq<char> {
    let from = digits.skip(run_len(digits, CharClass::Zero) as int);
    from.take(from.len() - zeros_after(from))
}

/// The greatest power of ten that is told from infinity, and the least
/// that is told from zero.
pub const EXPONENT_LIMIT: i64 = 1_000_000_000;

/// The greatest power of ten that is told from infinity, and the least
/// that is told from zero.
pub open spec fn exponent_limit() -> int {
    EXPONENT_LIMIT as int
}

/// As far as the power of ten that an exponent writes is counted. A number
/// with a power beyond it is infinite or zero, whatever its digits are.
pub const POWER_CAP: i128 = 1_000_000_000_000_000_000_000_000_000_000;

/// The power `power`, as far as it is counted.
pub open spec fn capped(power: int) -> int {
    if power > POWER_CAP {
        POWER_CAP as int
    } else if power < -POWER_CAP {
        -POWER_CAP
    } else {
        power
    }
}

/// What a number is worth, in a form that every worth has once only.
pub ghost enum DecimalView {
    /// Not a number.
    NaN,
    /// Infinite, or beyond ten to the power of `exponent_limit()`.
    Infinite { negative: bool },
    /// Zero, or nearer to it than ten to the power of minus
    /// `exponent_limit()`.
    Zero,
    /// The digits `digits`, which neither start nor end with a zero, read
    /// as a fraction behind a decimal point, times ten to the power of
    /// `exponent`.
    Finite { negative: bool, digits: Seq<char>, exponent: int },
}

/// The digits of the mantissa of the number `s`, those before the decimal
/// point and those behind it, and the number of those before it.
pub open spec fn mantissa_digits(s: Seq<char>) -> (Seq<char>, nat) {
    let a = sign_len(s);
    let whole = run_len(s.skip(a as int), CharClass::Digit);
    let m = match mantissa_len(s.skip(a as int)) {
        Some(m) => m,
        None => 0,
    };
    let w = a + whole;
    (
        s.subrange(a as int, w as int) + if m > whole {
            s.subrange((w + 1) as int, (a + m) as int)
        } else {
            Seq::empty()
        },
        whole,
    )
}

/// What the exponent of the number `s` is worth, behind a mantissa that
/// ends before the place `at`: 0 where there is none.
pub open spec fn exponent_value(s: Seq<char>, at: nat) -> int {
    let x = s.skip(at as int);
    if x.len() > 0 && (x[0] == 'e' || x[0] == 'E') {
        let sign = sign_len(x.skip(1));
        let worth = decimal(x.skip((1 + sign) as int));
        if sign == 1 && x[1] == '-' {
            -worth
        } else {
            worth as int
        }
    } else {
        0
    }
}

/// What the digits `all` are worth, of which `whole` stand before the
/// decimal point, times ten to the power of `power`.
pub open spec fn digits_value(
    negative: bool,
    all: Seq<char>,
    whole: nat,
    power: int,
) -> DecimalView {
    let digits = significant(all);
    let exponent = whole - run_len(all, CharClass::Zero) + power;
    if digits.len() == 0 {
        DecimalView::Zero
    } else if exponent > exponent_limit() {
        DecimalView::Infinite { negative }
    } else if exponent < -exponent_limit() {
        DecimalView::Zero
    } else {
        DecimalView::Finite { negative, digits, exponent }
    }
}

/// What the number `s` is worth. A number with a mantissa is worth its
/// digits times the power of ten that the exponent gives; of the words,
/// `nan` is no number and the others are infinite.
pub open spec fn number_value(s: Seq<char>) -> DecimalView {
    let a = sign_len(s);
    let negative = a == 1 && s[0] == '-';
    match mantissa_len(s.skip(a as int)) {
        Some(m) => digits_value(
            negative,
            mantissa_digits(s).0,
            mantissa_digits(s).1,
            exponent_value(s, a + m),
        ),
        None => if starts_with_word(s, "nan"@) {
            DecimalView::NaN
        } else {
            DecimalView::Infinite { negative }
        },
    }
}

/// Whether the numbers `a` and `b` are worth the same.
pub open spec fn same_number(a: Seq<char>, b: Seq<char>) -> bool {
    number_value(a) == number_value(b)
}

/// The zeros that `digits` end in are among its digits, and what stands
/// before them is no zero.
pub proof fn lemma_zeros_after(digits: Seq<char>)
    ensures
        zeros_after(digits) <= digits.len(),
        zeros_after(digits) < digits.len() ==> digits[digits.len() - zeros_after(digits) - 1]
            != '0',
    decreases digits.len(),
{
    if digits.len() > 0 && digits.last() == '0' {
        let before = digits.drop_last();
        lemma_zeros_after(before);
        if zeros_after(before) < before.len() {
            assert(before[before.len() - zeros_after(before) - 1] == digits[digits.len()
                - zeros_after(digits) - 1]);
        }
    }
}

/// Digits without the zeros at their two ends neither start nor end with a
/// zero.
pub proof fn lemma_significant(all: Seq<char>)
    ensures
        significant(all).len() > 0 ==> significant(all).first() != '0' && significant(
            all,
        ).last() != '0',
{
    let lead = run_len(all, CharClass::Zero);
    lemma_run_len_bounds(all, CharClass::Zero);
    let from = all.skip(lead as int);
    lemma_zeros_after(from);
    if significant(all).len() > 0 {
        assert(significant(all).first() == all[lead as int]);
        assert(significant(all).last() == from[from.len() - zeros_after(from) - 1]);
    }
}

/// Every worth is written in one way: the digits of a finite number that is
/// no zero start and end with a digit that is no zero, and its power of
/// ten is within the limit.
pub proof fn lemma_number_value(s: Seq<char>)
    ensures
        match number_value(s) {
            DecimalView::Finite { negative, digits, exponent } => {
                &&& digits.len() > 0
                &&& digits.first() != '0'
                &&& digits.last() != '0'
                &&& -exponent_limit() <= exponent <= exponent_limit()
            },
            _ => true,
        },
{
    lemma_significant(mantissa_digits(s).0);
}

/// `digits` holds decimal digits and nothing else.
pub open spec fn is_digits(digits: Seq<char>) -> bool {
    forall|i: int| 0 <= i < digits.len() ==> CharClass::Digit.has(#[trigger] digits[i])
}

/// `digits` holds zeros and nothing else.
pub open spec fn is_zeros(digits: Seq<char>) -> bool {
    forall|i: int| 0 <= i < digits.len() ==> #[trigger] digits[i] == '0'
}

/// Digits alone are worth what they write.
pub proof fn lemma_value_of_digits(whole: Seq<char>)
    requires
        whole.len() > 0,
        is_digits(whole),
    ensures
        number_value(whole) == digits_value(false, whole, whole.len(), 0),
{
    assert(CharClass::Digit.has(whole[0]));
    assert(whole.skip(0) == whole);
    lemma_run_len_is(whole, CharClass::Digit, whole.len());
    assert(whole.subrange(0, whole.len() as int) == whole);
    assert(whole + Seq::<char>::empty() == whole);
    assert(whole.skip(whole.len() as int).len() == 0);
}

/// Digits that neither start nor end with a zero are what they are worth,
/// with as many powers of ten as there are digits.
pub proof fn lemma_value_of_trimmed(digits: Seq<char>)
    requires
        digits.len() > 0,
        is_digits(digits),
        digits.first() != '0',
        digits.last() != '0',
        digits.len() <= exponent_limit(),
    ensures
        number_value(digits) == (DecimalView::Finite {
            negative: false,
            digits,
            exponent: digits.len() as int,
        }),
{
    lemma_value_of_digits(digits);
    assert(run_len(digits, CharClass::Zero) == 0);
    assert(digits.skip(0) == digits);
    assert(zeros_after(digits) == 0);
    assert(digits.take(digits.len() as int) == digits);
}

/// Digits before and behind a decimal point are worth what the digits
/// write, with as many of them before the point as were written there.
pub proof fn lemma_value_of_fraction(whole: Seq<char>, fraction: Seq<char>)
    requires
        whole.len() > 0,
        is_digits(whole),
        is_digits(fraction),
    ensures
        number_value(whole + seq!['.'] + fraction) == digits_value(
            false,
            whole + fraction,
            whole.len(),
            0,
        ),
{
    let s = whole + seq!['.'] + fraction;
    let w = whole.len();
    assert(s[0] == whole[0]);
    assert(CharClass::Digit.has(whole[0]));
    assert(s.skip(0) == s);
    assert forall|i: int| 0 <= i < w implies CharClass::Digit.has(#[trigger] s[i]) by {
        assert(s[i] == whole[i]);
    }
    assert(s[w as int] == '.');
    lemma_run_len_is(s, CharClass::Digit, w);
    let behind = s.skip((w + 1) as int);
    assert(behind == fraction);
    lemma_run_len_is(behind, CharClass::Digit, fraction.len());
    assert(s.subrange(0, w as int) == whole);
    assert(s.subrange((w + 1) as int, s.len() as int) == fraction);
    assert(whole + Seq::<char>::empty() == whole);
    assert(fraction.len() == 0 ==> whole + fraction == whole);
    assert(s.skip(s.len() as int).len() == 0);
}

/// More zeros at the end are more zeros that the digits end in.
pub proof fn lemma_zeros_after_zeros(digits: Seq<char>, zeros: Seq<char>)
    requires
        is_zeros(zeros),
    ensures
        zeros_after(digits + zeros) == zeros_after(digits) + zeros.len(),
    decreases zeros.len(),
{
    if zeros.len() == 0 {
        assert(digits + zeros == digits);
    } else {
        let fewer = zeros.drop_last();
        assert((digits + zeros).drop_last() == digits + fewer);
        assert((digits + zeros).last() == zeros.last());
        lemma_zeros_after_zeros(digits, fewer);
    }
}

/// Zeros at the end of the digits change nothing where they stand behind
/// the decimal point, and stand for a power of ten each where they stand
/// before it.
pub proof fn lemma_zeros_behind(
    negative: bool,
    all: Seq<char>,
    zeros: Seq<char>,
    whole: nat,
    power: int,
)
    requires
        is_zeros(zeros),
    ensures
        digits_value(negative, all + zeros, whole, power) == digits_value(
            negative,
            all,
            whole,
            power,
        ),
        digits_value(negative, all + zeros, whole + zeros.len(), power) == digits_value(
            negative,
            all,
            whole,
            power + zeros.len(),
        ),
{
    let more = all + zeros;
    let lead = run_len(all, CharClass::Zero);
    lemma_run_len_bounds(all, CharClass::Zero);
    if lead == all.len() {
        assert forall|i: int| 0 <= i < more.len() implies CharClass::Zero.has(
            #[trigger] more[i],
        ) by {
            if i < all.len() {
                assert(more[i] == all[i]);
            } else {
                assert(more[i] == zeros[i - all.len()]);
            }
        }
        lemma_run_len_is(more, CharClass::Zero, more.len());
        assert(significant(more).len() == 0);
        assert(significant(all).len() == 0);
    } else {
        assert forall|i: int| 0 <= i < lead implies CharClass::Zero.has(#[trigger] more[i]) by {
            assert(more[i] == all[i]);
        }
        assert(more[lead as int] == all[lead as int]);
        lemma_run_len_is(more, CharClass::Zero, lead);
        let from = all.skip(lead as int);
        assert(more.skip(lead as int) == from + zeros);
        lemma_zeros_after_zeros(from, zeros);
        lemma_zeros_after(from);
        assert((from + zeros).take(from.len() - zeros_after(from)) == from.take(
            from.len() - zeros_after(from),
        ));
    }
}

/// Digits before an exponent without a sign are worth what the digits
/// write, times ten to the power that the exponent writes.
pub proof fn lemma_value_of_power(whole: Seq<char>, power: Seq<char>)
    requires
        whole.len() > 0,
        is_digits(whole),
        power.len() > 0,
        is_digits(power),
    ensures
        number_value(whole + seq!['e'] + power) == digits_value(
            false,
            whole,
            whole.len(),
            decimal(power) as int,
        ),
{
    let s = whole + seq!['e'] + power;
    let w = whole.len();
    assert(s[0] == whole[0]);
    assert(CharClass::Digit.has(whole[0]));
    assert(CharClass::Digit.has(power[0]));
    assert(s.skip(0) == s);
    assert forall|i: int| 0 <= i < w implies CharClass::Digit.has(#[trigger] s[i]) by {
        assert(s[i] == whole[i]);
    }
    assert(s[w as int] == 'e');
    lemma_run_len_is(s, CharClass::Digit, w);
    assert(s.subrange(0, w as int) == whole);
    assert(whole + Seq::<char>::empty() == whole);
    let x = s.skip(w as int);
    assert(x[0] == 'e');
    assert(x.skip(1) == power);
    assert(x.skip(1)[0] == power[0]);
}

/// A number is worth the same with a decimal point behind it, and with
/// zeros behind that: `100`, `100.` and `100.0` are the same.
pub proof fn lemma_same_with_zeros_behind(whole: Seq<char>, zeros: Seq<char>)
    requires
        whole.len() > 0,
        is_digits(whole),
        is_zeros(zeros),
    ensures
        same_number(whole, whole + seq!['.'] + zeros),
{
    lemma_value_of_digits(whole);
    lemma_value_of_fraction(whole, zeros);
    lemma_zeros_behind(false, whole, zeros, whole.len(), 0);
}

/// A number is worth the same with zeros at its end and with the
/// exponent that counts them: `100` and `1e2` are the same.
pub proof fn lemma_same_with_power(whole: Seq<char>, zeros: Seq<char>, power: Seq<char>)
    requires
        whole.len() > 0,
        is_digits(whole),
        is_zeros(zeros),
        power.len() > 0,
        is_digits(power),
        decimal(power) == zeros.len(),
    ensures
        same_number(whole + zeros, whole + seq!['e'] + power),
{
    assert forall|i: int| 0 <= i < (whole + zeros).len() implies CharClass::Digit.has(
        #[trigger] (whole + zeros)[i],
    ) by {
        if i < whole.len() {
            assert((whole + zeros)[i] == whole[i]);
        } else {
            assert((whole + zeros)[i] == zeros[i - whole.len()]);
        }
    }
    lemma_value_of_digits(whole + zeros);
    lemma_value_of_power(whole, power);
    lemma_zeros_behind(false, whole, zeros, whole.len(), 0);
}

/// What a number is worth, in a form that every worth has once only.
#[derive(Debug, PartialEq, Eq)]
pub enum Decimal {
    /// Not a number.
    NaN,
    /// Infinite, or too large to tell from it.
    Infinite { negative: bool },
    /// Zero, or too small to tell from it.
    Zero,
    /// The digits `digits`, read as a fraction behind a decimal point,
    /// times ten to the power of `exponent`.
    Finite { negative: bool, digits: Vec<char>, exponent: i64 },
}

impl View for Decimal {
    type V = DecimalView;

    open spec fn view(&self) -> DecimalView {
        match self {
            Decimal::NaN => DecimalView::NaN,
            Decimal::Infinite { negative } => DecimalView::Infinite { negative: *negative },
            Decimal::Zero => DecimalView::Zero,
            Decimal::Finite { negative, digits, exponent } => DecimalView::Finite {
                negative: *negative,
                digits: digits@,
                exponent: *exponent as int,
            },
        }
    }
}

/// Whether `a` and `b` hold the same characters.
fn same_chars(a: &Vec<char>, b: &Vec<char>) -> (r: bool)
    ensures
        r == (a@ == b@),
{
    if a.len() != b.len() {
        return false;
    }
    let mut i: usize = 0;
    while i < a.len()
        invariant
            i <= a.len(),
            a.len() == b.len(),
            forall|j: int| 0 <= j < i ==> a@[j] == b@[j],
        decreases a.len() - i,
    {
        if a[i] != b[i] {
            assert(a@[i as int] != b@[i as int]);
            return false;
        }
        i += 1;
    }
    assert(a@ =~= b@);
    true
}

impl Decimal {
    /// Whether the two are the same.
    pub fn same(&self, other: &Decimal) -> (r: bool)
        ensures
            r == (self@ == other@),
    {
        match (self, other) {
            (Decimal::NaN, Decimal::NaN) => true,
            (Decimal::Zero, Decimal::Zero) => true,
            (Decimal::Infinite { negative }, Decimal::Infinite { negative: n2 }) => *negative
                == *n2,
            (
                Decimal::Finite { negative, digits, exponent },
                Decimal::Finite { negative: n2, digits: d2, exponent: e2 },
            ) => {
                *negative == *n2 && *exponent == *e2 && same_chars(digits, d2)
            },
            _ => false,
        }
    }
}

/// What the exponent that starts at `at` is worth, as far as it is
/// counted.
fn exponent_at(input: &[char], at: usize) -> (r: i128)
    requires
        at <= input.len(),
    ensures
        r == capped(exponent_value(input@, at as nat)),
{
    let ghost x = input@.skip(at as int);
    if !(at < input.len() && (input[at] == 'e' || input[at] == 'E')) {
        return 0;
    }
    let from = sign_at(input, at + 1);
    let negative = from > at + 1 && input[at + 1] == '-';
    proof {
        assert(x.skip(1) == input@.skip(at + 1));
        assert(x.skip(from - at) == input@.skip(from as int));
        if from > at + 1 {
            assert(x[1] == input@[at + 1]);
        }
        assert(input@.subrange(from as int, from as int) =~= Seq::<char>::empty());
    }
    let mut acc: i128 = 0;
    let mut i: usize = from;
    while i < input.len()
        invariant
            from <= i <= input.len(),
            acc == capped(decimal(input@.subrange(from as int, i as int)) as int),
        decreases input.len() - i,
    {
        let c = input[i];
        let d: i128 = if c >= '0' && c <= '9' {
            (c as u32 - '0' as u32) as i128
        } else {
            0
        };
        proof {
            let upto = input@.subrange(from as int, i + 1);
            assert(upto.drop_last() == input@.subrange(from as int, i as int));
            assert(upto.last() == c);
        }
        acc = if acc * 10 + d > POWER_CAP {
            POWER_CAP
        } else {
            acc * 10 + d
        };
        i += 1;
    }
    proof {
        assert(input@.subrange(from as int, input.len() as int) == input@.skip(from as int));
    }
    if negative {
        -acc
    } else {
        acc
    }
}

/// Adds the characters of `input` from `from` up to `to` to `out`.
fn push_range(out: &mut Vec<char>, input: &[char], from: usize, to: usize)
    requires
        from <= to <= input.len(),
    ensures
        final(out)@ == old(out)@ + input@.subrange(from as int, to as int),
{
    let mut i: usize = from;
    assert(out@ =~= old(out)@ + input@.subrange(from as int, from as int));
    while i < to
        invariant
            from <= i <= to <= input.len(),
            out@ == old(out)@ + input@.subrange(from as int, i as int),
        decreases to - i,
    {
        out.push(input[i]);
        i += 1;
        assert(out@ =~= old(out)@ + input@.subrange(from as int, i as int));
    }
}

/// `all` without the zeros at its two ends, and the number of zeros that
/// it starts with.
fn trimmed(all: &[char]) -> (r: (Vec<char>, usize))
    ensures
        r.0@ == significant(all@),
        r.1 == run_len(all@, CharClass::Zero),
        r.1 <= all.len(),
{
    proof {
        assert(all@.skip(0) == all@);
    }
    let lead = scan(all, 0, CharClass::Zero);
    let ghost from = all@.skip(lead as int);
    let mut end: usize = all.len();
    proof {
        assert(all@.subrange(lead as int, end as int) == from);
    }
    while end > lead && all[end - 1] == '0'
        invariant
            lead <= end <= all.len(),
            from == all@.skip(lead as int),
            (all.len() - end) + zeros_after(all@.subrange(lead as int, end as int)) == zeros_after(
                from,
            ),
        decreases end,
    {
        proof {
            let cur = all@.subrange(lead as int, end as int);
            assert(cur.last() == all@[end - 1]);
            assert(cur.drop_last() == all@.subrange(lead as int, end - 1));
        }
        end -= 1;
    }
    proof {
        let cur = all@.subrange(lead as int, end as int);
        if end > lead {
            assert(cur.last() == all@[end - 1]);
        }
        assert(zeros_after(cur) == 0);
        assert(from.take(from.len() - zeros_after(from)) == cur);
    }
    let mut digits: Vec<char> = Vec::new();
    push_range(&mut digits, all, lead, end);
    assert(digits@ =~= all@.subrange(lead as int, end as int));
    (digits, lead)
}

/// The digits of the mantissa of `input`, which starts at `a`, has its
/// first digits up to `w` and ends at `m`.
fn mantissa_digits_at(input: &[char], a: usize, w: usize, m: usize) -> (all: Vec<char>)
    requires
        a <= w <= m <= input.len(),
    ensures
        all@ == input@.subrange(a as int, w as int) + if m > w {
            input@.subrange(w + 1, m as int)
        } else {
            Seq::empty()
        },
{
    let mut all: Vec<char> = Vec::new();
    push_range(&mut all, input, a, w);
    assert(all@ =~= input@.subrange(a as int, w as int));
    if m > w {
        push_range(&mut all, input, w + 1, m);
    } else {
        assert(all@ + Seq::<char>::empty() =~= all@);
    }
    all
}

/// What the digits `all` are worth, of which `whole` stand before the
/// decimal point, times ten to the power of `power`, which `worth` holds
/// as far as it is counted.
fn digits_worth(
    negative: bool,
    all: &[char],
    whole: usize,
    worth: i128,
    Ghost(power): Ghost<int>,
) -> (r: Decimal)
    requires
        worth == capped(power),
    ensures
        r@ == digits_value(negative, all@, whole as nat, power),
{
    let (digits, lead) = trimmed(all);
    if digits.len() == 0 {
        return Decimal::Zero;
    }
    let exponent: i128 = whole as i128 - lead as i128 + worth;
    if exponent > EXPONENT_LIMIT as i128 {
        Decimal::Infinite { negative }
    } else if exponent < -(EXPONENT_LIMIT as i128) {
        Decimal::Zero
    } else {
        Decimal::Finite { negative, digits, exponent: exponent as i64 }
    }
}

/// What the number `input` is worth.
pub fn decimal_of(input: &[char]) -> (r: Decimal)
    ensures
        r@ == number_value(input@),
{
    let a = sign_at(input, 0);
    proof {
        assert(input@.skip(0) == input@);
        reveal_strlit("nan");
    }
    let negative = a == 1 && input[0] == '-';
    let m = match mantissa_at(input, a) {
        Some(m) => m,
        None => {
            return if word_at(input, 0, "nan") {
                Decimal::NaN
            } else {
                Decimal::Infinite { negative }
            };
        },
    };
    let w = scan(input, a, CharClass::Digit);
    proof {
        lemma_run_len_bounds(input@.skip(a as int), CharClass::Digit);
    }
    let all = mantissa_digits_at(input, a, w, m);
    assert(all@ == mantissa_digits(input@).0);
    assert(mantissa_digits(input@).1 == w - a);
    let worth = exponent_at(input, m);
    digits_worth(negative, all.as_slice(), w - a, worth, Ghost(exponent_value(input@, m as nat)))
}

/// The digit that stands for a channel of eight bits, where one digit
/// behind the decimal point writes the channel's value divided by 255.
pub open spec fn byte_digit(byte: u8) -> Option<char> {
    if byte == 51 {
        Some('2')
    } else if byte == 102 {
        Some('4')
    } else if byte == 153 {
        Some('6')
    } else if byte == 204 {
        Some('8')
    } else {
        None
    }
}

/// What a channel of eight bits is worth, its value divided by 255, where
/// a decimal number can be worth the same: 255 is 3 times 5 times 17, so
/// only the multiples of 51 are, a fifth for each 51.
pub open spec fn byte_value(byte: u8) -> Option<DecimalView> {
    if byte == 0 {
        Some(DecimalView::Zero)
    } else if byte == 255 {
        Some(DecimalView::Finite { negative: false, digits: seq!['1'], exponent: 1 })
    } else {
        match byte_digit(byte) {
            Some(digit) => Some(
                DecimalView::Finite { negative: false, digits: seq![digit], exponent: 0 },
            ),
            None => None,
        }
    }
}

/// Whether the number `s` is worth what the channel `byte` is worth.
pub open spec fn same_as_byte(s: Seq<char>, byte: u8) -> bool {
    byte_value(byte) == Some(number_value(s))
}

/// A number, kept as the text of its literal.
#[derive(Debug, PartialEq, Eq)]
pub struct Number {
    text: String,
}

impl View for Number {
    type V = Seq<char>;

    /// The text of the literal.
    closed spec fn view(&self) -> Seq<char> {
        self.text@
    }
}

impl Number {
    #[verifier::type_invariant]
    spec fn well_formed(&self) -> bool {
        is_number(self.text@)
    }

    /// The number that `input[from..to]` is the literal of.
    pub fn from_chars(input: &[char], from: usize, to: usize) -> (r: Number)
        requires
            from <= to <= input.len(),
            is_number(input@.subrange(from as int, to as int)),
        ensures
            r@ == input@.subrange(from as int, to as int),
    {
        Number { text: to_text(input, from, to) }
    }

    /// The number that `text` is the literal of, if it is one.
    pub fn parse(text: &str) -> (r: Option<Number>)
        ensures
            match r {
                Some(n) => is_number(text@) && n@ == text@,
                None => !is_number(text@),
            },
    {
        let chars = to_chars(text);
        let input = chars.as_slice();
        proof {
            assert(input@.skip(0) == input@);
        }
        match number_at(input, 0) {
            NumberToken::Found(end) => {
                if end == input.len() {
                    proof {
                        assert(input@.subrange(0, end as int) == input@);
                    }
                    Some(Number::from_chars(input, 0, end))
                } else {
                    None
                }
            },
            _ => None,
        }
    }

    /// The number 1.
    pub fn one() -> (r: Number)
        ensures
            r@ == "1"@,
    {
        proof {
            reveal(number_scan);
            reveal_strlit("1");
            reveal_strlit("nan");
            reveal_strlit("infinity");
            reveal_strlit("inf");
            let s = "1"@;
            crate::chars::lemma_run_len_is(s, CharClass::Digit, 1);
            assert(s.skip(0) == s);
        }
        Number { text: String::from_str("1") }
    }

    /// The number 0.
    pub fn zero() -> (r: Number)
        ensures
            r@ == "0"@,
    {
        proof {
            reveal(number_scan);
            reveal_strlit("0");
            reveal_strlit("nan");
            reveal_strlit("infinity");
            reveal_strlit("inf");
            let s = "0"@;
            crate::chars::lemma_run_len_is(s, CharClass::Digit, 1);
            assert(s.skip(0) == s);
        }
        Number { text: String::from_str("0") }
    }

    /// What the number is worth.
    pub fn value(&self) -> (r: Decimal)
        ensures
            r@ == number_value(self@),
    {
        let chars = to_chars(self.text.as_str());
        decimal_of(chars.as_slice())
    }

    /// Whether the number is worth what the channel `byte` is worth, its
    /// value divided by 255.
    pub fn same_as_byte(&self, byte: u8) -> (r: bool)
        ensures
            r == same_as_byte(self@, byte),
    {
        match self.value() {
            Decimal::Zero => byte == 0,
            Decimal::Finite { negative, digits, exponent } => {
                if negative || digits.len() != 1 {
                    return false;
                }
                let digit = digits[0];
                assert(digits@ =~= seq![digit]);
                let byte_digit = if byte == 51 {
                    '2'
                } else if byte == 102 {
                    '4'
                } else if byte == 153 {
                    '6'
                } else if byte == 204 {
                    '8'
                } else {
                    return byte == 255 && digit == '1' && exponent == 1;
                };
                assert(seq![byte_digit][0] == byte_digit);
                digit == byte_digit && exponent == 0
            },
            _ => false,
        }
    }

    /// Whether the two numbers are worth the same, however they are
    /// written.
    pub fn same(&self, other: &Number) -> (r: bool)
        ensures
            r == same_number(self@, other@),
    {
        let a = self.value();
        let b = other.value();
        a.same(&b)
    }

    /// The text of the literal.
    pub fn as_str(&self) -> (r: &str)
        ensures
            r@ == self@,
            is_number(r@),
    {
        proof {
            use_type_invariant(self);
        }
        self.text.as_str()
    }
}

impl Clone for Number {
    fn clone(&self) -> (r: Number)
        ensures
            r@ == self@,
    {
        proof {
            use_type_invariant(self);
        }
        Number { text: self.text.clone() }
    }
}

} // verus!

//! Character classes of the stylesheet grammar, and the scanning primitives
//! that the parsers are built from.
//!
//! All parsers work on a slice of characters and a position in it. Their
//! meaning is given by functions on the part of the input that is still
//! unread, so that a position never occurs in a grammar rule.

use vstd::prelude::*;
use vstd::std_specs::iter::IteratorSpec;

verus! {

broadcast use vstd::string::group_string_axioms;

/// `n` where it fits in a `usize`, the largest `usize` otherwise.
pub open spec fn clip(n: nat) -> nat {
    if n <= usize::MAX {
        n
    } else {
        usize::MAX as nat
    }
}

/// An ASCII letter.
pub open spec fn is_alpha(c: char) -> bool {
    ('a' <= c && c <= 'z') || ('A' <= c && c <= 'Z')
}

/// An ASCII decimal digit.
pub open spec fn is_digit(c: char) -> bool {
    '0' <= c && c <= '9'
}

/// An ASCII hexadecimal digit.
pub open spec fn is_hex_digit(c: char) -> bool {
    is_digit(c) || ('a' <= c && c <= 'f') || ('A' <= c && c <= 'F')
}

/// A character with the Unicode property `White_Space`.
pub open spec fn is_whitespace(c: char) -> bool {
    ||| ('\u{9}' <= c && c <= '\u{d}')
    ||| c == ' '
    ||| c == '\u{85}'
    ||| c == '\u{a0}'
    ||| c == '\u{1680}'
    ||| ('\u{2000}' <= c && c <= '\u{200a}')
    ||| c == '\u{2028}'
    ||| c == '\u{2029}'
    ||| c == '\u{202f}'
    ||| c == '\u{205f}'
    ||| c == '\u{3000}'
}

/// The sets of characters that the grammar scans runs of.
#[derive(Clone, Copy, Debug)]
pub enum CharClass {
    /// ASCII letters.
    Alpha,
    /// ASCII decimal digits.
    Digit,
    /// The digit 0.
    Zero,
    /// ASCII hexadecimal digits.
    HexDigit,
    /// What may follow the first letter of a class name: letters, digits,
    /// `-` and `_`.
    Name,
    /// What may follow the first letter of an identifier: letters, digits
    /// and `_`.
    Ident,
    /// Space and tab.
    Blank,
    /// Space, tab, carriage return and line feed.
    Space,
    /// Everything but carriage return and line feed.
    Line,
    /// Characters with the Unicode property `White_Space`.
    Whitespace,
}

impl CharClass {
    /// Whether `c` belongs to the class.
    pub open spec fn has(self, c: char) -> bool {
        match self {
            CharClass::Alpha => is_alpha(c),
            CharClass::Digit => is_digit(c),
            CharClass::Zero => c == '0',
            CharClass::HexDigit => is_hex_digit(c),
            CharClass::Name => is_alpha(c) || is_digit(c) || c == '-' || c == '_',
            CharClass::Ident => is_alpha(c) || is_digit(c) || c == '_',
            CharClass::Blank => c == ' ' || c == '\t',
            CharClass::Space => c == ' ' || c == '\t' || c == '\r' || c == '\n',
            CharClass::Line => c != '\r' && c != '\n',
            CharClass::Whitespace => is_whitespace(c),
        }
    }

    /// Whether `c` belongs to the class.
    pub fn contains(self, c: char) -> (r: bool)
        ensures
            r == self.has(c),
    {
        let alpha = (c >= 'a' && c <= 'z') || (c >= 'A' && c <= 'Z');
        let digit = c >= '0' && c <= '9';
        match self {
            CharClass::Alpha => alpha,
            CharClass::Digit => digit,
            CharClass::Zero => c == '0',
            CharClass::HexDigit => digit || (c >= 'a' && c <= 'f') || (c >= 'A' && c <= 'F'),
            CharClass::Name => alpha || digit || c == '-' || c == '_',
            CharClass::Ident => alpha || digit || c == '_',
            CharClass::Blank => c == ' ' || c == '\t',
            CharClass::Space => c == ' ' || c == '\t' || c == '\r' || c == '\n',
            CharClass::Line => c != '\r' && c != '\n',
            CharClass::Whitespace => (c >= '\u{9}' && c <= '\u{d}') || c == ' ' || c == '\u{85}'
                || c == '\u{a0}' || c == '\u{1680}' || (c >= '\u{2000}' && c <= '\u{200a}') || c
                == '\u{2028}' || c == '\u{2029}' || c == '\u{202f}' || c == '\u{205f}' || c
                == '\u{3000}',
        }
    }
}

/// The length of the longest prefix of `s` made of characters of `class`.
pub open spec fn run_len(s: Seq<char>, class: CharClass) -> nat
    decreases s.len(),
{
    if s.len() > 0 && class.has(s[0]) {
        1 + run_len(s.skip(1), class)
    } else {
        0
    }
}

/// A run never exceeds what it is a run of, and ends at a character outside
/// the class.
pub proof fn lemma_run_len_bounds(s: Seq<char>, class: CharClass)
    ensures
        run_len(s, class) <= s.len(),
        forall|i: int| 0 <= i < run_len(s, class) ==> class.has(#[trigger] s[i]),
        run_len(s, class) < s.len() ==> !class.has(s[run_len(s, class) as int]),
    decreases s.len(),
{
    if s.len() > 0 && class.has(s[0]) {
        lemma_run_len_bounds(s.skip(1), class);
        assert forall|i: int| 0 <= i < run_len(s, class) implies class.has(#[trigger] s[i]) by {
            if i > 0 {
                assert(s[i] == s.skip(1)[i - 1]);
            }
        }
        if run_len(s, class) < s.len() {
            assert(s[run_len(s, class) as int] == s.skip(1)[run_len(s.skip(1), class) as int]);
        }
    }
}

/// A prefix of characters of the class, followed by the end or by a
/// character outside the class, is the run.
pub proof fn lemma_run_len_is(s: Seq<char>, class: CharClass, n: nat)
    requires
        n <= s.len(),
        forall|i: int| 0 <= i < n ==> class.has(#[trigger] s[i]),
        n < s.len() ==> !class.has(s[n as int]),
    ensures
        run_len(s, class) == n,
    decreases n,
{
    if n > 0 {
        assert(class.has(s[0]));
        assert forall|i: int| 0 <= i < n - 1 implies class.has(#[trigger] s.skip(1)[i]) by {
            assert(s.skip(1)[i] == s[i + 1]);
        }
        if n < s.len() {
            assert(s.skip(1)[n - 1] == s[n as int]);
        }
        lemma_run_len_is(s.skip(1), class, (n - 1) as nat);
    }
}

/// The run of a text that is cut off is the run of the text, cut off.
pub proof fn lemma_run_len_take(s: Seq<char>, class: CharClass, n: nat)
    requires
        n <= s.len(),
    ensures
        run_len(s.take(n as int), class) == if run_len(s, class) <= n {
            run_len(s, class)
        } else {
            n
        },
{
    lemma_run_len_bounds(s, class);
    let t = s.take(n as int);
    let k = if run_len(s, class) <= n {
        run_len(s, class)
    } else {
        n
    };
    assert forall|i: int| 0 <= i < k implies class.has(#[trigger] t[i]) by {
        assert(t[i] == s[i]);
    }
    if k < t.len() {
        assert(t[k as int] == s[k as int]);
    }
    lemma_run_len_is(t, class, k);
}

/// The end of the run of `class` that starts at `pos`.
pub fn scan(input: &[char], pos: usize, class: CharClass) -> (end: usize)
    requires
        pos <= input.len(),
    ensures
        pos <= end <= input.len(),
        end == pos + run_len(input@.skip(pos as int), class),
{
    let mut i: usize = pos;
    while i < input.len() && class.contains(input[i])
        invariant
            pos <= i <= input.len(),
            forall|j: int| pos <= j < i ==> class.has(#[trigger] input@[j]),
        decreases input.len() - i,
    {
        i += 1;
    }
    proof {
        let rest = input@.skip(pos as int);
        assert forall|j: int| 0 <= j < i - pos implies class.has(#[trigger] rest[j]) by {
            assert(rest[j] == input@[pos + j]);
        }
        lemma_run_len_is(rest, class, (i - pos) as nat);
    }
    i
}

/// Whether the text `lit` stands at `pos`.
pub fn starts_with(input: &[char], pos: usize, lit: &str) -> (r: bool)
    requires
        pos <= input.len(),
    ensures
        r == lit@.is_prefix_of(input@.skip(pos as int)),
{
    let n = lit.unicode_len();
    if n > input.len() - pos {
        return false;
    }
    let mut i: usize = 0;
    while i < n
        invariant
            i <= n,
            n == lit@.len(),
            pos + n <= input.len(),
            forall|j: int| 0 <= j < i ==> lit@[j] == input@[pos + j],
        decreases n - i,
    {
        if lit.get_char(i) != input[pos + i] {
            assert(input@.skip(pos as int)[i as int] != lit@[i as int]);
            return false;
        }
        i += 1;
    }
    assert(lit@ =~= input@.skip(pos as int).subrange(0, n as int));
    true
}

/// Whether `input` is the text `lit`.
pub fn is_text(input: &[char], lit: &str) -> (r: bool)
    ensures
        r == (input@ == lit@),
{
    let n = lit.unicode_len();
    if input.len() != n {
        return false;
    }
    proof {
        assert(input@.skip(0) == input@);
    }
    let r = starts_with(input, 0, lit);
    proof {
        if r {
            assert(input@.subrange(0, n as int) == input@);
        }
    }
    r
}

/// The characters of `s`, in order.
pub fn to_chars(s: &str) -> (r: Vec<char>)
    ensures
        r@ == s@,
{
    let mut out: Vec<char> = Vec::new();
    let mut it = s.chars();
    loop
        invariant
            out@ + it.remaining() == s@,
            it.obeys_prophetic_iter_laws(),
            it.decrease() is Some,
        ensures
            out@ == s@,
        decreases it.decrease()->0,
    {
        match it.next() {
            Some(c) => {
                out.push(c);
            },
            None => {
                assert(it.remaining().len() == 0);
                assert(out@ + it.remaining() == out@);
                break;
            },
        }
    }
    out
}

/// `String::push` appends one character.
pub assume_specification[ std::string::String::push ](s: &mut std::string::String, c: char)
    ensures
        final(s)@ == old(s)@.push(c),
;

/// The text made of the characters `input[from..to]`.
pub fn to_text(input: &[char], from: usize, to: usize) -> (r: String)
    requires
        from <= to <= input.len(),
    ensures
        r@ == input@.subrange(from as int, to as int),
{
    let mut out = String::new();
    let mut i: usize = from;
    while i < to
        invariant
            from <= i <= to <= input.len(),
            out@ == input@.subrange(from as int, i as int),
        decreases to - i,
    {
        out.push(input[i]);
        i += 1;
        assert(input@.subrange(from as int, i as int) == input@.subrange(from as int, i - 1).push(
            input@[i - 1],
        ));
    }
    out
}

/// The number of bytes that UTF-8 takes for `c`.
pub open spec fn utf8_width(c: char) -> nat {
    if c <= '\u{7f}' {
        1
    } else if c <= '\u{7ff}' {
        2
    } else if c <= '\u{ffff}' {
        3
    } else {
        4
    }
}

/// The number of bytes that UTF-8 takes for `s`.
pub open spec fn utf8_len(s: Seq<char>) -> nat
    decreases s.len(),
{
    if s.len() == 0 {
        0
    } else {
        utf8_len(s.drop_last()) + utf8_width(s.last())
    }
}

/// The byte offset, in the UTF-8 form of `input`, of the character at
/// `pos`; the largest `usize` where the offset does not fit.
pub fn byte_offset(input: &[char], pos: usize) -> (r: usize)
    requires
        pos <= input.len(),
    ensures
        r == clip(utf8_len(input@.take(pos as int))),
{
    let mut total: usize = 0;
    let mut i: usize = 0;
    while i < pos
        invariant
            i <= pos <= input.len(),
            total == clip(utf8_len(input@.take(i as int))),
        decreases pos - i,
    {
        let c = input[i];
        let width: usize = if c <= '\u{7f}' {
            1
        } else if c <= '\u{7ff}' {
            2
        } else if c <= '\u{ffff}' {
            3
        } else {
            4
        };
        proof {
            assert(input@.take(i + 1).drop_last() == input@.take(i as int));
            assert(input@.take(i + 1).last() == c);
        }
        total = if total > usize::MAX - width {
            usize::MAX
        } else {
            total + width
        };
        i += 1;
    }
    total
}

} // verus!

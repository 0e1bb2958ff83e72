//! The stylesheet grammar.
//!
//! ```text
//! stylesheet := (rule)* end
//! rule       := name '{' decl* block* '}'
//! block      := selector '{' decl* '}'
//! decl       := name ':' value ';'
//! value      := color | name | list | length | string
//! color      := '#' hexdigit{1,8} | space '(' number number number [number] ')'
//! list       := length (blank+ length){1,3}
//! length     := 'auto' | number [unit]
//! string     := '"' (char | '\\' | '\"' | '\n')* '"'
//! ```
//!
//! Whitespace and comments, which start with `//` and end with the line,
//! may stand between rules, around braces and after declarations; spaces,
//! tabs and line ends may stand around the colon, before the semicolon and
//! in the arguments of a colour.
//!
//! A rule of the grammar either reads something, finds nothing to read, or
//! fails for good. Where a rule finds nothing, another may be tried in its
//! place. A failure for good ends the parsing of the stylesheet: it comes
//! once a construct has started so that it can be nothing else.

use vstd::prelude::*;
use crate::chars::{
    byte_offset, clip, is_alpha, is_digit, lemma_run_len_bounds, run_len, scan, starts_with,
    to_chars, to_text, utf8_len, CharClass,
};
use crate::error::{
    Expected, Failure, FailureView, ParseError, ParseErrorKind, ParseErrorKindView,
    ParseErrorView,
};
use crate::number::{
    lemma_number_scan_take, number_at, number_scan, Number, NumberScan, NumberToken,
};
use crate::prop_value::{create_prop, declared, val_views, PropValue, PropValueView};
use crate::selector_parser::{selector, selector_parser};
use crate::style::{
    entry_view, entry_views, prop_views, SelectorEntry, SelectorEntryView, StyleProp,
    StylePropList, StylePropListView, StylePropView,
};
use crate::values::{Color, ColorView, Val, ValView};

verus! {

broadcast use vstd::string::group_string_axioms;

/// What a rule of the grammar makes of a text.
pub ghost enum Parsed<T> {
    /// It read a value from this many characters.
    Done(T, nat),
    /// It found nothing to read.
    Miss,
    /// It failed for good.
    Fail(FailureView),
}

impl<T> Parsed<T> {
    /// The same, seen from `n` characters further left.
    pub open spec fn shifted(self, n: nat) -> Parsed<T> {
        match self {
            Parsed::Done(v, k) => Parsed::Done(v, k + n),
            Parsed::Miss => Parsed::Miss,
            Parsed::Fail(f) => Parsed::Fail(f.shifted(n)),
        }
    }
}

/// What a parser makes of the input at a position.
#[derive(Debug)]
pub enum Outcome<T> {
    /// It read a value; the input goes on at this position.
    Done(T, usize),
    /// It found nothing to read.
    Miss,
    /// It failed for good.
    Fail(Failure),
}

impl<T> Outcome<T> {
    /// The outcome in mathematical terms, the value read seen through
    /// `view`.
    pub open spec fn lift<V>(self, view: spec_fn(T) -> V) -> Parsed<V> {
        match self {
            Outcome::Done(v, end) => Parsed::Done(view(v), end as nat),
            Outcome::Miss => Parsed::Miss,
            Outcome::Fail(f) => Parsed::Fail(f@),
        }
    }
}

/// The failure that `what` is missing at `at`.
pub open spec fn missing(at: nat, what: Expected) -> FailureView {
    FailureView { at, kind: ParseErrorKindView::Expected(what) }
}

/// The length of the whitespace and comments at the start of `s`.
#[verifier::opaque]
pub open spec fn whitespace_len(s: Seq<char>) -> nat
    decreases s.len(),
{
    if "//"@.is_prefix_of(s) {
        let n = 2 + run_len(s.skip(2), CharClass::Line);
        if n <= s.len() {
            n + whitespace_len(s.skip(n as int))
        } else {
            n
        }
    } else if s.len() > 0 && CharClass::Space.has(s[0]) {
        1 + whitespace_len(s.skip(1))
    } else {
        0
    }
}

/// What `whitespace_len` says where a comment, a whitespace character or
/// neither stands at the start of `s`.
proof fn lemma_whitespace_unfold(s: Seq<char>)
    ensures
        whitespace_len(s) <= s.len(),
        "//"@.is_prefix_of(s) ==> {
            let n = 2 + run_len(s.skip(2), CharClass::Line);
            n <= s.len() && whitespace_len(s) == n + whitespace_len(s.skip(n as int))
        },
        !"//"@.is_prefix_of(s) && s.len() > 0 && CharClass::Space.has(s[0]) ==> whitespace_len(s)
            == 1 + whitespace_len(s.skip(1)),
        !"//"@.is_prefix_of(s) && !(s.len() > 0 && CharClass::Space.has(s[0])) ==> whitespace_len(
            s,
        ) == 0,
    decreases s.len(),
{
    reveal(whitespace_len);
    reveal_strlit("//");
    if "//"@.is_prefix_of(s) {
        lemma_run_len_bounds(s.skip(2), CharClass::Line);
        let n = 2 + run_len(s.skip(2), CharClass::Line);
        lemma_whitespace_unfold(s.skip(n as int));
    } else if s.len() > 0 && CharClass::Space.has(s[0]) {
        lemma_whitespace_unfold(s.skip(1));
    }
}

/// The end of the whitespace and comments at `pos`.
pub fn whitespace(input: &[char], pos: usize) -> (end: usize)
    requires
        pos <= input.len(),
    ensures
        pos <= end <= input.len(),
        end == pos + whitespace_len(input@.skip(pos as int)),
{
    let mut i: usize = pos;
    loop
        invariant
            pos <= i <= input.len(),
            pos + whitespace_len(input@.skip(pos as int)) == i + whitespace_len(
                input@.skip(i as int),
            ),
        ensures
            pos <= i <= input.len(),
            i == pos + whitespace_len(input@.skip(pos as int)),
        decreases input.len() - i,
    {
        proof {
            lemma_whitespace_unfold(input@.skip(i as int));
        }
        if starts_with(input, i, "//") {
            proof {
                reveal_strlit("//");
                assert(input@.skip(i as int).skip(2) == input@.skip(i + 2));
            }
            let end = scan(input, i + 2, CharClass::Line);
            proof {
                assert(input@.skip(i as int).skip(end - i) == input@.skip(end as int));
            }
            i = end;
        } else if i < input.len() && CharClass::Space.contains(input[i]) {
            proof {
                assert(input@.skip(i as int).skip(1) == input@.skip(i + 1));
            }
            i += 1;
        } else {
            break;
        }
    }
    i
}

/// The length of the name at the start of `s`, if one stands there: a
/// letter, then letters, digits and `_`.
pub open spec fn name_len(s: Seq<char>) -> Option<nat> {
    if s.len() > 0 && is_alpha(s[0]) {
        Some(1 + run_len(s.skip(1), CharClass::Ident))
    } else {
        None
    }
}

/// The end of the name at `pos`, if one stands there.
pub fn prop_name(input: &[char], pos: usize) -> (r: Option<usize>)
    requires
        pos <= input.len(),
    ensures
        match r {
            Some(end) => pos < end <= input.len() && name_len(input@.skip(pos as int)) == Some(
                (end - pos) as nat,
            ),
            None => name_len(input@.skip(pos as int)) is None,
        },
{
    if pos < input.len() && CharClass::Alpha.contains(input[pos]) {
        proof {
            assert(input@.skip(pos as int).skip(1) == input@.skip(pos + 1));
        }
        Some(scan(input, pos + 1, CharClass::Ident))
    } else {
        None
    }
}

/// What a hexadecimal digit is worth.
pub open spec fn hex_value(c: char) -> nat {
    if is_digit(c) {
        (c as u32 - '0' as u32) as nat
    } else if 'a' <= c && c <= 'f' {
        (c as u32 - 'a' as u32 + 10) as nat
    } else {
        (c as u32 - 'A' as u32 + 10) as nat
    }
}

/// The channel that two hexadecimal digits give.
pub open spec fn hex_pair(high: char, low: char) -> u8 {
    (16 * hex_value(high) + hex_value(low)) as u8
}

/// The colour that hexadecimal digits give: three or four digits hold red,
/// green, blue and transparency with one digit each, which counts twice;
/// six or eight hold them with two digits each. A colour without
/// transparency is opaque.
pub open spec fn hex_color(digits: Seq<char>) -> Option<ColorView> {
    let d = digits;
    if d.len() == 3 {
        Some(
            ColorView::Rgba8 {
                red: hex_pair(d[0], d[0]),
                green: hex_pair(d[1], d[1]),
                blue: hex_pair(d[2], d[2]),
                alpha: 255,
            },
        )
    } else if d.len() == 4 {
        Some(
            ColorView::Rgba8 {
                red: hex_pair(d[0], d[0]),
                green: hex_pair(d[1], d[1]),
                blue: hex_pair(d[2], d[2]),
                alpha: hex_pair(d[3], d[3]),
            },
        )
    } else if d.len() == 6 {
        Some(
            ColorView::Rgba8 {
                red: hex_pair(d[0], d[1]),
                green: hex_pair(d[2], d[3]),
                blue: hex_pair(d[4], d[5]),
                alpha: 255,
            },
        )
    } else if d.len() == 8 {
        Some(
            ColorView::Rgba8 {
                red: hex_pair(d[0], d[1]),
                green: hex_pair(d[2], d[3]),
                blue: hex_pair(d[4], d[5]),
                alpha: hex_pair(d[6], d[7]),
            },
        )
    } else {
        None
    }
}

/// The number of hexadecimal digits that a colour takes from the start of
/// `s`: all of the run, but eight at most.
pub open spec fn hex_digits_len(s: Seq<char>) -> nat {
    if run_len(s, CharClass::HexDigit) <= 8 {
        run_len(s, CharClass::HexDigit)
    } else {
        8
    }
}

/// The colour in hexadecimal notation at the start of `s`: a `#` and the
/// digits after it, where they give a colour.
pub open spec fn hex_literal(s: Seq<char>) -> Parsed<ColorView> {
    if s.len() > 0 && s[0] == '#' {
        let n = hex_digits_len(s.skip(1));
        match hex_color(s.subrange(1, (1 + n) as int)) {
            Some(color) => Parsed::Done(color, 1 + n),
            None => Parsed::Miss,
        }
    } else {
        Parsed::Miss
    }
}

/// The channel that the hexadecimal digits `high` and `low` give.
fn hex_channel(high: char, low: char) -> (r: u8)
    requires
        CharClass::HexDigit.has(high),
        CharClass::HexDigit.has(low),
    ensures
        r == hex_pair(high, low),
{
    let h = hex_digit(high);
    let l = hex_digit(low);
    16 * h + l
}

/// What the hexadecimal digit `c` is worth.
fn hex_digit(c: char) -> (r: u8)
    requires
        CharClass::HexDigit.has(c),
    ensures
        r == hex_value(c),
        r < 16,
{
    if c >= '0' && c <= '9' {
        (c as u32 - '0' as u32) as u8
    } else if c >= 'a' && c <= 'f' {
        (c as u32 - 'a' as u32 + 10) as u8
    } else {
        (c as u32 - 'A' as u32 + 10) as u8
    }
}

/// The colour in hexadecimal notation at `pos`.
pub fn hex(input: &[char], pos: usize) -> (r: Outcome<Color>)
    requires
        pos <= input.len(),
    ensures
        r.lift(|c: Color| c@) == hex_literal(input@.skip(pos as int)).shifted(pos as nat),
        r matches Outcome::Done(_, end) ==> pos < end <= input.len(),
{
    if !(pos < input.len() && input[pos] == '#') {
        return Outcome::Miss;
    }
    let ghost s = input@.skip(pos as int);
    let run_end = scan(input, pos + 1, CharClass::HexDigit);
    let n = if run_end - (pos + 1) <= 8 {
        run_end - (pos + 1)
    } else {
        8
    };
    let d = pos + 1;
    proof {
        assert(s.skip(1) == input@.skip(pos + 1));
        lemma_run_len_bounds(s.skip(1), CharClass::HexDigit);
        assert forall|i: int| 0 <= i < n implies CharClass::HexDigit.has(
            #[trigger] input@[d + i],
        ) by {
            assert(s.skip(1)[i] == input@[d + i]);
        }
        let digits = s.subrange(1, 1 + n);
        assert forall|i: int| 0 <= i < n implies #[trigger] digits[i] == input@[d + i] by {}
    }
    if n == 3 {
        Outcome::Done(
            Color::Rgba8 {
                red: hex_channel(input[d], input[d]),
                green: hex_channel(input[d + 1], input[d + 1]),
                blue: hex_channel(input[d + 2], input[d + 2]),
                alpha: 255,
            },
            d + n,
        )
    } else if n == 4 {
        Outcome::Done(
            Color::Rgba8 {
                red: hex_channel(input[d], input[d]),
                green: hex_channel(input[d + 1], input[d + 1]),
                blue: hex_channel(input[d + 2], input[d + 2]),
                alpha: hex_channel(input[d + 3], input[d + 3]),
            },
            d + n,
        )
    } else if n == 6 {
        Outcome::Done(
            Color::Rgba8 {
                red: hex_channel(input[d], input[d + 1]),
                green: hex_channel(input[d + 2], input[d + 3]),
                blue: hex_channel(input[d + 4], input[d + 5]),
                alpha: 255,
            },
            d + n,
        )
    } else if n == 8 {
        Outcome::Done(
            Color::Rgba8 {
                red: hex_channel(input[d], input[d + 1]),
                green: hex_channel(input[d + 2], input[d + 3]),
                blue: hex_channel(input[d + 4], input[d + 5]),
                alpha: hex_channel(input[d + 6], input[d + 7]),
            },
            d + n,
        )
    } else {
        Outcome::Miss
    }
}

/// The colour spaces that a colour function can name.
#[derive(Clone, Copy, Debug, PartialEq, Eq, Structural)]
pub enum ColorSpace {
    /// Standard RGB: `rgb` and `rgba`.
    Rgb,
    /// Linear RGB: `rgb_linear` and `rgba_linear`.
    RgbLinear,
    /// Hue, saturation and lightness: `hsl` and `hsla`.
    Hsl,
}

impl ColorSpace {
    /// The colour of this space with the given channels.
    pub open spec fn color(
        self,
        first: Seq<char>,
        second: Seq<char>,
        third: Seq<char>,
        alpha: Seq<char>,
    ) -> ColorView {
        match self {
            ColorSpace::Rgb => ColorView::Rgba { red: first, green: second, blue: third, alpha },
            ColorSpace::RgbLinear => ColorView::RgbaLinear {
                red: first,
                green: second,
                blue: third,
                alpha,
            },
            ColorSpace::Hsl => ColorView::Hsla {
                hue: first,
                saturation: second,
                lightness: third,
                alpha,
            },
        }
    }

    /// The colour of this space with the given channels.
    pub fn make(self, first: Number, second: Number, third: Number, alpha: Number) -> (r: Color)
        ensures
            r@ == self.color(first@, second@, third@, alpha@),
    {
        match self {
            ColorSpace::Rgb => Color::Rgba { red: first, green: second, blue: third, alpha },
            ColorSpace::RgbLinear => Color::RgbaLinear {
                red: first,
                green: second,
                blue: third,
                alpha,
            },
            ColorSpace::Hsl => Color::Hsla {
                hue: first,
                saturation: second,
                lightness: third,
                alpha,
            },
        }
    }
}

/// The name of a colour function at the start of `s`, with its length. The
/// longest name that stands there is taken.
pub open spec fn color_fn_name(s: Seq<char>) -> Option<(ColorSpace, nat)> {
    if "rgba_linear"@.is_prefix_of(s) {
        Some((ColorSpace::RgbLinear, 11))
    } else if "rgb_linear"@.is_prefix_of(s) {
        Some((ColorSpace::RgbLinear, 10))
    } else if "rgba"@.is_prefix_of(s) {
        Some((ColorSpace::Rgb, 4))
    } else if "rgb"@.is_prefix_of(s) {
        Some((ColorSpace::Rgb, 3))
    } else if "hsla"@.is_prefix_of(s) {
        Some((ColorSpace::Hsl, 4))
    } else if "hsl"@.is_prefix_of(s) {
        Some((ColorSpace::Hsl, 3))
    } else {
        None
    }
}

/// The number that must stand at the start of `s`, as its text.
pub open spec fn channel(s: Seq<char>) -> Parsed<Seq<char>> {
    match number_scan(s) {
        NumberScan::Found(n) => Parsed::Done(s.take(n as int), n),
        NumberScan::Missing => Parsed::Fail(missing(0, Expected::Number)),
        NumberScan::Broken(at) => Parsed::Fail(missing(at, Expected::Digits)),
    }
}

/// The length of what separates two arguments at the start of `s`: spaces
/// and line ends, with a comma among them or not; with `slash`, a slash
/// may stand in place of the comma.
pub open spec fn arg_sep_len(s: Seq<char>, slash: bool) -> nat {
    let before = run_len(s, CharClass::Space);
    if before < s.len() && (s[before as int] == ',' || (slash && s[before as int] == '/')) {
        before + 1 + run_len(s.skip((before + 1) as int), CharClass::Space)
    } else {
        before
    }
}

/// The end of the arguments of a colour, from the place `p` behind the
/// last of them: spaces and line ends, and the closing parenthesis.
pub open spec fn color_end(
    s: Seq<char>,
    p: nat,
    space: ColorSpace,
    first: Seq<char>,
    second: Seq<char>,
    third: Seq<char>,
    alpha: Seq<char>,
) -> Parsed<ColorView> {
    let e = p + run_len(s.skip(p as int), CharClass::Space);
    if e < s.len() && s[e as int] == ')' {
        Parsed::Done(space.color(first, second, third, alpha), e + 1)
    } else {
        Parsed::Fail(missing(e, Expected::CloseParen))
    }
}

/// The transparency and the end of the arguments of a colour function,
/// from the place `p` behind the third number: a fourth number, which may
/// have a comma or a slash before it, or none and then 1.
pub open spec fn color_alpha(
    s: Seq<char>,
    p: nat,
    space: ColorSpace,
    first: Seq<char>,
    second: Seq<char>,
    third: Seq<char>,
) -> Parsed<ColorView> {
    let q = p + arg_sep_len(s.skip(p as int), true);
    match number_scan(s.skip(q as int)) {
        NumberScan::Found(n) => color_end(
            s,
            q + n,
            space,
            first,
            second,
            third,
            s.subrange(q as int, (q + n) as int),
        ),
        NumberScan::Missing => color_end(s, p, space, first, second, third, "1"@),
        NumberScan::Broken(at) => Parsed::Fail(missing(q + at, Expected::Digits)),
    }
}

/// The third number of a colour function, at the place `p`, and what
/// follows it.
pub open spec fn color_third(
    s: Seq<char>,
    p: nat,
    space: ColorSpace,
    first: Seq<char>,
    second: Seq<char>,
) -> Parsed<ColorView> {
    match channel(s.skip(p as int)) {
        Parsed::Done(third, n) => color_alpha(s, p + n, space, first, second, third),
        Parsed::Fail(f) => Parsed::Fail(f.shifted(p)),
        Parsed::Miss => Parsed::Miss,
    }
}

/// The second number of a colour function, at the place `p`, and what
/// follows it. A comma may stand between two numbers.
pub open spec fn color_second(s: Seq<char>, p: nat, space: ColorSpace, first: Seq<char>) -> Parsed<
    ColorView,
> {
    match channel(s.skip(p as int)) {
        Parsed::Done(second, n) => color_third(
            s,
            p + n + arg_sep_len(s.skip((p + n) as int), false),
            space,
            first,
            second,
        ),
        Parsed::Fail(f) => Parsed::Fail(f.shifted(p)),
        Parsed::Miss => Parsed::Miss,
    }
}

/// The arguments of a colour function at the start of `s`, behind the
/// opening parenthesis: three numbers and perhaps a fourth for
/// transparency.
pub open spec fn color_args(s: Seq<char>, space: ColorSpace) -> Parsed<ColorView> {
    let p = run_len(s, CharClass::Space);
    match channel(s.skip(p as int)) {
        Parsed::Done(first, n) => color_second(
            s,
            p + n + arg_sep_len(s.skip((p + n) as int), false),
            space,
            first,
        ),
        Parsed::Fail(f) => Parsed::Fail(f.shifted(p)),
        Parsed::Miss => Parsed::Miss,
    }
}

/// The colour function at the start of `s`: a name, an opening
/// parenthesis, and the arguments. Once the parenthesis is read, nothing
/// else can follow.
pub open spec fn color_function(s: Seq<char>) -> Parsed<ColorView> {
    match color_fn_name(s) {
        Some((space, n)) => {
            let p = n + run_len(s.skip(n as int), CharClass::Space);
            if p < s.len() && s[p as int] == '(' {
                color_args(s.skip((p + 1) as int), space).shifted(p + 1)
            } else {
                Parsed::Miss
            }
        },
        None => Parsed::Miss,
    }
}

/// The colour at the start of `s`.
pub open spec fn color_literal(s: Seq<char>) -> Parsed<ColorView> {
    if s.len() > 0 && s[0] == '#' {
        hex_literal(s)
    } else {
        color_function(s)
    }
}

/// The number that must stand at `pos`.
pub fn number_arg(input: &[char], pos: usize) -> (r: Outcome<Number>)
    requires
        pos <= input.len(),
    ensures
        r.lift(|n: Number| n@) == channel(input@.skip(pos as int)).shifted(pos as nat),
        r matches Outcome::Done(_, end) ==> pos < end <= input.len(),
{
    let ghost s = input@.skip(pos as int);
    match number_at(input, pos) {
        NumberToken::Found(end) => {
            proof {
                lemma_number_scan_take(s, (end - pos) as nat);
                assert(s.take(end - pos) == input@.subrange(pos as int, end as int));
            }
            Outcome::Done(Number::from_chars(input, pos, end), end)
        },
        NumberToken::Missing => Outcome::Fail(
            Failure { at: pos, kind: ParseErrorKind::Expected(Expected::Number) },
        ),
        NumberToken::Broken(at) => Outcome::Fail(
            Failure { at, kind: ParseErrorKind::Expected(Expected::Digits) },
        ),
    }
}

/// The end of what separates two arguments at `pos`: spaces and line ends,
/// with a comma among them or not.
pub fn color_arg_sep(input: &[char], pos: usize) -> (end: usize)
    requires
        pos <= input.len(),
    ensures
        pos <= end <= input.len(),
        end == pos + arg_sep_len(input@.skip(pos as int), false),
{
    let at = scan(input, pos, CharClass::Space);
    if at < input.len() && input[at] == ',' {
        proof {
            assert(input@.skip(pos as int).skip(at - pos + 1) == input@.skip(at + 1));
        }
        scan(input, at + 1, CharClass::Space)
    } else {
        at
    }
}

/// The end of what separates the transparency from the channels at `pos`:
/// spaces and line ends, with a comma or a slash among them or not.
pub fn alpha_sep(input: &[char], pos: usize) -> (end: usize)
    requires
        pos <= input.len(),
    ensures
        pos <= end <= input.len(),
        end == pos + arg_sep_len(input@.skip(pos as int), true),
{
    let at = scan(input, pos, CharClass::Space);
    if at < input.len() && (input[at] == ',' || input[at] == '/') {
        proof {
            assert(input@.skip(pos as int).skip(at - pos + 1) == input@.skip(at + 1));
        }
        scan(input, at + 1, CharClass::Space)
    } else {
        at
    }
}

/// The name of a colour function at `pos`, with the position behind it.
fn color_fn_at(input: &[char], pos: usize) -> (r: Option<(ColorSpace, usize)>)
    requires
        pos <= input.len(),
    ensures
        match r {
            Some((space, end)) => pos < end <= input.len() && color_fn_name(
                input@.skip(pos as int),
            ) == Some((space, (end - pos) as nat)),
            None => color_fn_name(input@.skip(pos as int)) is None,
        },
{
    proof {
        reveal_strlit("rgba_linear");
        reveal_strlit("rgb_linear");
        reveal_strlit("rgba");
        reveal_strlit("rgb");
        reveal_strlit("hsla");
        reveal_strlit("hsl");
    }
    if starts_with(input, pos, "rgba_linear") {
        Some((ColorSpace::RgbLinear, pos + 11))
    } else if starts_with(input, pos, "rgb_linear") {
        Some((ColorSpace::RgbLinear, pos + 10))
    } else if starts_with(input, pos, "rgba") {
        Some((ColorSpace::Rgb, pos + 4))
    } else if starts_with(input, pos, "rgb") {
        Some((ColorSpace::Rgb, pos + 3))
    } else if starts_with(input, pos, "hsla") {
        Some((ColorSpace::Hsl, pos + 4))
    } else if starts_with(input, pos, "hsl") {
        Some((ColorSpace::Hsl, pos + 3))
    } else {
        None
    }
}

/// The end of the arguments of a colour, from the position `p` behind the
/// last of them.
fn color_close(
    input: &[char],
    start: usize,
    p: usize,
    space: ColorSpace,
    first: Number,
    second: Number,
    third: Number,
    alpha: Number,
) -> (r: Outcome<Color>)
    requires
        start <= p <= input.len(),
    ensures
        r.lift(|c: Color| c@) == color_end(
            input@.skip(start as int),
            (p - start) as nat,
            space,
            first@,
            second@,
            third@,
            alpha@,
        ).shifted(start as nat),
        r matches Outcome::Done(_, end) ==> p < end <= input.len(),
{
    proof {
        assert(input@.skip(start as int).skip(p - start) == input@.skip(p as int));
    }
    let e = scan(input, p, CharClass::Space);
    if e < input.len() && input[e] == ')' {
        Outcome::Done(space.make(first, second, third, alpha), e + 1)
    } else {
        Outcome::Fail(Failure { at: e, kind: ParseErrorKind::Expected(Expected::CloseParen) })
    }
}

/// The transparency and the end of the arguments of a colour function,
/// from the position `p` behind the third number.
fn color_fn_alpha(
    input: &[char],
    start: usize,
    p: usize,
    space: ColorSpace,
    first: Number,
    second: Number,
    third: Number,
) -> (r: Outcome<Color>)
    requires
        start <= p <= input.len(),
    ensures
        r.lift(|c: Color| c@) == color_alpha(
            input@.skip(start as int),
            (p - start) as nat,
            space,
            first@,
            second@,
            third@,
        ).shifted(start as nat),
        r matches Outcome::Done(_, end) ==> p < end <= input.len(),
{
    let ghost s = input@.skip(start as int);
    proof {
        assert(s.skip(p - start) == input@.skip(p as int));
    }
    let q = alpha_sep(input, p);
    proof {
        assert(s.skip(q - start) == input@.skip(q as int));
    }
    match number_at(input, q) {
        NumberToken::Found(end) => {
            proof {
                lemma_number_scan_take(input@.skip(q as int), (end - q) as nat);
                assert(input@.skip(q as int).take(end - q) == input@.subrange(
                    q as int,
                    end as int,
                ));
                assert(s.subrange(q - start, end - start) == input@.subrange(
                    q as int,
                    end as int,
                ));
            }
            let alpha = Number::from_chars(input, q, end);
            color_close(input, start, end, space, first, second, third, alpha)
        },
        NumberToken::Missing => color_close(
            input,
            start,
            p,
            space,
            first,
            second,
            third,
            Number::one(),
        ),
        NumberToken::Broken(at) => Outcome::Fail(
            Failure { at, kind: ParseErrorKind::Expected(Expected::Digits) },
        ),
    }
}

/// The third number of a colour function, at the position `p`, and what
/// follows it.
fn color_fn_third(
    input: &[char],
    start: usize,
    p: usize,
    space: ColorSpace,
    first: Number,
    second: Number,
) -> (r: Outcome<Color>)
    requires
        start <= p <= input.len(),
    ensures
        r.lift(|c: Color| c@) == color_third(
            input@.skip(start as int),
            (p - start) as nat,
            space,
            first@,
            second@,
        ).shifted(start as nat),
        r matches Outcome::Done(_, end) ==> p < end <= input.len(),
{
    let ghost s = input@.skip(start as int);
    proof {
        assert(s.skip(p - start) == input@.skip(p as int));
    }
    match number_arg(input, p) {
        Outcome::Done(third, end) => color_fn_alpha(input, start, end, space, first, second, third),
        Outcome::Fail(f) => Outcome::Fail(f),
        Outcome::Miss => Outcome::Miss,
    }
}

/// The second number of a colour function, at the position `p`, and what
/// follows it.
fn color_fn_second(input: &[char], start: usize, p: usize, space: ColorSpace, first: Number) -> (r:
    Outcome<Color>)
    requires
        start <= p <= input.len(),
    ensures
        r.lift(|c: Color| c@) == color_second(
            input@.skip(start as int),
            (p - start) as nat,
            space,
            first@,
        ).shifted(start as nat),
        r matches Outcome::Done(_, end) ==> p < end <= input.len(),
{
    let ghost s = input@.skip(start as int);
    proof {
        assert(s.skip(p - start) == input@.skip(p as int));
    }
    match number_arg(input, p) {
        Outcome::Done(second, end) => {
            proof {
                assert(s.skip(end - start) == input@.skip(end as int));
            }
            let next = color_arg_sep(input, end);
            color_fn_third(input, start, next, space, first, second)
        },
        Outcome::Fail(f) => Outcome::Fail(f),
        Outcome::Miss => Outcome::Miss,
    }
}

/// The arguments of a colour function, behind the opening parenthesis at
/// `start`.
fn color_fn_args(input: &[char], start: usize, space: ColorSpace) -> (r: Outcome<Color>)
    requires
        start <= input.len(),
    ensures
        r.lift(|c: Color| c@) == color_args(input@.skip(start as int), space).shifted(
            start as nat,
        ),
        r matches Outcome::Done(_, end) ==> start < end <= input.len(),
{
    let ghost s = input@.skip(start as int);
    let p = scan(input, start, CharClass::Space);
    proof {
        assert(s.skip(p - start) == input@.skip(p as int));
    }
    match number_arg(input, p) {
        Outcome::Done(first, end) => {
            proof {
                assert(s.skip(end - start) == input@.skip(end as int));
            }
            let next = color_arg_sep(input, end);
            color_fn_second(input, start, next, space, first)
        },
        Outcome::Fail(f) => Outcome::Fail(f),
        Outcome::Miss => Outcome::Miss,
    }
}

/// The colour function at `pos`.
pub fn color_fn(input: &[char], pos: usize) -> (r: Outcome<Color>)
    requires
        pos <= input.len(),
    ensures
        r.lift(|c: Color| c@) == color_function(input@.skip(pos as int)).shifted(pos as nat),
        r matches Outcome::Done(_, end) ==> pos < end <= input.len(),
{
    let ghost s = input@.skip(pos as int);
    match color_fn_at(input, pos) {
        Some((space, end)) => {
            proof {
                assert(s.skip(end - pos) == input@.skip(end as int));
            }
            let p = scan(input, end, CharClass::Space);
            if p < input.len() && input[p] == '(' {
                proof {
                    assert(s.skip(p - pos + 1) == input@.skip(p + 1));
                }
                let r = color_fn_args(input, p + 1, space);
                proof {
                    let inner = color_args(input@.skip(p + 1), space);
                    assert(inner.shifted((p + 1) as nat) == inner.shifted(
                        (p - pos + 1) as nat,
                    ).shifted(pos as nat));
                }
                r
            } else {
                Outcome::Miss
            }
        },
        None => Outcome::Miss,
    }
}

/// The colour at `pos`.
pub fn color(input: &[char], pos: usize) -> (r: Outcome<Color>)
    requires
        pos <= input.len(),
    ensures
        r.lift(|c: Color| c@) == color_literal(input@.skip(pos as int)).shifted(pos as nat),
        r matches Outcome::Done(_, end) ==> pos < end <= input.len(),
{
    if pos < input.len() && input[pos] == '#' {
        hex(input, pos)
    } else {
        color_fn(input, pos)
    }
}

/// The unit at the start of `s`, applied to the number `n`, with its
/// length.
pub open spec fn unit(s: Seq<char>, n: Seq<char>) -> Option<(ValView, nat)> {
    if "%"@.is_prefix_of(s) {
        Some((ValView::Percent(n), 1))
    } else if "px"@.is_prefix_of(s) {
        Some((ValView::Px(n), 2))
    } else if "vh"@.is_prefix_of(s) {
        Some((ValView::Vh(n), 2))
    } else if "vw"@.is_prefix_of(s) {
        Some((ValView::Vw(n), 2))
    } else if "vmin"@.is_prefix_of(s) {
        Some((ValView::VMin(n), 4))
    } else if "vmax"@.is_prefix_of(s) {
        Some((ValView::VMax(n), 4))
    } else {
        None
    }
}

/// The length at the start of `s`: the word `auto`, a number with a unit,
/// or a number alone.
pub open spec fn length_value(s: Seq<char>) -> Parsed<PropValueView> {
    if "auto"@.is_prefix_of(s) {
        Parsed::Done(PropValueView::Length(ValView::Auto), 4)
    } else {
        match number_scan(s) {
            NumberScan::Found(n) => match unit(s.skip(n as int), s.take(n as int)) {
                Some((v, k)) => Parsed::Done(PropValueView::Length(v), n + k),
                None => Parsed::Done(PropValueView::Number(s.take(n as int)), n),
            },
            NumberScan::Missing => Parsed::Miss,
            NumberScan::Broken(at) => Parsed::Fail(missing(at, Expected::Digits)),
        }
    }
}

/// The length at the start of `s` as an item of a list: a number alone
/// counts as pixels.
pub open spec fn list_item(s: Seq<char>) -> Parsed<ValView> {
    match length_value(s) {
        Parsed::Done(PropValueView::Length(v), n) => Parsed::Done(v, n),
        Parsed::Done(PropValueView::Number(t), n) => Parsed::Done(ValView::Px(t), n),
        Parsed::Done(_, _) => Parsed::Miss,
        Parsed::Miss => Parsed::Miss,
        Parsed::Fail(f) => Parsed::Fail(f),
    }
}

/// The items that a list goes on with at the start of `s`, `budget` at
/// most: each one or more blanks and a length.
#[verifier::opaque]
pub open spec fn more_items(s: Seq<char>, budget: nat) -> Parsed<Seq<ValView>>
    decreases budget,
{
    let blanks = run_len(s, CharClass::Blank);
    if budget == 0 || blanks == 0 {
        Parsed::Done(Seq::empty(), 0)
    } else {
        match list_item(s.skip(blanks as int)) {
            Parsed::Done(v, n) => match more_items(
                s.skip((blanks + n) as int),
                (budget - 1) as nat,
            ) {
                Parsed::Done(vs, k) => Parsed::Done(seq![v] + vs, blanks + n + k),
                Parsed::Fail(f) => Parsed::Fail(f.shifted(blanks + n)),
                Parsed::Miss => Parsed::Miss,
            },
            Parsed::Miss => Parsed::Done(Seq::empty(), 0),
            Parsed::Fail(f) => Parsed::Fail(f.shifted(blanks)),
        }
    }
}

/// The list at the start of `s`: two to four lengths with blanks between.
pub open spec fn list_value(s: Seq<char>) -> Parsed<Seq<ValView>> {
    match list_item(s) {
        Parsed::Done(v, n) => match more_items(s.skip(n as int), 3) {
            Parsed::Done(vs, k) => if vs.len() >= 1 {
                Parsed::Done(seq![v] + vs, n + k)
            } else {
                Parsed::Miss
            },
            Parsed::Fail(f) => Parsed::Fail(f.shifted(n)),
            Parsed::Miss => Parsed::Miss,
        },
        Parsed::Miss => Parsed::Miss,
        Parsed::Fail(f) => Parsed::Fail(f),
    }
}

/// The unit at `pos`, with the position behind it.
fn unit_at(input: &[char], pos: usize, number: Number) -> (r: Result<(Val, usize), Number>)
    requires
        pos <= input.len(),
    ensures
        match r {
            Ok((v, end)) => pos < end <= input.len() && unit(input@.skip(pos as int), number@)
                == Some((v@, (end - pos) as nat)),
            Err(n) => n@ == number@ && unit(input@.skip(pos as int), number@) is None,
        },
{
    proof {
        reveal_strlit("%");
        reveal_strlit("px");
        reveal_strlit("vh");
        reveal_strlit("vw");
        reveal_strlit("vmin");
        reveal_strlit("vmax");
    }
    if starts_with(input, pos, "%") {
        Ok((Val::Percent(number), pos + 1))
    } else if starts_with(input, pos, "px") {
        Ok((Val::Px(number), pos + 2))
    } else if starts_with(input, pos, "vh") {
        Ok((Val::Vh(number), pos + 2))
    } else if starts_with(input, pos, "vw") {
        Ok((Val::Vw(number), pos + 2))
    } else if starts_with(input, pos, "vmin") {
        Ok((Val::VMin(number), pos + 4))
    } else if starts_with(input, pos, "vmax") {
        Ok((Val::VMax(number), pos + 4))
    } else {
        Err(number)
    }
}

/// The length at `pos`.
pub fn length(input: &[char], pos: usize) -> (r: Outcome<PropValue>)
    requires
        pos <= input.len(),
    ensures
        r.lift(|v: PropValue| v@) == length_value(input@.skip(pos as int)).shifted(pos as nat),
        r matches Outcome::Done(v, end) ==> pos < end <= input.len() && (v is Length
            || v is Number),
{
    let ghost s = input@.skip(pos as int);
    proof {
        reveal_strlit("auto");
    }
    if starts_with(input, pos, "auto") {
        return Outcome::Done(PropValue::Length(Val::Auto), pos + 4);
    }
    match number_at(input, pos) {
        NumberToken::Found(end) => {
            proof {
                lemma_number_scan_take(s, (end - pos) as nat);
                assert(s.take(end - pos) == input@.subrange(pos as int, end as int));
                assert(s.skip(end - pos) == input@.skip(end as int));
            }
            let number = Number::from_chars(input, pos, end);
            match unit_at(input, end, number) {
                Ok((v, after)) => Outcome::Done(PropValue::Length(v), after),
                Err(number) => Outcome::Done(PropValue::Number(number), end),
            }
        },
        NumberToken::Missing => Outcome::Miss,
        NumberToken::Broken(at) => Outcome::Fail(
            Failure { at, kind: ParseErrorKind::Expected(Expected::Digits) },
        ),
    }
}

/// The length at `pos` as an item of a list.
fn length_item(input: &[char], pos: usize) -> (r: Outcome<Val>)
    requires
        pos <= input.len(),
    ensures
        r.lift(|v: Val| v@) == list_item(input@.skip(pos as int)).shifted(pos as nat),
        r matches Outcome::Done(_, end) ==> pos < end <= input.len(),
{
    match length(input, pos) {
        Outcome::Done(PropValue::Length(v), end) => Outcome::Done(v, end),
        Outcome::Done(PropValue::Number(n), end) => Outcome::Done(Val::Px(n), end),
        Outcome::Done(_, _) => Outcome::Miss,
        Outcome::Miss => Outcome::Miss,
        Outcome::Fail(f) => Outcome::Fail(f),
    }
}

/// What `more_items` says, case by case.
proof fn lemma_more_items_unfold(s: Seq<char>, budget: nat)
    ensures
        ({
            let blanks = run_len(s, CharClass::Blank);
            if budget == 0 || blanks == 0 {
                more_items(s, budget) == Parsed::Done(Seq::<ValView>::empty(), 0)
            } else {
                match list_item(s.skip(blanks as int)) {
                    Parsed::Done(v, n) => match more_items(
                        s.skip((blanks + n) as int),
                        (budget - 1) as nat,
                    ) {
                        Parsed::Done(vs, k) => more_items(s, budget) == Parsed::Done(
                            seq![v] + vs,
                            blanks + n + k,
                        ),
                        Parsed::Fail(f) => more_items(s, budget) == Parsed::<Seq<ValView>>::Fail(
                            f.shifted(blanks + n),
                        ),
                        Parsed::Miss => more_items(s, budget) == Parsed::<Seq<ValView>>::Miss,
                    },
                    Parsed::Miss => more_items(s, budget) == Parsed::Done(
                        Seq::<ValView>::empty(),
                        0,
                    ),
                    Parsed::Fail(f) => more_items(s, budget) == Parsed::<Seq<ValView>>::Fail(
                        f.shifted(blanks),
                    ),
                }
            }
        }),
{
    reveal(more_items);
}

/// The list at `pos`: two to four lengths with blanks between.
pub fn length_list(input: &[char], pos: usize) -> (r: Outcome<Vec<Val>>)
    requires
        pos <= input.len(),
    ensures
        r.lift(|vs: Vec<Val>| val_views(vs@)) == list_value(input@.skip(pos as int)).shifted(
            pos as nat,
        ),
        r matches Outcome::Done(vs, end) ==> pos < end <= input.len() && 2 <= vs@.len() <= 4,
{
    let ghost s = input@.skip(pos as int);
    let (first, start) = match length_item(input, pos) {
        Outcome::Done(v, end) => (v, end),
        Outcome::Miss => {
            return Outcome::Miss;
        },
        Outcome::Fail(f) => {
            return Outcome::Fail(f);
        },
    };
    let ghost first_view = first@;
    let mut items: Vec<Val> = Vec::new();
    items.push(first);
    let mut i: usize = start;
    let mut budget: usize = 3;
    let ghost whole = more_items(input@.skip(start as int), 3);
    proof {
        assert(s.skip(start - pos) == input@.skip(start as int));
        assert(val_views(items@) =~= seq![first_view]);
    }
    loop
        invariant
            pos < start <= i <= input.len(),
            budget <= 3,
            items@.len() == 4 - budget,
            val_views(items@)[0] == first_view,
            whole == more_items(input@.skip(start as int), 3),
            list_item(input@.skip(pos as int)) == Parsed::Done(first_view, (start - pos) as nat),
            input@.skip(pos as int).skip(start - pos) == input@.skip(start as int),
            match more_items(input@.skip(i as int), budget as nat) {
                Parsed::Done(vs, k) => whole == Parsed::Done(
                    val_views(items@).skip(1) + vs,
                    ((i - start) + k) as nat,
                ),
                Parsed::Fail(f) => whole == Parsed::<Seq<ValView>>::Fail(
                    f.shifted((i - start) as nat),
                ),
                Parsed::Miss => whole == Parsed::<Seq<ValView>>::Miss,
            },
        ensures
            pos < start <= i <= input.len(),
            1 <= items@.len() <= 4,
            val_views(items@)[0] == first_view,
            whole == Parsed::Done(val_views(items@).skip(1), (i - start) as nat),
        decreases budget,
    {
        let ghost here = input@.skip(i as int);
        proof {
            lemma_more_items_unfold(here, budget as nat);
        }
        if budget == 0 {
            proof {
                assert(val_views(items@).skip(1) + Seq::<ValView>::empty() == val_views(
                    items@,
                ).skip(1));
            }
            break;
        }
        let at = scan(input, i, CharClass::Blank);
        if at == i {
            proof {
                assert(val_views(items@).skip(1) + Seq::<ValView>::empty() == val_views(
                    items@,
                ).skip(1));
            }
            break;
        }
        proof {
            assert(here.skip(at - i) == input@.skip(at as int));
        }
        match length_item(input, at) {
            Outcome::Done(v, end) => {
                proof {
                    assert(here.skip(end - i) == input@.skip(end as int));
                    let before = val_views(items@);
                    let after = val_views(items@.push(v));
                    assert(after =~= before.push(v@));
                    match more_items(input@.skip(end as int), (budget - 1) as nat) {
                        Parsed::Done(vs, k) => {
                            assert(before.skip(1) + (seq![v@] + vs) =~= after.skip(1) + vs);
                        },
                        _ => {},
                    }
                }
                items.push(v);
                i = end;
                budget -= 1;
            },
            Outcome::Miss => {
                proof {
                    assert(val_views(items@).skip(1) + Seq::<ValView>::empty() == val_views(
                        items@,
                    ).skip(1));
                }
                break;
            },
            Outcome::Fail(f) => {
                proof {
                    let rel = list_item(input@.skip(at as int))->Fail_0;
                    assert(f@ == rel.shifted(at as nat));
                    assert(more_items(here, budget as nat) == Parsed::<Seq<ValView>>::Fail(
                        rel.shifted((at - i) as nat),
                    ));
                    assert(rel.shifted((at - i) as nat).shifted((i - start) as nat).shifted(
                        (start - pos) as nat,
                    ).shifted(pos as nat) == f@);
                }
                return Outcome::Fail(f);
            },
        }
    }
    proof {
        assert(seq![first_view] + val_views(items@).skip(1) =~= val_views(items@));
    }
    if items.len() >= 2 {
        Outcome::Done(items, i)
    } else {
        Outcome::Miss
    }
}

/// The character that stands for itself or, behind a backslash, for
/// another: `\\` for a backslash, `\"` for a double quote, `\n` for a line
/// feed.
pub open spec fn escaped(c: char) -> Option<char> {
    if c == '\\' {
        Some('\\')
    } else if c == '"' {
        Some('"')
    } else if c == 'n' {
        Some('\n')
    } else {
        None
    }
}

/// The text of a string at the start of `s`, behind the opening quote, up
/// to a double quote or the end, with the number of characters that it is
/// written with; nothing where a backslash stands before a character that
/// it cannot escape.
#[verifier::opaque]
pub open spec fn string_body(s: Seq<char>) -> Option<(Seq<char>, nat)>
    decreases s.len(),
{
    if s.len() == 0 || s[0] == '"' {
        Some((Seq::empty(), 0))
    } else if s[0] == '\\' {
        if s.len() >= 2 && escaped(s[1]) is Some {
            match string_body(s.skip(2)) {
                Some((text, n)) => Some((seq![escaped(s[1])->0] + text, n + 2)),
                None => None,
            }
        } else {
            None
        }
    } else {
        match string_body(s.skip(1)) {
            Some((text, n)) => Some((seq![s[0]] + text, n + 1)),
            None => None,
        }
    }
}

/// The string at the start of `s`: a text between double quotes.
pub open spec fn string_value(s: Seq<char>) -> Parsed<Seq<char>> {
    if s.len() > 0 && s[0] == '"' {
        match string_body(s.skip(1)) {
            Some((text, n)) => if 1 + n < s.len() && s[(1 + n) as int] == '"' {
                Parsed::Done(text, n + 2)
            } else {
                Parsed::Miss
            },
            None => Parsed::Miss,
        }
    } else {
        Parsed::Miss
    }
}

/// What `string_body` says, case by case.
proof fn lemma_string_body_unfold(s: Seq<char>)
    ensures
        string_body(s) == if s.len() == 0 || s[0] == '"' {
            Some((Seq::<char>::empty(), 0nat))
        } else if s[0] == '\\' {
            if s.len() >= 2 && escaped(s[1]) is Some {
                match string_body(s.skip(2)) {
                    Some((text, n)) => Some((seq![escaped(s[1])->0] + text, n + 2)),
                    None => None,
                }
            } else {
                None
            }
        } else {
            match string_body(s.skip(1)) {
                Some((text, n)) => Some((seq![s[0]] + text, n + 1)),
                None => None,
            }
        },
{
    reveal(string_body);
}

/// The text of a string behind the opening quote at `pos`, with the
/// position of what ends it.
pub fn string_chars(input: &[char], pos: usize) -> (r: Option<(String, usize)>)
    requires
        pos <= input.len(),
    ensures
        match r {
            Some((text, end)) => pos <= end <= input.len() && string_body(
                input@.skip(pos as int),
            ) == Some((text@, (end - pos) as nat)),
            None => string_body(input@.skip(pos as int)) is None,
        },
{
    let mut out = String::new();
    let mut i: usize = pos;
    let ghost whole = string_body(input@.skip(pos as int));
    loop
        invariant
            pos <= i <= input.len(),
            whole == string_body(input@.skip(pos as int)),
            match string_body(input@.skip(i as int)) {
                Some((text, n)) => whole == Some((out@ + text, ((i - pos) + n) as nat)),
                None => whole is None,
            },
        ensures
            pos <= i <= input.len(),
            whole == Some((out@, (i - pos) as nat)),
        decreases input.len() - i,
    {
        let ghost here = input@.skip(i as int);
        proof {
            lemma_string_body_unfold(here);
        }
        if i >= input.len() || input[i] == '"' {
            proof {
                assert(out@ + Seq::<char>::empty() == out@);
            }
            break;
        }
        let c = input[i];
        if c == '\\' {
            if i + 1 >= input.len() {
                return None;
            }
            let e = input[i + 1];
            let plain = if e == '\\' {
                '\\'
            } else if e == '"' {
                '"'
            } else if e == 'n' {
                '\n'
            } else {
                return None;
            };
            proof {
                assert(here.skip(2) == input@.skip(i + 2));
                match string_body(input@.skip(i + 2)) {
                    Some((text, n)) => {
                        assert(out@ + (seq![plain] + text) =~= out@.push(plain) + text);
                    },
                    None => {},
                }
            }
            out.push(plain);
            i += 2;
        } else {
            proof {
                assert(here.skip(1) == input@.skip(i + 1));
                match string_body(input@.skip(i + 1)) {
                    Some((text, n)) => {
                        assert(out@ + (seq![c] + text) =~= out@.push(c) + text);
                    },
                    None => {},
                }
            }
            out.push(c);
            i += 1;
        }
    }
    Some((out, i))
}

/// The string at `pos`.
pub fn string(input: &[char], pos: usize) -> (r: Outcome<String>)
    requires
        pos <= input.len(),
    ensures
        r.lift(|t: String| t@) == string_value(input@.skip(pos as int)).shifted(pos as nat),
        r matches Outcome::Done(_, end) ==> pos < end <= input.len(),
{
    if !(pos < input.len() && input[pos] == '"') {
        return Outcome::Miss;
    }
    proof {
        assert(input@.skip(pos as int).skip(1) == input@.skip(pos + 1));
    }
    match string_chars(input, pos + 1) {
        Some((text, end)) => {
            if end < input.len() && input[end] == '"' {
                Outcome::Done(text, end + 1)
            } else {
                Outcome::Miss
            }
        },
        None => Outcome::Miss,
    }
}

/// The value at the start of `s`: a colour, a word, a list of lengths, a
/// length or a string, whichever is found first in this order.
pub open spec fn value(s: Seq<char>) -> Parsed<PropValueView> {
    match color_literal(s) {
        Parsed::Done(c, n) => Parsed::Done(PropValueView::Color(c), n),
        Parsed::Fail(f) => Parsed::Fail(f),
        Parsed::Miss => match name_len(s) {
            Some(n) => Parsed::Done(PropValueView::Ident(s.take(n as int)), n),
            None => match list_value(s) {
                Parsed::Done(vs, n) => Parsed::Done(PropValueView::List(vs), n),
                Parsed::Fail(f) => Parsed::Fail(f),
                Parsed::Miss => match length_value(s) {
                    Parsed::Done(v, n) => Parsed::Done(v, n),
                    Parsed::Fail(f) => Parsed::Fail(f),
                    Parsed::Miss => match string_value(s) {
                        Parsed::Done(t, n) => Parsed::Done(PropValueView::String(t), n),
                        Parsed::Fail(f) => Parsed::Fail(f),
                        Parsed::Miss => Parsed::Miss,
                    },
                },
            },
        },
    }
}

/// The word at `pos`, as a value.
pub fn ident(input: &[char], pos: usize) -> (r: Option<(PropValue, usize)>)
    requires
        pos <= input.len(),
    ensures
        match r {
            Some((v, end)) => pos < end <= input.len() && name_len(input@.skip(pos as int))
                == Some((end - pos) as nat) && v@ == PropValueView::Ident(
                input@.skip(pos as int).take(end - pos),
            ),
            None => name_len(input@.skip(pos as int)) is None,
        },
{
    match prop_name(input, pos) {
        Some(end) => {
            proof {
                assert(input@.skip(pos as int).take(end - pos) == input@.subrange(
                    pos as int,
                    end as int,
                ));
            }
            Some((PropValue::Ident(to_text(input, pos, end)), end))
        },
        None => None,
    }
}

/// The value at `pos`.
pub fn prop_value(input: &[char], pos: usize) -> (r: Outcome<PropValue>)
    requires
        pos <= input.len(),
    ensures
        r.lift(|v: PropValue| v@) == value(input@.skip(pos as int)).shifted(pos as nat),
        r matches Outcome::Done(v, end) ==> pos < end <= input.len() && v@.is_well_formed(),
{
    match color(input, pos) {
        Outcome::Done(c, end) => {
            return Outcome::Done(PropValue::Color(c), end);
        },
        Outcome::Fail(f) => {
            return Outcome::Fail(f);
        },
        Outcome::Miss => {},
    }
    match ident(input, pos) {
        Some((v, end)) => {
            return Outcome::Done(v, end);
        },
        None => {},
    }
    match length_list(input, pos) {
        Outcome::Done(vs, end) => {
            return Outcome::Done(PropValue::List(vs), end);
        },
        Outcome::Fail(f) => {
            return Outcome::Fail(f);
        },
        Outcome::Miss => {},
    }
    match length(input, pos) {
        Outcome::Done(v, end) => {
            return Outcome::Done(v, end);
        },
        Outcome::Fail(f) => {
            return Outcome::Fail(f);
        },
        Outcome::Miss => {},
    }
    match string(input, pos) {
        Outcome::Done(t, end) => Outcome::Done(PropValue::String(t), end),
        Outcome::Fail(f) => Outcome::Fail(f),
        Outcome::Miss => Outcome::Miss,
    }
}

/// The declaration at the start of `s`: a name, a colon, a value and a
/// semicolon, with spaces and line ends around the colon and before the
/// semicolon. Once the value is read, the semicolon must follow, and the
/// name and the value must make a style property.
pub open spec fn declaration(s: Seq<char>) -> Parsed<StylePropView> {
    match name_len(s) {
        Some(n0) => {
            let a = n0 + run_len(s.skip(n0 as int), CharClass::Space);
            if a < s.len() && s[a as int] == ':' {
                let p = a + 1 + run_len(s.skip((a + 1) as int), CharClass::Space);
                match value(s.skip(p as int)) {
                    Parsed::Done(v, n) => {
                        let q = p + n + run_len(s.skip((p + n) as int), CharClass::Space);
                        if q < s.len() && s[q as int] == ';' {
                            match declared(s.take(n0 as int), v) {
                                Ok(prop) => Parsed::Done(prop, q + 1),
                                Err(e) => Parsed::Fail(
                                    FailureView {
                                        at: q + 1,
                                        kind: ParseErrorKindView::Invalid(e),
                                    },
                                ),
                            }
                        } else {
                            Parsed::Fail(missing(q, Expected::Semicolon))
                        }
                    },
                    Parsed::Fail(f) => Parsed::Fail(f.shifted(p)),
                    Parsed::Miss => Parsed::Miss,
                }
            } else {
                Parsed::Miss
            }
        },
        None => Parsed::Miss,
    }
}

/// The declaration at the start of `s`, and the whitespace and comments
/// after it.
pub open spec fn spaced_declaration(s: Seq<char>) -> Parsed<StylePropView> {
    match declaration(s) {
        Parsed::Done(prop, n) => Parsed::Done(prop, n + whitespace_len(s.skip(n as int))),
        Parsed::Fail(f) => Parsed::Fail(f),
        Parsed::Miss => Parsed::Miss,
    }
}

/// The declarations at the start of `s`, as many as follow one another.
#[verifier::opaque]
pub open spec fn declarations(s: Seq<char>) -> Parsed<Seq<StylePropView>>
    decreases s.len(),
{
    match spaced_declaration(s) {
        Parsed::Done(prop, n) => {
            if 0 < n <= s.len() {
                match declarations(s.skip(n as int)) {
                    Parsed::Done(props, k) => Parsed::Done(seq![prop] + props, n + k),
                    Parsed::Fail(f) => Parsed::Fail(f.shifted(n)),
                    Parsed::Miss => Parsed::Miss,
                }
            } else {
                Parsed::Miss
            }
        },
        Parsed::Fail(f) => Parsed::Fail(f),
        Parsed::Miss => Parsed::Done(Seq::empty(), 0),
    }
}

/// The declaration at `pos`.
pub fn style_prop_inner(input: &[char], pos: usize) -> (r: Outcome<StyleProp>)
    requires
        pos <= input.len(),
    ensures
        r.lift(|p: StyleProp| p@) == declaration(input@.skip(pos as int)).shifted(pos as nat),
        r matches Outcome::Done(_, end) ==> pos < end <= input.len(),
{
    let ghost s = input@.skip(pos as int);
    let name_end = match prop_name(input, pos) {
        Some(end) => end,
        None => {
            return Outcome::Miss;
        },
    };
    proof {
        assert(s.skip(name_end - pos) == input@.skip(name_end as int));
    }
    let a = scan(input, name_end, CharClass::Space);
    if !(a < input.len() && input[a] == ':') {
        return Outcome::Miss;
    }
    proof {
        assert(s.skip(a - pos + 1) == input@.skip(a + 1));
    }
    let p = scan(input, a + 1, CharClass::Space);
    proof {
        assert(s.skip(p - pos) == input@.skip(p as int));
    }
    let (v, value_end) = match prop_value(input, p) {
        Outcome::Done(v, end) => (v, end),
        Outcome::Fail(f) => {
            proof {
                let rel = value(input@.skip(p as int))->Fail_0;
                assert(rel.shifted((p - pos) as nat).shifted(pos as nat) == f@);
            }
            return Outcome::Fail(f);
        },
        Outcome::Miss => {
            return Outcome::Miss;
        },
    };
    proof {
        assert(s.skip(value_end - pos) == input@.skip(value_end as int));
    }
    let q = scan(input, value_end, CharClass::Space);
    if !(q < input.len() && input[q] == ';') {
        return Outcome::Fail(
            Failure { at: q, kind: ParseErrorKind::Expected(Expected::Semicolon) },
        );
    }
    let name = to_text(input, pos, name_end);
    proof {
        assert(s.take(name_end - pos) == input@.subrange(pos as int, name_end as int));
    }
    match create_prop(name.as_str(), &v) {
        Ok(prop) => Outcome::Done(prop, q + 1),
        Err(e) => Outcome::Fail(Failure { at: q + 1, kind: ParseErrorKind::Invalid(e) }),
    }
}

/// The declaration at `pos`, and the whitespace and comments after it.
pub fn style_prop(input: &[char], pos: usize) -> (r: Outcome<StyleProp>)
    requires
        pos <= input.len(),
    ensures
        r.lift(|p: StyleProp| p@) == spaced_declaration(input@.skip(pos as int)).shifted(
            pos as nat,
        ),
        r matches Outcome::Done(_, end) ==> pos < end <= input.len(),
{
    match style_prop_inner(input, pos) {
        Outcome::Done(prop, end) => {
            proof {
                assert(input@.skip(pos as int).skip(end - pos) == input@.skip(end as int));
            }
            Outcome::Done(prop, whitespace(input, end))
        },
        Outcome::Fail(f) => Outcome::Fail(f),
        Outcome::Miss => Outcome::Miss,
    }
}

/// What `declarations` says, case by case.
proof fn lemma_declarations_unfold(s: Seq<char>)
    ensures
        declarations(s) == match spaced_declaration(s) {
            Parsed::Done(prop, n) => {
                if 0 < n <= s.len() {
                    match declarations(s.skip(n as int)) {
                        Parsed::Done(props, k) => Parsed::Done(seq![prop] + props, n + k),
                        Parsed::Fail(f) => Parsed::Fail(f.shifted(n)),
                        Parsed::Miss => Parsed::Miss,
                    }
                } else {
                    Parsed::Miss
                }
            },
            Parsed::Fail(f) => Parsed::Fail(f),
            Parsed::Miss => Parsed::Done(Seq::<StylePropView>::empty(), 0),
        },
{
    reveal(declarations);
}

/// The declarations at `pos`, as many as follow one another.
pub fn selector_prop_list_items(input: &[char], pos: usize) -> (r: Outcome<Vec<StyleProp>>)
    requires
        pos <= input.len(),
    ensures
        r.lift(|ps: Vec<StyleProp>| prop_views(ps@)) == declarations(
            input@.skip(pos as int),
        ).shifted(pos as nat),
        r matches Outcome::Done(_, end) ==> pos <= end <= input.len(),
        !(r is Miss),
{
    let mut props: Vec<StyleProp> = Vec::new();
    let mut i: usize = pos;
    let ghost whole = declarations(input@.skip(pos as int));
    proof {
        assert(prop_views(props@) =~= Seq::<StylePropView>::empty());
    }
    loop
        invariant
            pos <= i <= input.len(),
            whole == declarations(input@.skip(pos as int)),
            match declarations(input@.skip(i as int)) {
                Parsed::Done(ps, k) => whole == Parsed::Done(
                    prop_views(props@) + ps,
                    ((i - pos) + k) as nat,
                ),
                Parsed::Fail(f) => whole == Parsed::<Seq<StylePropView>>::Fail(
                    f.shifted((i - pos) as nat),
                ),
                Parsed::Miss => whole == Parsed::<Seq<StylePropView>>::Miss,
            },
        ensures
            pos <= i <= input.len(),
            whole == Parsed::Done(prop_views(props@), (i - pos) as nat),
        decreases input.len() - i,
    {
        let ghost here = input@.skip(i as int);
        proof {
            lemma_declarations_unfold(here);
        }
        match style_prop(input, i) {
            Outcome::Done(prop, end) => {
                proof {
                    assert(here.skip(end - i) == input@.skip(end as int));
                    let before = prop_views(props@);
                    let after = prop_views(props@.push(prop));
                    assert(after =~= before.push(prop@));
                    match declarations(input@.skip(end as int)) {
                        Parsed::Done(ps, k) => {
                            assert(before + (seq![prop@] + ps) =~= after + ps);
                        },
                        _ => {},
                    }
                }
                props.push(prop);
                i = end;
            },
            Outcome::Miss => {
                proof {
                    assert(prop_views(props@) + Seq::<StylePropView>::empty() == prop_views(
                        props@,
                    ));
                }
                break;
            },
            Outcome::Fail(f) => {
                proof {
                    let rel = spaced_declaration(here)->Fail_0;
                    assert(rel.shifted((i - pos) as nat).shifted(pos as nat) == f@);
                }
                return Outcome::Fail(f);
            },
        }
    }
    Outcome::Done(props, i)
}

/// The rest of a block from the place `p` behind its opening brace:
/// whitespace, declarations, and the closing brace, which must follow.
pub open spec fn block_body(s: Seq<char>, p: nat) -> Parsed<Seq<StylePropView>> {
    let b = p + whitespace_len(s.skip(p as int));
    match declarations(s.skip(b as int)) {
        Parsed::Done(props, k) => {
            let e = b + k;
            if e < s.len() && s[e as int] == '}' {
                Parsed::Done(props, e + 1)
            } else {
                Parsed::Fail(missing(e, Expected::CloseBrace))
            }
        },
        Parsed::Fail(f) => Parsed::Fail(f.shifted(b)),
        Parsed::Miss => Parsed::Miss,
    }
}

/// The selector block at the start of `s`: a selector, and between braces
/// the declarations that apply where it matches; then whitespace. Once the
/// opening brace is read, nothing else can follow.
pub open spec fn selector_block(s: Seq<char>) -> Parsed<SelectorEntryView> {
    let (sel, n) = selector(s);
    let a = n + whitespace_len(s.skip(n as int));
    if a < s.len() && s[a as int] == '{' {
        match block_body(s, a + 1) {
            Parsed::Done(props, e) => Parsed::Done(
                SelectorEntryView { selector: sel, props },
                e + whitespace_len(s.skip(e as int)),
            ),
            Parsed::Fail(f) => Parsed::Fail(f),
            Parsed::Miss => Parsed::Miss,
        }
    } else {
        Parsed::Miss
    }
}

/// The selector blocks at the start of `s`, as many as follow one
/// another.
#[verifier::opaque]
pub open spec fn selector_blocks(s: Seq<char>) -> Parsed<Seq<SelectorEntryView>>
    decreases s.len(),
{
    match selector_block(s) {
        Parsed::Done(entry, n) => {
            if 0 < n <= s.len() {
                match selector_blocks(s.skip(n as int)) {
                    Parsed::Done(entries, k) => Parsed::Done(seq![entry] + entries, n + k),
                    Parsed::Fail(f) => Parsed::Fail(f.shifted(n)),
                    Parsed::Miss => Parsed::Miss,
                }
            } else {
                Parsed::Miss
            }
        },
        Parsed::Fail(f) => Parsed::Fail(f),
        Parsed::Miss => Parsed::Done(Seq::empty(), 0),
    }
}

/// What stands between the braces of a rule, at the start of `s`: the
/// declarations that always apply, then the selector blocks.
pub open spec fn rule_items(s: Seq<char>) -> Parsed<StylePropListView> {
    match declarations(s) {
        Parsed::Done(props, n) => match selector_blocks(s.skip(n as int)) {
            Parsed::Done(selectors, k) => Parsed::Done(
                StylePropListView { props, selectors },
                n + k,
            ),
            Parsed::Fail(f) => Parsed::Fail(f.shifted(n)),
            Parsed::Miss => Parsed::Miss,
        },
        Parsed::Fail(f) => Parsed::Fail(f),
        Parsed::Miss => Parsed::Miss,
    }
}

/// The rule at the start of `s`: a name, and between braces what the style
/// of that name is made of. Once the opening brace is read, nothing else
/// can follow.
pub open spec fn rule(s: Seq<char>) -> Parsed<(Seq<char>, StylePropListView)> {
    match name_len(s) {
        Some(n) => {
            let a = n + whitespace_len(s.skip(n as int));
            if a < s.len() && s[a as int] == '{' {
                let b = a + 1 + whitespace_len(s.skip((a + 1) as int));
                match rule_items(s.skip(b as int)) {
                    Parsed::Done(list, k) => {
                        let e = b + k;
                        if e < s.len() && s[e as int] == '}' {
                            Parsed::Done((s.take(n as int), list), e + 1)
                        } else {
                            Parsed::Fail(missing(e, Expected::CloseBrace))
                        }
                    },
                    Parsed::Fail(f) => Parsed::Fail(f.shifted(b)),
                    Parsed::Miss => Parsed::Miss,
                }
            } else {
                Parsed::Miss
            }
        },
        None => Parsed::Miss,
    }
}

/// The rules at the start of `s`, as many as follow one another, with
/// whitespace and comments before each.
#[verifier::opaque]
pub open spec fn rules(s: Seq<char>) -> Parsed<Seq<(Seq<char>, StylePropListView)>>
    decreases s.len(),
{
    let w = whitespace_len(s);
    match rule(s.skip(w as int)) {
        Parsed::Done(r, n) => {
            if 0 < w + n <= s.len() {
                match rules(s.skip((w + n) as int)) {
                    Parsed::Done(rs, k) => Parsed::Done(seq![r] + rs, w + n + k),
                    Parsed::Fail(f) => Parsed::Fail(f.shifted(w + n)),
                    Parsed::Miss => Parsed::Miss,
                }
            } else {
                Parsed::Miss
            }
        },
        Parsed::Fail(f) => Parsed::Fail(f.shifted(w)),
        Parsed::Miss => Parsed::Done(Seq::empty(), 0),
    }
}

/// What a text means as a stylesheet: its rules, if rules are all that it
/// holds besides whitespace and comments; else the place where parsing
/// stopped, and why.
pub open spec fn sheet(s: Seq<char>) -> Result<Seq<(Seq<char>, StylePropListView)>, FailureView> {
    match rules(s) {
        Parsed::Done(rs, n) => {
            let e = n + whitespace_len(s.skip(n as int));
            if e == s.len() {
                Ok(rs)
            } else {
                Err(missing(e, Expected::End))
            }
        },
        Parsed::Fail(f) => Err(f),
        Parsed::Miss => Err(missing(0, Expected::End)),
    }
}

/// The value of a rule.
pub open spec fn rule_view(r: (String, StylePropList)) -> (Seq<char>, StylePropListView) {
    (r.0@, r.1@)
}

/// The values of a list of rules.
pub open spec fn rule_views(rs: Seq<(String, StylePropList)>) -> Seq<
    (Seq<char>, StylePropListView),
> {
    rs.map_values(|r: (String, StylePropList)| rule_view(r))
}

/// The rest of a block from the position `p` behind its opening brace.
fn block_props(input: &[char], start: usize, p: usize) -> (r: Outcome<Vec<StyleProp>>)
    requires
        start <= p <= input.len(),
    ensures
        r.lift(|ps: Vec<StyleProp>| prop_views(ps@)) == block_body(
            input@.skip(start as int),
            (p - start) as nat,
        ).shifted(start as nat),
        r matches Outcome::Done(_, end) ==> p < end <= input.len(),
{
    let ghost s = input@.skip(start as int);
    proof {
        assert(s.skip(p - start) == input@.skip(p as int));
    }
    let b = whitespace(input, p);
    proof {
        assert(s.skip(b - start) == input@.skip(b as int));
    }
    match selector_prop_list_items(input, b) {
        Outcome::Done(props, e) => {
            if e < input.len() && input[e] == '}' {
                Outcome::Done(props, e + 1)
            } else {
                Outcome::Fail(
                    Failure { at: e, kind: ParseErrorKind::Expected(Expected::CloseBrace) },
                )
            }
        },
        Outcome::Fail(f) => {
            proof {
                let rel = declarations(input@.skip(b as int))->Fail_0;
                assert(rel.shifted((b - start) as nat).shifted(start as nat) == f@);
            }
            Outcome::Fail(f)
        },
        Outcome::Miss => Outcome::Miss,
    }
}

/// The selector block at `pos`.
pub fn selector_entry(input: &[char], pos: usize) -> (r: Outcome<SelectorEntry>)
    requires
        pos <= input.len(),
    ensures
        r.lift(|e: SelectorEntry| entry_view(e)) == selector_block(
            input@.skip(pos as int),
        ).shifted(pos as nat),
        r matches Outcome::Done(_, end) ==> pos < end <= input.len(),
{
    let ghost s = input@.skip(pos as int);
    let (sel, n) = selector_parser(input, pos);
    proof {
        assert(s.skip(n - pos) == input@.skip(n as int));
    }
    let a = whitespace(input, n);
    if !(a < input.len() && input[a] == '{') {
        return Outcome::Miss;
    }
    match block_props(input, pos, a + 1) {
        Outcome::Done(props, e) => {
            proof {
                assert(s.skip(e - pos) == input@.skip(e as int));
            }
            Outcome::Done((sel, props), whitespace(input, e))
        },
        Outcome::Fail(f) => Outcome::Fail(f),
        Outcome::Miss => Outcome::Miss,
    }
}

/// What `selector_blocks` says, case by case.
proof fn lemma_selector_blocks_unfold(s: Seq<char>)
    ensures
        selector_blocks(s) == match selector_block(s) {
            Parsed::Done(entry, n) => {
                if 0 < n <= s.len() {
                    match selector_blocks(s.skip(n as int)) {
                        Parsed::Done(entries, k) => Parsed::Done(seq![entry] + entries, n + k),
                        Parsed::Fail(f) => Parsed::Fail(f.shifted(n)),
                        Parsed::Miss => Parsed::Miss,
                    }
                } else {
                    Parsed::Miss
                }
            },
            Parsed::Fail(f) => Parsed::Fail(f),
            Parsed::Miss => Parsed::Done(Seq::<SelectorEntryView>::empty(), 0),
        },
{
    reveal(selector_blocks);
}

/// The selector blocks at `pos`, as many as follow one another.
fn selector_entries(input: &[char], pos: usize) -> (r: Outcome<Vec<SelectorEntry>>)
    requires
        pos <= input.len(),
    ensures
        r.lift(|es: Vec<SelectorEntry>| entry_views(es@)) == selector_blocks(
            input@.skip(pos as int),
        ).shifted(pos as nat),
        r matches Outcome::Done(_, end) ==> pos <= end <= input.len(),
        !(r is Miss),
{
    let mut entries: Vec<SelectorEntry> = Vec::new();
    let mut i: usize = pos;
    let ghost whole = selector_blocks(input@.skip(pos as int));
    proof {
        assert(entry_views(entries@) =~= Seq::<SelectorEntryView>::empty());
    }
    loop
        invariant
            pos <= i <= input.len(),
            whole == selector_blocks(input@.skip(pos as int)),
            match selector_blocks(input@.skip(i as int)) {
                Parsed::Done(es, k) => whole == Parsed::Done(
                    entry_views(entries@) + es,
                    ((i - pos) + k) as nat,
                ),
                Parsed::Fail(f) => whole == Parsed::<Seq<SelectorEntryView>>::Fail(
                    f.shifted((i - pos) as nat),
                ),
                Parsed::Miss => whole == Parsed::<Seq<SelectorEntryView>>::Miss,
            },
        ensures
            pos <= i <= input.len(),
            whole == Parsed::Done(entry_views(entries@), (i - pos) as nat),
        decreases input.len() - i,
    {
        let ghost here = input@.skip(i as int);
        proof {
            lemma_selector_blocks_unfold(here);
        }
        match selector_entry(input, i) {
            Outcome::Done(entry, end) => {
                proof {
                    assert(here.skip(end - i) == input@.skip(end as int));
                    let before = entry_views(entries@);
                    let after = entry_views(entries@.push(entry));
                    assert(after =~= before.push(entry_view(entry)));
                    match selector_blocks(input@.skip(end as int)) {
                        Parsed::Done(es, k) => {
                            assert(before + (seq![entry_view(entry)] + es) =~= after + es);
                        },
                        _ => {},
                    }
                }
                entries.push(entry);
                i = end;
            },
            Outcome::Miss => {
                proof {
                    assert(entry_views(entries@) + Seq::<SelectorEntryView>::empty()
                        == entry_views(entries@));
                }
                break;
            },
            Outcome::Fail(f) => {
                proof {
                    let rel = selector_block(here)->Fail_0;
                    assert(rel.shifted((i - pos) as nat).shifted(pos as nat) == f@);
                }
                return Outcome::Fail(f);
            },
        }
    }
    Outcome::Done(entries, i)
}

/// What stands between the braces of a rule, at `pos`.
pub fn style_prop_list_items(input: &[char], pos: usize) -> (r: Outcome<StylePropList>)
    requires
        pos <= input.len(),
    ensures
        r.lift(|l: StylePropList| l@) == rule_items(input@.skip(pos as int)).shifted(pos as nat),
        r matches Outcome::Done(_, end) ==> pos <= end <= input.len(),
{
    let ghost s = input@.skip(pos as int);
    match selector_prop_list_items(input, pos) {
        Outcome::Done(props, n) => {
            proof {
                assert(s.skip(n - pos) == input@.skip(n as int));
            }
            match selector_entries(input, n) {
                Outcome::Done(selectors, end) => Outcome::Done(
                    StylePropList { props, selectors },
                    end,
                ),
                Outcome::Fail(f) => {
                    proof {
                        let rel = selector_blocks(input@.skip(n as int))->Fail_0;
                        assert(rel.shifted((n - pos) as nat).shifted(pos as nat) == f@);
                    }
                    Outcome::Fail(f)
                },
                Outcome::Miss => Outcome::Miss,
            }
        },
        Outcome::Fail(f) => Outcome::Fail(f),
        Outcome::Miss => Outcome::Miss,
    }
}

/// The rule at `pos`.
pub fn style_prop_list(input: &[char], pos: usize) -> (r: Outcome<(String, StylePropList)>)
    requires
        pos <= input.len(),
    ensures
        r.lift(|r: (String, StylePropList)| rule_view(r)) == rule(
            input@.skip(pos as int),
        ).shifted(pos as nat),
        r matches Outcome::Done(_, end) ==> pos < end <= input.len(),
{
    let ghost s = input@.skip(pos as int);
    let n = match prop_name(input, pos) {
        Some(end) => end,
        None => {
            return Outcome::Miss;
        },
    };
    proof {
        assert(s.skip(n - pos) == input@.skip(n as int));
    }
    let a = whitespace(input, n);
    if !(a < input.len() && input[a] == '{') {
        return Outcome::Miss;
    }
    proof {
        assert(s.skip(a - pos + 1) == input@.skip(a + 1));
    }
    let b = whitespace(input, a + 1);
    proof {
        assert(s.skip(b - pos) == input@.skip(b as int));
    }
    match style_prop_list_items(input, b) {
        Outcome::Done(list, e) => {
            if e < input.len() && input[e] == '}' {
                proof {
                    assert(s.take(n - pos) == input@.subrange(pos as int, n as int));
                }
                Outcome::Done((to_text(input, pos, n), list), e + 1)
            } else {
                Outcome::Fail(
                    Failure { at: e, kind: ParseErrorKind::Expected(Expected::CloseBrace) },
                )
            }
        },
        Outcome::Fail(f) => {
            proof {
                let rel = rule_items(input@.skip(b as int))->Fail_0;
                assert(rel.shifted((b - pos) as nat).shifted(pos as nat) == f@);
            }
            Outcome::Fail(f)
        },
        Outcome::Miss => Outcome::Miss,
    }
}

/// What `rules` says, case by case.
proof fn lemma_rules_unfold(s: Seq<char>)
    ensures
        rules(s) == ({
            let w = whitespace_len(s);
            match rule(s.skip(w as int)) {
                Parsed::Done(r, n) => {
                    if 0 < w + n <= s.len() {
                        match rules(s.skip((w + n) as int)) {
                            Parsed::Done(rs, k) => Parsed::Done(seq![r] + rs, w + n + k),
                            Parsed::Fail(f) => Parsed::Fail(f.shifted(w + n)),
                            Parsed::Miss => Parsed::Miss,
                        }
                    } else {
                        Parsed::Miss
                    }
                },
                Parsed::Fail(f) => Parsed::Fail(f.shifted(w)),
                Parsed::Miss => Parsed::Done(Seq::<(Seq<char>, StylePropListView)>::empty(), 0),
            }
        }),
{
    reveal(rules);
}

/// The rules of the stylesheet `input`.
pub fn stylesheet(input: &[char]) -> (r: Result<Vec<(String, StylePropList)>, Failure>)
    ensures
        match r {
            Ok(rs) => sheet(input@) == Ok::<Seq<(Seq<char>, StylePropListView)>, FailureView>(
                rule_views(rs@),
            ),
            Err(f) => sheet(input@) == Err::<Seq<(Seq<char>, StylePropListView)>, FailureView>(
                f@,
            ),
        },
{
    let mut found: Vec<(String, StylePropList)> = Vec::new();
    let mut i: usize = 0;
    let ghost whole = rules(input@);
    proof {
        assert(input@.skip(0) == input@);
        assert(rule_views(found@) =~= Seq::<(Seq<char>, StylePropListView)>::empty());
    }
    loop
        invariant
            i <= input.len(),
            whole == rules(input@),
            match rules(input@.skip(i as int)) {
                Parsed::Done(rs, k) => whole == Parsed::Done(
                    rule_views(found@) + rs,
                    (i + k) as nat,
                ),
                Parsed::Fail(f) => whole == Parsed::<Seq<(Seq<char>, StylePropListView)>>::Fail(
                    f.shifted(i as nat),
                ),
                Parsed::Miss => whole == Parsed::<Seq<(Seq<char>, StylePropListView)>>::Miss,
            },
        ensures
            i <= input.len(),
            whole == rules(input@),
            whole == Parsed::Done(rule_views(found@), i as nat),
        decreases input.len() - i,
    {
        let ghost here = input@.skip(i as int);
        proof {
            lemma_rules_unfold(here);
        }
        let w = whitespace(input, i);
        proof {
            assert(here.skip(w - i) == input@.skip(w as int));
        }
        match style_prop_list(input, w) {
            Outcome::Done(r, end) => {
                proof {
                    assert(here.skip(end - i) == input@.skip(end as int));
                    let before = rule_views(found@);
                    let after = rule_views(found@.push(r));
                    assert(after =~= before.push(rule_view(r)));
                    match rules(input@.skip(end as int)) {
                        Parsed::Done(rs, k) => {
                            assert(before + (seq![rule_view(r)] + rs) =~= after + rs);
                        },
                        _ => {},
                    }
                }
                found.push(r);
                i = end;
            },
            Outcome::Miss => {
                proof {
                    assert(rule_views(found@) + Seq::<(Seq<char>, StylePropListView)>::empty()
                        == rule_views(found@));
                }
                break;
            },
            Outcome::Fail(f) => {
                proof {
                    let rel = rule(input@.skip(w as int))->Fail_0;
                    assert(rel.shifted((w - i) as nat).shifted(i as nat) == f@);
                }
                return Err(f);
            },
        }
    }
    let e = whitespace(input, i);
    if e == input.len() {
        Ok(found)
    } else {
        Err(Failure { at: e, kind: ParseErrorKind::Expected(Expected::End) })
    }
}

/// What a text means as a stylesheet: its rules, each a name and the style
/// of that name, in the order of the text; or the error that parsing ended
/// in, with the byte offset in the text at which it stopped.
pub open spec fn parse(text: Seq<char>) -> Result<
    Seq<(Seq<char>, StylePropListView)>,
    ParseErrorView,
> {
    match sheet(text) {
        Ok(rs) => Ok(rs),
        Err(f) => Err(
            ParseErrorView {
                offset: if f.at <= text.len() {
                    clip(utf8_len(text.take(f.at as int)))
                } else {
                    clip(utf8_len(text))
                },
                kind: f.kind,
            },
        ),
    }
}

/// Parses a stylesheet.
pub fn parse_stylesheet(input: &str) -> (r: Result<Vec<(String, StylePropList)>, ParseError>)
    ensures
        match r {
            Ok(rs) => parse(input@) == Ok::<Seq<(Seq<char>, StylePropListView)>, ParseErrorView>(
                rule_views(rs@),
            ),
            Err(e) => parse(input@) == Err::<Seq<(Seq<char>, StylePropListView)>, ParseErrorView>(
                e@,
            ),
        },
{
    let chars = to_chars(input);
    let text = chars.as_slice();
    match stylesheet(text) {
        Ok(rs) => Ok(rs),
        Err(f) => {
            let at = if f.at <= text.len() {
                f.at
            } else {
                text.len()
            };
            proof {
                assert(text@.take(text.len() as int) == text@);
            }
            Err(ParseError { offset: byte_offset(text, at), kind: f.kind })
        },
    }
}

} // verus!

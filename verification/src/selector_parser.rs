//! The selector grammar.
//!
//! ```text
//! selector := desc (',' desc)*
//! desc     := combo ('>' combo)*
//! combo    := ['&' | '*'] (class | pseudo)*
//! class    := '.' letter (letter | digit | '-' | '_')*
//! pseudo   := ':hover' | ':focus' | ':focus-within' | ':focus-visible'
//!           | ':first-child' | ':last-child'
//! ```
//!
//! Spaces and tabs may stand around `>` and `,`. A selector is built from its
//! text left to right: every class, pseudo-class, `&` and `>` wraps what was
//! read before it, so the rightmost term ends up outermost.

use vstd::prelude::*;
use crate::chars::{
    byte_offset, clip, is_alpha, lemma_run_len_bounds, run_len, scan, starts_with, to_chars,
    to_text, utf8_len, CharClass,
};
use crate::error::{Expected, ParseError, ParseErrorKind, ParseErrorKindView, ParseErrorView};
use crate::selector::{Selector, SelectorView};

verus! {

broadcast use vstd::string::group_string_axioms;

/// One class or pseudo-class of a compound selector.
pub enum SelectorToken {
    Class(String),
    Hover,
    FirstChild,
    LastChild,
    Focus,
    FocusWithin,
    FocusVisible,
}

/// The mathematical value of a [`SelectorToken`].
pub ghost enum TokenView {
    Class(Seq<char>),
    Hover,
    FirstChild,
    LastChild,
    Focus,
    FocusWithin,
    FocusVisible,
}

impl View for SelectorToken {
    type V = TokenView;

    open spec fn view(&self) -> TokenView {
        match self {
            SelectorToken::Class(name) => TokenView::Class(name@),
            SelectorToken::Hover => TokenView::Hover,
            SelectorToken::FirstChild => TokenView::FirstChild,
            SelectorToken::LastChild => TokenView::LastChild,
            SelectorToken::Focus => TokenView::Focus,
            SelectorToken::FocusWithin => TokenView::FocusWithin,
            SelectorToken::FocusVisible => TokenView::FocusVisible,
        }
    }
}

impl TokenView {
    /// The selector that tests this token and then goes on with `inner`.
    pub open spec fn wrap(self, inner: SelectorView) -> SelectorView {
        match self {
            TokenView::Class(name) => SelectorView::Class(name, Box::new(inner)),
            TokenView::Hover => SelectorView::Hover(Box::new(inner)),
            TokenView::FirstChild => SelectorView::FirstChild(Box::new(inner)),
            TokenView::LastChild => SelectorView::LastChild(Box::new(inner)),
            TokenView::Focus => SelectorView::Focus(Box::new(inner)),
            TokenView::FocusWithin => SelectorView::FocusWithin(Box::new(inner)),
            TokenView::FocusVisible => SelectorView::FocusVisible(Box::new(inner)),
        }
    }
}

impl SelectorToken {
    /// The selector that tests this token and then goes on with `inner`.
    pub fn wrap(self, inner: Box<Selector>) -> (r: Box<Selector>)
        ensures
            r@ == self@.wrap(inner@),
    {
        match self {
            SelectorToken::Class(name) => Box::new(Selector::Class(name, inner)),
            SelectorToken::Hover => Box::new(Selector::Hover(inner)),
            SelectorToken::FirstChild => Box::new(Selector::FirstChild(inner)),
            SelectorToken::LastChild => Box::new(Selector::LastChild(inner)),
            SelectorToken::Focus => Box::new(Selector::Focus(inner)),
            SelectorToken::FocusWithin => Box::new(Selector::FocusWithin(inner)),
            SelectorToken::FocusVisible => Box::new(Selector::FocusVisible(inner)),
        }
    }
}

/// The class token at the start of `s`, with its length: a dot, a letter,
/// and the longest run of name characters.
pub open spec fn class_token(s: Seq<char>) -> Option<(TokenView, nat)> {
    if s.len() >= 2 && s[0] == '.' && is_alpha(s[1]) {
        let n = 2 + run_len(s.skip(2), CharClass::Name);
        Some((TokenView::Class(s.subrange(1, n as int)), n))
    } else {
        None
    }
}

/// The pseudo-class at the start of `s`, with its length. The longest
/// name that stands there is taken.
pub open spec fn pseudo_token(s: Seq<char>) -> Option<(TokenView, nat)> {
    if ":hover"@.is_prefix_of(s) {
        Some((TokenView::Hover, ":hover"@.len()))
    } else if ":first-child"@.is_prefix_of(s) {
        Some((TokenView::FirstChild, ":first-child"@.len()))
    } else if ":last-child"@.is_prefix_of(s) {
        Some((TokenView::LastChild, ":last-child"@.len()))
    } else if ":focus-within"@.is_prefix_of(s) {
        Some((TokenView::FocusWithin, ":focus-within"@.len()))
    } else if ":focus-visible"@.is_prefix_of(s) {
        Some((TokenView::FocusVisible, ":focus-visible"@.len()))
    } else if ":focus"@.is_prefix_of(s) {
        Some((TokenView::Focus, ":focus"@.len()))
    } else {
        None
    }
}

/// The token at the start of `s`, with its length.
pub open spec fn first_token(s: Seq<char>) -> Option<(TokenView, nat)> {
    match class_token(s) {
        Some(t) => Some(t),
        None => pseudo_token(s),
    }
}

/// `acc` wrapped in the tokens that `s` starts with, and their total length.
#[verifier::opaque]
pub open spec fn with_tokens(s: Seq<char>, acc: SelectorView) -> (SelectorView, nat)
    decreases s.len(),
{
    match first_token(s) {
        Some((token, n)) => {
            if 0 < n <= s.len() {
                let (sel, m) = with_tokens(s.skip(n as int), token.wrap(acc));
                (sel, n + m)
            } else {
                (acc, 0)
            }
        },
        None => (acc, 0),
    }
}

/// One compound selector at the start of `s`, applied on top of `acc`: an
/// optional `&` or `*`, then tokens. `&` marks the result as the current
/// element; `*` adds nothing.
pub open spec fn combo(s: Seq<char>, acc: SelectorView) -> (SelectorView, nat) {
    if s.len() > 0 && s[0] == '&' {
        let (sel, n) = with_tokens(s.skip(1), acc);
        (SelectorView::Current(Box::new(sel)), n + 1)
    } else if s.len() > 0 && s[0] == '*' {
        let (sel, n) = with_tokens(s.skip(1), acc);
        (sel, n + 1)
    } else {
        with_tokens(s, acc)
    }
}

/// The length of the separator `mark` at the start of `s`, blanks around it
/// included, if it stands there.
pub open spec fn separator_len(s: Seq<char>, mark: char) -> Option<nat> {
    let before = run_len(s, CharClass::Blank);
    if before < s.len() && s[before as int] == mark {
        Some(before + 1 + run_len(s.skip((before + 1) as int), CharClass::Blank))
    } else {
        None
    }
}

/// The steps to descendants that `s` starts with, applied on top of `acc`:
/// each `>` moves the selector read so far to the parent and is followed by
/// a compound selector.
#[verifier::opaque]
pub open spec fn descendants(s: Seq<char>, acc: SelectorView) -> (SelectorView, nat)
    decreases s.len(),
{
    match separator_len(s, '>') {
        Some(n) => {
            if 0 < n <= s.len() {
                let (sel, m) = combo(s.skip(n as int), SelectorView::Parent(Box::new(acc)));
                if n + m <= s.len() {
                    let (r, k) = descendants(s.skip((n + m) as int), sel);
                    (r, n + m + k)
                } else {
                    (acc, 0)
                }
            } else {
                (acc, 0)
            }
        },
        None => (acc, 0),
    }
}

/// One chain of compound selectors at the start of `s`.
pub open spec fn desc(s: Seq<char>) -> (SelectorView, nat) {
    let (first, n) = combo(s, SelectorView::Accept);
    let (sel, m) = descendants(s.skip(n as int), first);
    (sel, n + m)
}

/// The alternatives that `s` goes on with: each a comma and a chain.
#[verifier::opaque]
pub open spec fn alternatives(s: Seq<char>) -> (Seq<SelectorView>, nat)
    decreases s.len(),
{
    match separator_len(s, ',') {
        Some(n) => {
            if 0 < n <= s.len() {
                let (sel, m) = desc(s.skip(n as int));
                if n + m <= s.len() {
                    let (rest, k) = alternatives(s.skip((n + m) as int));
                    (seq![sel] + rest, n + m + k)
                } else {
                    (Seq::empty(), 0)
                }
            } else {
                (Seq::empty(), 0)
            }
        },
        None => (Seq::empty(), 0),
    }
}

/// The selector at the start of `s` and its length. A single chain stands
/// for itself; several become the alternatives of an `Either`.
pub open spec fn selector(s: Seq<char>) -> (SelectorView, nat) {
    let (first, n) = desc(s);
    let (more, m) = alternatives(s.skip(n as int));
    if more.len() == 0 {
        (first, n + m)
    } else {
        (SelectorView::Either(seq![first] + more), n + m)
    }
}

/// A token is not empty and lies within its input.
proof fn lemma_first_token_len(s: Seq<char>)
    ensures
        first_token(s) matches Some((_, n)) ==> 0 < n <= s.len(),
{
    reveal_strlit(":hover");
    reveal_strlit(":first-child");
    reveal_strlit(":last-child");
    reveal_strlit(":focus-within");
    reveal_strlit(":focus-visible");
    reveal_strlit(":focus");
    if s.len() >= 2 {
        lemma_run_len_bounds(s.skip(2), CharClass::Name);
    }
}

/// What `with_tokens` says where a token stands at the start of `s`, and
/// where none does.
pub(crate) proof fn lemma_with_tokens_unfold(s: Seq<char>, acc: SelectorView)
    ensures
        match first_token(s) {
            Some((token, n)) => {
                let (sel, m) = with_tokens(s.skip(n as int), token.wrap(acc));
                &&& 0 < n <= s.len()
                &&& with_tokens(s, acc) == (sel, n + m)
            },
            None => with_tokens(s, acc) == (acc, 0nat),
        },
{
    reveal(with_tokens);
    lemma_first_token_len(s);
}

/// What `with_tokens` reads lies within its input.
pub(crate) proof fn lemma_with_tokens_len(s: Seq<char>, acc: SelectorView)
    ensures
        with_tokens(s, acc).1 <= s.len(),
    decreases s.len(),
{
    lemma_with_tokens_unfold(s, acc);
    match first_token(s) {
        Some((token, n)) => {
            lemma_with_tokens_len(s.skip(n as int), token.wrap(acc));
        },
        None => {},
    }
}

/// What `combo` reads lies within its input.
pub(crate) proof fn lemma_combo_len(s: Seq<char>, acc: SelectorView)
    ensures
        combo(s, acc).1 <= s.len(),
{
    if s.len() > 0 {
        lemma_with_tokens_len(s.skip(1), acc);
    }
    lemma_with_tokens_len(s, acc);
}

/// A separator is not empty and lies within its input.
pub(crate) proof fn lemma_separator_len(s: Seq<char>, mark: char)
    ensures
        separator_len(s, mark) matches Some(n) ==> 0 < n <= s.len(),
{
    lemma_run_len_bounds(s, CharClass::Blank);
    let before = run_len(s, CharClass::Blank);
    if before < s.len() {
        lemma_run_len_bounds(s.skip((before + 1) as int), CharClass::Blank);
    }
}

/// What `descendants` says where a `>` stands at the start of `s`, and
/// where none does.
pub(crate) proof fn lemma_descendants_unfold(s: Seq<char>, acc: SelectorView)
    ensures
        match separator_len(s, '>') {
            Some(n) => {
                let (sel, m) = combo(s.skip(n as int), SelectorView::Parent(Box::new(acc)));
                let (r, k) = descendants(s.skip((n + m) as int), sel);
                &&& 0 < n
                &&& n + m <= s.len()
                &&& descendants(s, acc) == (r, n + m + k)
            },
            None => descendants(s, acc) == (acc, 0nat),
        },
{
    reveal(descendants);
    lemma_separator_len(s, '>');
    match separator_len(s, '>') {
        Some(n) => {
            lemma_combo_len(s.skip(n as int), SelectorView::Parent(Box::new(acc)));
        },
        None => {},
    }
}

/// What `descendants` reads lies within its input.
proof fn lemma_descendants_len(s: Seq<char>, acc: SelectorView)
    ensures
        descendants(s, acc).1 <= s.len(),
    decreases s.len(),
{
    lemma_descendants_unfold(s, acc);
    match separator_len(s, '>') {
        Some(n) => {
            let (sel, m) = combo(s.skip(n as int), SelectorView::Parent(Box::new(acc)));
            lemma_descendants_len(s.skip((n + m) as int), sel);
        },
        None => {},
    }
}

/// What `desc` reads lies within its input.
pub(crate) proof fn lemma_desc_len(s: Seq<char>)
    ensures
        desc(s).1 <= s.len(),
{
    lemma_combo_len(s, SelectorView::Accept);
    let (first, n) = combo(s, SelectorView::Accept);
    lemma_descendants_len(s.skip(n as int), first);
}

/// What `alternatives` says where a comma stands at the start of `s`, and
/// where none does.
pub(crate) proof fn lemma_alternatives_unfold(s: Seq<char>)
    ensures
        match separator_len(s, ',') {
            Some(n) => {
                let (sel, m) = desc(s.skip(n as int));
                let (rest, k) = alternatives(s.skip((n + m) as int));
                &&& 0 < n
                &&& n + m <= s.len()
                &&& alternatives(s) == (seq![sel] + rest, n + m + k)
            },
            None => alternatives(s) == (Seq::<SelectorView>::empty(), 0nat),
        },
{
    reveal(alternatives);
    lemma_separator_len(s, ',');
    match separator_len(s, ',') {
        Some(n) => {
            lemma_desc_len(s.skip(n as int));
        },
        None => {},
    }
}

/// Reading one more alternative extends what was found before it.
proof fn lemma_alternatives_step(
    whole: (Seq<SelectorView>, nat),
    found: Seq<SelectorView>,
    read: nat,
    s: Seq<char>,
    n: nat,
    sel: SelectorView,
    m: nat,
)
    requires
        whole == (found + alternatives(s).0, read + alternatives(s).1),
        separator_len(s, ',') == Some(n),
        desc(s.skip(n as int)) == (sel, m),
    ensures
        n + m <= s.len(),
        whole == (
            found.push(sel) + alternatives(s.skip((n + m) as int)).0,
            read + n + m + alternatives(s.skip((n + m) as int)).1,
        ),
{
    lemma_alternatives_unfold(s);
    let rest = alternatives(s.skip((n + m) as int)).0;
    assert(found + (seq![sel] + rest) =~= found.push(sel) + rest);
}

/// Where no comma follows, what was found is all.
proof fn lemma_alternatives_done(
    whole: (Seq<SelectorView>, nat),
    found: Seq<SelectorView>,
    read: nat,
    s: Seq<char>,
)
    requires
        whole == (found + alternatives(s).0, read + alternatives(s).1),
        separator_len(s, ',') is None,
    ensures
        whole == (found, read),
{
    lemma_alternatives_unfold(s);
    assert(found + Seq::<SelectorView>::empty() =~= found);
}

/// The class token at `pos`, with the position after it.
pub fn class_name(input: &[char], pos: usize) -> (r: Option<(SelectorToken, usize)>)
    requires
        pos <= input.len(),
    ensures
        match r {
            Some((token, end)) => pos < end <= input.len() && class_token(input@.skip(pos as int))
                == Some((token@, (end - pos) as nat)),
            None => class_token(input@.skip(pos as int)) is None,
        },
{
    let ghost s = input@.skip(pos as int);
    if input.len() - pos >= 2 && input[pos] == '.' && CharClass::Alpha.contains(input[pos + 1]) {
        let end = scan(input, pos + 2, CharClass::Name);
        let name = to_text(input, pos + 1, end);
        proof {
            assert(s.skip(2) == input@.skip(pos + 2));
            assert(s.subrange(1, end - pos) == input@.subrange(pos + 1, end as int));
        }
        Some((SelectorToken::Class(name), end))
    } else {
        None
    }
}

/// The pseudo-class at `pos`, with the position after it.
pub fn pseudo_class(input: &[char], pos: usize) -> (r: Option<(SelectorToken, usize)>)
    requires
        pos <= input.len(),
    ensures
        match r {
            Some((token, end)) => pos < end <= input.len() && pseudo_token(
                input@.skip(pos as int),
            ) == Some((token@, (end - pos) as nat)),
            None => pseudo_token(input@.skip(pos as int)) is None,
        },
{
    proof {
        reveal_strlit(":hover");
        reveal_strlit(":first-child");
        reveal_strlit(":last-child");
        reveal_strlit(":focus-within");
        reveal_strlit(":focus-visible");
        reveal_strlit(":focus");
    }
    if starts_with(input, pos, ":hover") {
        Some((SelectorToken::Hover, pos + 6))
    } else if starts_with(input, pos, ":first-child") {
        Some((SelectorToken::FirstChild, pos + 12))
    } else if starts_with(input, pos, ":last-child") {
        Some((SelectorToken::LastChild, pos + 11))
    } else if starts_with(input, pos, ":focus-within") {
        Some((SelectorToken::FocusWithin, pos + 13))
    } else if starts_with(input, pos, ":focus-visible") {
        Some((SelectorToken::FocusVisible, pos + 14))
    } else if starts_with(input, pos, ":focus") {
        Some((SelectorToken::Focus, pos + 6))
    } else {
        None
    }
}

/// The tokens at `pos`, wrapped around `base`, with the position after them.
pub fn simple_selector(input: &[char], pos: usize, base: Box<Selector>) -> (r: (
    Box<Selector>,
    usize,
))
    requires
        pos <= input.len(),
    ensures
        pos <= r.1 <= input.len(),
        with_tokens(input@.skip(pos as int), base@) == (r.0@, (r.1 - pos) as nat),
{
    let mut sel = base;
    let mut i: usize = pos;
    loop
        invariant
            pos <= i <= input.len(),
            with_tokens(input@.skip(pos as int), base@) == (
                with_tokens(input@.skip(i as int), sel@).0,
                ((i - pos) + with_tokens(input@.skip(i as int), sel@).1) as nat,
            ),
        ensures
            pos <= i <= input.len(),
            with_tokens(input@.skip(pos as int), base@) == (sel@, (i - pos) as nat),
        decreases input.len() - i,
    {
        proof {
            lemma_with_tokens_unfold(input@.skip(i as int), sel@);
        }
        let token = match class_name(input, i) {
            Some(t) => Some(t),
            None => pseudo_class(input, i),
        };
        match token {
            Some((token, end)) => {
                proof {
                    assert(input@.skip(i as int).skip(end - i) == input@.skip(end as int));
                }
                sel = token.wrap(sel);
                i = end;
            },
            None => {
                break;
            },
        }
    }
    (sel, i)
}

/// The compound selector at `pos`, applied on top of `base`, with the
/// position after it.
pub fn combo_selector(input: &[char], pos: usize, base: Box<Selector>) -> (r: (
    Box<Selector>,
    usize,
))
    requires
        pos <= input.len(),
    ensures
        pos <= r.1 <= input.len(),
        combo(input@.skip(pos as int), base@) == (r.0@, (r.1 - pos) as nat),
{
    proof {
        if pos < input.len() {
            assert(input@.skip(pos as int).skip(1) == input@.skip(pos + 1));
        }
    }
    if pos < input.len() && input[pos] == '&' {
        let (sel, end) = simple_selector(input, pos + 1, base);
        (Box::new(Selector::Current(sel)), end)
    } else if pos < input.len() && input[pos] == '*' {
        simple_selector(input, pos + 1, base)
    } else {
        simple_selector(input, pos, base)
    }
}

/// The end of the separator `mark` at `pos`, blanks around it included, if
/// it stands there.
pub fn parent(input: &[char], pos: usize, mark: char) -> (r: Option<usize>)
    requires
        pos <= input.len(),
    ensures
        match r {
            Some(end) => pos < end <= input.len() && separator_len(input@.skip(pos as int), mark)
                == Some((end - pos) as nat),
            None => separator_len(input@.skip(pos as int), mark) is None,
        },
{
    let at = scan(input, pos, CharClass::Blank);
    if at < input.len() && input[at] == mark {
        let end = scan(input, at + 1, CharClass::Blank);
        proof {
            assert(input@.skip(pos as int).skip(at - pos + 1) == input@.skip(at + 1));
        }
        Some(end)
    } else {
        None
    }
}

/// The chain of compound selectors at `pos`, with the position after it.
pub fn desc_selector(input: &[char], pos: usize) -> (r: (Box<Selector>, usize))
    requires
        pos <= input.len(),
    ensures
        pos <= r.1 <= input.len(),
        desc(input@.skip(pos as int)) == (r.0@, (r.1 - pos) as nat),
{
    let (first, start) = combo_selector(input, pos, Box::new(Selector::Accept));
    let ghost first_view = first@;
    let mut sel = first;
    let mut i: usize = start;
    proof {
        assert(input@.skip(pos as int).skip(start - pos) == input@.skip(start as int));
    }
    loop
        invariant
            start <= i <= input.len(),
            descendants(input@.skip(start as int), first_view) == (
                descendants(input@.skip(i as int), sel@).0,
                ((i - start) + descendants(input@.skip(i as int), sel@).1) as nat,
            ),
        ensures
            start <= i <= input.len(),
            descendants(input@.skip(start as int), first_view) == (sel@, (i - start) as nat),
        decreases input.len() - i,
    {
        proof {
            lemma_descendants_unfold(input@.skip(i as int), sel@);
        }
        match parent(input, i, '>') {
            Some(at) => {
                let (next, end) = combo_selector(input, at, Box::new(Selector::Parent(sel)));
                proof {
                    assert(input@.skip(i as int).skip(at - i) == input@.skip(at as int));
                    assert(input@.skip(i as int).skip(end - i) == input@.skip(end as int));
                }
                sel = next;
                i = end;
            },
            None => {
                break;
            },
        }
    }
    (sel, i)
}

/// The selector at `pos`, with the position after it.
pub fn either(input: &[char], pos: usize) -> (r: (Box<Selector>, usize))
    requires
        pos <= input.len(),
    ensures
        pos <= r.1 <= input.len(),
        selector(input@.skip(pos as int)) == (r.0@, (r.1 - pos) as nat),
{
    let (first, start) = desc_selector(input, pos);
    let ghost first_view = first@;
    let mut items: Vec<Box<Selector>> = Vec::new();
    proof {
        Selector::lemma_models_empty();
        Selector::lemma_models_push(items@, first);
    }
    items.push(first);
    let mut i: usize = start;
    let ghost mut found: Seq<SelectorView> = Seq::empty();
    proof {
        assert(input@.skip(pos as int).skip(start - pos) == input@.skip(start as int));
        assert(Selector::models(items@) =~= seq![first_view] + found);
    }
    loop
        invariant
            start <= i <= input.len(),
            items@.len() == found.len() + 1,
            Selector::models(items@) == seq![first_view] + found,
            alternatives(input@.skip(start as int)) == (
                found + alternatives(input@.skip(i as int)).0,
                ((i - start) + alternatives(input@.skip(i as int)).1) as nat,
            ),
        ensures
            start <= i <= input.len(),
            items@.len() == found.len() + 1,
            Selector::models(items@) == seq![first_view] + found,
            alternatives(input@.skip(start as int)) == (found, (i - start) as nat),
        decreases input.len() - i,
    {
        let ghost here = input@.skip(i as int);
        let ghost whole = alternatives(input@.skip(start as int));
        match parent(input, i, ',') {
            Some(at) => {
                let (next, end) = desc_selector(input, at);
                proof {
                    assert(here.skip(at - i) == input@.skip(at as int));
                    lemma_alternatives_step(
                        whole,
                        found,
                        (i - start) as nat,
                        here,
                        (at - i) as nat,
                        next@,
                        (end - at) as nat,
                    );
                    assert(here.skip(end - i) == input@.skip(end as int));
                    Selector::lemma_models_push(items@, next);
                    assert((seq![first_view] + found).push(next@) =~= seq![first_view] + found.push(
                        next@,
                    ));
                    found = found.push(next@);
                }
                items.push(next);
                i = end;
            },
            None => {
                proof {
                    lemma_alternatives_done(whole, found, (i - start) as nat, here);
                }
                break;
            },
        }
    }
    proof {
        Selector::lemma_models(items@);
        assert((seq![first_view] + found)[0] == first_view);
    }
    if items.len() == 1 {
        let only = items.pop().unwrap();
        (only, i)
    } else {
        (Box::new(Selector::Either(items)), i)
    }
}

/// Reads the selector that stands at `pos` and returns it with the position
/// after it. Every input starts with a selector, if only with the empty one.
pub fn selector_parser(input: &[char], pos: usize) -> (r: (Box<Selector>, usize))
    requires
        pos <= input.len(),
    ensures
        pos <= r.1 <= input.len(),
        selector(input@.skip(pos as int)) == (r.0@, (r.1 - pos) as nat),
{
    either(input, pos)
}

/// What a text means as a selector. Whitespace before and after the
/// selector does not count. The text is a selector if the grammar takes
/// all that stands between; else the error names the place up to which the
/// grammar got, as a byte offset in the text.
pub open spec fn parse(text: Seq<char>) -> Result<SelectorView, ParseErrorView> {
    let lead = run_len(text, CharClass::Whitespace);
    let body = text.skip(lead as int);
    let (sel, n) = selector(body);
    if n + run_len(body.skip(n as int), CharClass::Whitespace) == body.len() {
        Ok(sel)
    } else {
        Err(
            ParseErrorView {
                offset: clip(utf8_len(text.take((lead + n) as int))),
                kind: ParseErrorKindView::Expected(Expected::End),
            },
        )
    }
}

/// Parses a selector.
pub fn parse_selector(input: &str) -> (r: Result<Selector, ParseError>)
    ensures
        match r {
            Ok(sel) => parse(input@) == Ok::<SelectorView, ParseErrorView>(sel@),
            Err(err) => parse(input@) == Err::<SelectorView, ParseErrorView>(err@),
        },
{
    let chars = to_chars(input);
    let body = chars.as_slice();
    let start = scan(body, 0, CharClass::Whitespace);
    proof {
        assert(body@.skip(0) == body@);
    }
    let (sel, end) = selector_parser(body, start);
    let last = scan(body, end, CharClass::Whitespace);
    proof {
        assert(body@.skip(start as int).skip(end - start) == body@.skip(end as int));
    }
    if last == body.len() {
        Ok(*sel)
    } else {
        Err(
            ParseError {
                offset: byte_offset(body, end),
                kind: ParseErrorKind::Expected(Expected::End),
            },
        )
    }
}

impl Selector {
    /// Parses a selector.
    pub fn parse(input: &str) -> (r: Result<Selector, ParseError>)
        ensures
            match r {
                Ok(sel) => parse(input@) == Ok::<SelectorView, ParseErrorView>(sel@),
                Err(err) => parse(input@) == Err::<SelectorView, ParseErrorView>(err@),
            },
    {
        parse_selector(input)
    }
}

impl core::str::FromStr for Selector {
    type Err = String;

    /// Parses a selector; the error is the reason in words.
    fn from_str(input: &str) -> (r: Result<Selector, String>)
        ensures
            match r {
                Ok(sel) => parse(input@) == Ok::<SelectorView, ParseErrorView>(sel@),
                Err(reason) => parse(input@) matches Err(err) && reason@ == err.kind.message(),
            },
    {
        match parse_selector(input) {
            Ok(sel) => Ok(sel),
            Err(err) => Err(err.to_string()),
        }
    }
}

} // verus!

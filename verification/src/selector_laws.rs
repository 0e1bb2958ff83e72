//! What holds between the text of a selector and the selector that the text
//! is parsed to.

use vstd::prelude::*;
use crate::chars::{is_alpha, lemma_run_len_bounds, lemma_run_len_is, run_len, CharClass};
use crate::selector::SelectorView;
use crate::error::ParseErrorView;
use crate::selector_parser::{
    alternatives, class_token, combo, desc, descendants, first_token, lemma_alternatives_unfold,
    lemma_combo_len, lemma_desc_len, lemma_descendants_unfold, lemma_separator_len,
    lemma_with_tokens_len, lemma_with_tokens_unfold, parse, selector, separator_len, with_tokens,
    TokenView,
};

verus! {

broadcast use vstd::string::group_string_axioms;

/// A letter, followed by letters, digits, `-` and `_`.
pub open spec fn is_class_name(name: Seq<char>) -> bool {
    &&& name.len() > 0
    &&& is_alpha(name[0])
    &&& forall|i: int| 1 <= i < name.len() ==> CharClass::Name.has(#[trigger] name[i])
}

/// Nothing, or a character that cannot go on a class name or a
/// pseudo-class.
pub open spec fn ends_token(rest: Seq<char>) -> bool {
    rest.len() == 0 || !CharClass::Name.has(rest[0])
}

impl TokenView {
    /// The token as text.
    pub open spec fn text(self) -> Seq<char> {
        match self {
            TokenView::Class(name) => seq!['.'] + name,
            TokenView::Hover => ":hover"@,
            TokenView::FirstChild => ":first-child"@,
            TokenView::LastChild => ":last-child"@,
            TokenView::Focus => ":focus"@,
            TokenView::FocusWithin => ":focus-within"@,
            TokenView::FocusVisible => ":focus-visible"@,
        }
    }

    /// The token is a pseudo-class, or a class with a name that the grammar
    /// takes.
    pub open spec fn is_valid(self) -> bool {
        match self {
            TokenView::Class(name) => is_class_name(name),
            _ => true,
        }
    }
}

/// The characters of a prefix stand at the start of what it is a prefix of.
proof fn lemma_prefix_char(lit: Seq<char>, s: Seq<char>, i: int)
    requires
        lit.is_prefix_of(s),
        0 <= i < lit.len(),
    ensures
        s[i] == lit[i],
{
    assert(s.subrange(0, lit.len() as int)[i] == s[i]);
}

/// No token starts with anything but a dot or a colon.
proof fn lemma_no_token(s: Seq<char>)
    requires
        s.len() == 0 || (s[0] != '.' && s[0] != ':'),
    ensures
        first_token(s) is None,
{
    reveal_strlit(":hover");
    reveal_strlit(":first-child");
    reveal_strlit(":last-child");
    reveal_strlit(":focus-within");
    reveal_strlit(":focus-visible");
    reveal_strlit(":focus");
    if s.len() > 0 {
        if ":hover"@.is_prefix_of(s) {
            lemma_prefix_char(":hover"@, s, 0);
        }
        if ":first-child"@.is_prefix_of(s) {
            lemma_prefix_char(":first-child"@, s, 0);
        }
        if ":last-child"@.is_prefix_of(s) {
            lemma_prefix_char(":last-child"@, s, 0);
        }
        if ":focus-within"@.is_prefix_of(s) {
            lemma_prefix_char(":focus-within"@, s, 0);
        }
        if ":focus-visible"@.is_prefix_of(s) {
            lemma_prefix_char(":focus-visible"@, s, 0);
        }
        if ":focus"@.is_prefix_of(s) {
            lemma_prefix_char(":focus"@, s, 0);
        }
    }
}

/// The text of a class, followed by something that ends it, is read as that
/// class.
proof fn lemma_read_class(name: Seq<char>, rest: Seq<char>)
    requires
        is_class_name(name),
        ends_token(rest),
    ensures
        first_token(seq!['.'] + name + rest) == Some(
            (TokenView::Class(name), (name.len() + 1) as nat),
        ),
{
    let s = seq!['.'] + name + rest;
    assert(s[0] == '.');
    assert(s[1] == name[0]);
    let tail = s.skip(2);
    assert forall|i: int| 0 <= i < name.len() - 1 implies CharClass::Name.has(#[trigger] tail[i]) by {
        assert(tail[i] == name[i + 1]);
    }
    if name.len() - 1 < tail.len() {
        assert(tail[name.len() - 1] == rest[0]);
    }
    lemma_run_len_is(tail, CharClass::Name, (name.len() - 1) as nat);
    assert(s.subrange(1, (name.len() + 1) as int) =~= name);
}

/// The text of a pseudo-class, followed by something that ends it, is read
/// as that pseudo-class.
proof fn lemma_read_pseudo(token: TokenView, rest: Seq<char>)
    requires
        !(token is Class),
        ends_token(rest),
    ensures
        first_token(token.text() + rest) == Some((token, token.text().len())),
{
    reveal_strlit(":hover");
    reveal_strlit(":first-child");
    reveal_strlit(":last-child");
    reveal_strlit(":focus-within");
    reveal_strlit(":focus-visible");
    reveal_strlit(":focus");
    let lit = token.text();
    let s = lit + rest;
    assert(s[0] == ':');
    assert(class_token(s) is None);
    assert(s.subrange(0, lit.len() as int) =~= lit);
    assert(lit.is_prefix_of(s));
    assert(s[1] == lit[1]);
    assert(s[2] == lit[2]);
    if ":hover"@.is_prefix_of(s) {
        lemma_prefix_char(":hover"@, s, 1);
    }
    if ":first-child"@.is_prefix_of(s) {
        lemma_prefix_char(":first-child"@, s, 1);
        lemma_prefix_char(":first-child"@, s, 2);
    }
    if ":last-child"@.is_prefix_of(s) {
        lemma_prefix_char(":last-child"@, s, 1);
    }
    if ":focus-within"@.is_prefix_of(s) {
        lemma_prefix_char(":focus-within"@, s, 1);
        lemma_prefix_char(":focus-within"@, s, 2);
        if token is Focus {
            lemma_prefix_char(":focus-within"@, s, 6);
            assert(s[6] == rest[0]);
        }
        if token is FocusVisible {
            lemma_prefix_char(":focus-within"@, s, 7);
            assert(s[7] == lit[7]);
        }
    }
    if ":focus-visible"@.is_prefix_of(s) {
        lemma_prefix_char(":focus-visible"@, s, 1);
        lemma_prefix_char(":focus-visible"@, s, 2);
        if token is Focus {
            lemma_prefix_char(":focus-visible"@, s, 6);
            assert(s[6] == rest[0]);
        }
        if token is FocusWithin {
            lemma_prefix_char(":focus-visible"@, s, 7);
            assert(s[7] == lit[7]);
        }
    }
    if ":focus"@.is_prefix_of(s) {
        lemma_prefix_char(":focus"@, s, 1);
        lemma_prefix_char(":focus"@, s, 2);
    }
}

/// The text of a token, followed by something that ends it, is read as that
/// token.
proof fn lemma_read_token(token: TokenView, rest: Seq<char>)
    requires
        token.is_valid(),
        ends_token(rest),
    ensures
        first_token(token.text() + rest) == Some((token, token.text().len())),
{
    match token {
        TokenView::Class(name) => {
            lemma_read_class(name, rest);
        },
        _ => {
            lemma_read_pseudo(token, rest);
        },
    }
}

impl SelectorView {
    /// The token that stands outermost, and what it wraps.
    pub open spec fn outer_token(self) -> Option<(TokenView, SelectorView)> {
        match self {
            SelectorView::Class(name, inner) => Some((TokenView::Class(name), *inner)),
            SelectorView::Hover(inner) => Some((TokenView::Hover, *inner)),
            SelectorView::FirstChild(inner) => Some((TokenView::FirstChild, *inner)),
            SelectorView::LastChild(inner) => Some((TokenView::LastChild, *inner)),
            SelectorView::Focus(inner) => Some((TokenView::Focus, *inner)),
            SelectorView::FocusWithin(inner) => Some((TokenView::FocusWithin, *inner)),
            SelectorView::FocusVisible(inner) => Some((TokenView::FocusVisible, *inner)),
            _ => None,
        }
    }

    /// The selector is a run of tokens over `Accept` or over the parent of
    /// a chain.
    pub open spec fn is_run(self) -> bool
        decreases self, 0nat,
    {
        match self {
            SelectorView::Accept => true,
            SelectorView::Parent(inner) => inner.is_chain(),
            SelectorView::Class(name, inner) => is_class_name(name) && inner.is_run(),
            SelectorView::Hover(inner) => inner.is_run(),
            SelectorView::FirstChild(inner) => inner.is_run(),
            SelectorView::LastChild(inner) => inner.is_run(),
            SelectorView::Focus(inner) => inner.is_run(),
            SelectorView::FocusWithin(inner) => inner.is_run(),
            SelectorView::FocusVisible(inner) => inner.is_run(),
            SelectorView::Current(_) => false,
            SelectorView::Either(_) => false,
        }
    }

    /// The selector is a chain of compound selectors: runs of tokens, each
    /// marked as the current element or not, each but the first over the
    /// parent of the chain before it.
    pub open spec fn is_chain(self) -> bool
        decreases self, 1nat,
    {
        match self {
            SelectorView::Current(inner) => inner.is_run(),
            _ => self.is_run(),
        }
    }

    /// The selector is a chain, or an `Either` of two chains or more.
    pub open spec fn is_chains(self) -> bool {
        match self {
            SelectorView::Either(opts) => opts.len() >= 2 && forall|i: int|
                0 <= i < opts.len() ==> (#[trigger] opts[i]).is_chain(),
            _ => self.is_chain(),
        }
    }
}

/// `r`, with `n` characters more read.
pub open spec fn shifted(r: (SelectorView, nat), n: nat) -> (SelectorView, nat) {
    (r.0, r.1 + n)
}

/// What a chain comes to when its current compound selector, read up to
/// `acc`, goes on with `rest`.
pub open spec fn resume_tokens(rest: Seq<char>, acc: SelectorView, marked: bool) -> (
    SelectorView,
    nat,
) {
    let (sel, n) = with_tokens(rest, acc);
    let done = if marked {
        SelectorView::Current(Box::new(sel))
    } else {
        sel
    };
    shifted(descendants(rest.skip(n as int), done), n)
}

/// What a chain comes to when a compound selector over `acc` starts with
/// `rest`.
pub open spec fn resume_combo(rest: Seq<char>, acc: SelectorView) -> (SelectorView, nat) {
    let (sel, n) = combo(rest, acc);
    shifted(descendants(rest.skip(n as int), sel), n)
}

/// What a chain comes to when, its text up to `v` read, `rest` follows.
pub open spec fn resume(v: SelectorView, rest: Seq<char>) -> (SelectorView, nat) {
    match v {
        SelectorView::Accept => resume_combo(rest, v),
        SelectorView::Parent(_) => resume_combo(rest, v),
        SelectorView::Current(inner) => resume_tokens(rest, *inner, true),
        _ => resume_tokens(rest, v, false),
    }
}

/// What may follow the text of `v` without being read as part of its last
/// term.
pub open spec fn may_follow(v: SelectorView, rest: Seq<char>) -> bool {
    match v {
        SelectorView::Accept => true,
        SelectorView::Parent(_) => rest.len() == 0 || !CharClass::Blank.has(rest[0]),
        _ => ends_token(rest),
    }
}

/// A selector with a token outermost is that token around what it wraps,
/// and its text ends in the text of the token.
proof fn lemma_outer_token(v: SelectorView)
    requires
        v.outer_token() is Some,
    ensures
        ({
            let (token, inner) = v.outer_token()->0;
            &&& v == token.wrap(inner)
            &&& v.text() == inner.text() + token.text()
            &&& token.text().len() > 0
            &&& token.text()[0] == '.' || token.text()[0] == ':'
            &&& v.is_run() == (token.is_valid() && inner.is_run())
            &&& v.marked_text() == inner.marked_text() + token.text()
        }),
{
    reveal_strlit(":hover");
    reveal_strlit(":first-child");
    reveal_strlit(":last-child");
    reveal_strlit(":focus-within");
    reveal_strlit(":focus-visible");
    reveal_strlit(":focus");
    let (token, inner) = v.outer_token()->0;
    match v {
        SelectorView::Class(name, prev) => {
            assert(prev.text() + seq!['.'] + name =~= prev.text() + (seq!['.'] + name));
            assert(prev.marked_text() + seq!['.'] + name =~= prev.marked_text() + (seq!['.']
                + name));
        },
        _ => {},
    }
}

/// Reading one token moves it from the text into the selector.
proof fn lemma_resume_token(
    token: TokenView,
    rest: Seq<char>,
    inner: SelectorView,
    marked: bool,
)
    requires
        first_token(token.text() + rest) == Some((token, token.text().len())),
    ensures
        resume_tokens(token.text() + rest, inner, marked) == shifted(
            resume_tokens(rest, token.wrap(inner), marked),
            token.text().len(),
        ),
{
    let s = token.text() + rest;
    let n = token.text().len();
    lemma_with_tokens_unfold(s, inner);
    assert(s.skip(n as int) =~= rest);
    let (sel, k) = with_tokens(rest, token.wrap(inner));
    lemma_with_tokens_len(rest, token.wrap(inner));
    assert(s.skip((n + k) as int) =~= rest.skip(k as int));
}

/// Where no token and no `&` or `*` stands, a compound selector is empty.
proof fn lemma_empty_combo(rest: Seq<char>, acc: SelectorView)
    requires
        rest.len() == 0 || (rest[0] != '.' && rest[0] != ':'),
    ensures
        with_tokens(rest, acc) == (acc, 0nat),
        rest.len() == 0 || (rest[0] != '&' && rest[0] != '*') ==> combo(rest, acc) == (acc, 0nat),
{
    lemma_no_token(rest);
    lemma_with_tokens_unfold(rest, acc);
}

/// Where a comma or nothing follows, a chain ends.
proof fn lemma_chain_stops(rest: Seq<char>, acc: SelectorView)
    requires
        rest.len() == 0 || rest[0] == ',',
    ensures
        descendants(rest, acc) == (acc, 0nat),
{
    lemma_descendants_unfold(rest, acc);
    if rest.len() > 0 {
        assert(!CharClass::Blank.has(rest[0]));
    }
    lemma_run_len_is(rest, CharClass::Blank, 0);
}

/// A `>` between two spaces moves the chain read so far to the parent, and
/// a compound selector follows.
proof fn lemma_resume_parent(rest: Seq<char>, acc: SelectorView)
    requires
        rest.len() == 0 || !CharClass::Blank.has(rest[0]),
    ensures
        descendants(" > "@ + rest, acc) == shifted(
            resume_combo(rest, SelectorView::Parent(Box::new(acc))),
            3,
        ),
{
    reveal_strlit(" > ");
    let s = " > "@ + rest;
    assert(s[0] == ' ');
    assert(s[1] == '>');
    assert(s[2] == ' ');
    lemma_run_len_is(s, CharClass::Blank, 1);
    let after = s.skip(2);
    assert(after[0] == ' ');
    if rest.len() > 0 {
        assert(after[1] == rest[0]);
    }
    lemma_run_len_is(after, CharClass::Blank, 1);
    assert(separator_len(s, '>') == Some(3nat));
    lemma_descendants_unfold(s, acc);
    assert(s.skip(3) =~= rest);
    let parent = SelectorView::Parent(Box::new(acc));
    let (sel, m) = combo(rest, parent);
    lemma_combo_len(rest, parent);
    assert(s.skip((3 + m) as int) =~= rest.skip(m as int));
}

/// An `&` marks the compound selector that it starts.
proof fn lemma_resume_mark(rest: Seq<char>, acc: SelectorView)
    ensures
        resume_combo(seq!['&'] + rest, acc) == shifted(resume_tokens(rest, acc, true), 1),
{
    let s = seq!['&'] + rest;
    assert(s[0] == '&');
    assert(s.skip(1) =~= rest);
    let (sel, n) = with_tokens(rest, acc);
    lemma_with_tokens_len(rest, acc);
    assert(s.skip((n + 1) as int) =~= rest.skip(n as int));
}

/// Reading the text of a chain, with something after it that does not go
/// on its last term, leads to where the chain stands read and that
/// something follows.
proof fn lemma_read_chain(v: SelectorView, rest: Seq<char>)
    requires
        v.is_chain(),
        may_follow(v, rest),
    ensures
        desc(v.text() + rest) == shifted(resume(v, rest), v.text().len()),
    decreases v, 0nat,
{
    reveal_strlit(" > ");
    reveal_strlit("* > ");
    match v {
        SelectorView::Accept => {
            assert(v.text() + rest =~= rest);
        },
        SelectorView::Current(inner) => {
            lemma_read_marked(*inner, rest);
        },
        SelectorView::Parent(inner) => {
            let w = *inner;
            if w is Parent {
                let r1 = "* > "@ + rest;
                assert(v.text() + rest =~= w.text() + r1);
                assert(r1[0] == '*');
                lemma_read_chain(w, r1);
                let r2 = " > "@ + rest;
                assert(r1.skip(1) =~= r2);
                assert(r2[0] == ' ');
                lemma_empty_combo(r2, w);
                assert(combo(r1, w) == (w, 1nat));
                lemma_resume_parent(rest, w);
            } else {
                let r1 = " > "@ + rest;
                assert(v.text() + rest =~= w.text() + r1);
                assert(r1[0] == ' ');
                lemma_read_chain(w, r1);
                lemma_resume_parent(rest, w);
                assert(r1.skip(0) =~= r1);
                match w {
                    SelectorView::Current(x) => {
                        lemma_empty_combo(r1, *x);
                    },
                    _ => {
                        lemma_empty_combo(r1, w);
                    },
                }
            }
        },
        SelectorView::Either(_) => {},
        _ => {
            lemma_outer_token(v);
            let (token, inner) = v.outer_token()->0;
            let r1 = token.text() + rest;
            assert(v.text() + rest =~= inner.text() + r1);
            assert(inner.is_run());
            lemma_read_chain(inner, r1);
            lemma_read_token(token, rest);
            lemma_resume_token(token, rest, inner, false);
        },
    }
}

/// Reading the text of a marked run of tokens, with something after it
/// that does not go on its last token, leads to where the run stands read
/// in a marked compound selector and that something follows.
proof fn lemma_read_marked(x: SelectorView, rest: Seq<char>)
    requires
        x.is_run(),
        ends_token(rest),
    ensures
        desc(x.marked_text() + rest) == shifted(
            resume_tokens(rest, x, true),
            x.marked_text().len(),
        ),
    decreases x, 1nat,
{
    if x.outer_token() is Some {
        lemma_outer_token(x);
        let (token, inner) = x.outer_token()->0;
        let r1 = token.text() + rest;
        assert(x.marked_text() + rest =~= inner.marked_text() + r1);
        lemma_read_marked(inner, r1);
        lemma_read_token(token, rest);
        lemma_resume_token(token, rest, inner, true);
    } else {
        let r1 = seq!['&'] + rest;
        assert(x.marked_text() + rest =~= x.text() + r1);
        assert(r1[0] == '&');
        lemma_read_chain(x, r1);
        lemma_resume_mark(rest, x);
    }
}

/// The text of a chain, with a comma or nothing after it, is read as that
/// chain.
proof fn lemma_read_whole_chain(v: SelectorView, rest: Seq<char>)
    requires
        v.is_chain(),
        rest.len() == 0 || rest[0] == ',',
    ensures
        desc(v.text() + rest) == (v, v.text().len()),
{
    lemma_read_chain(v, rest);
    assert(rest.skip(0) =~= rest);
    match v {
        SelectorView::Current(inner) => {
            lemma_empty_combo(rest, *inner);
            lemma_chain_stops(rest, v);
        },
        _ => {
            lemma_empty_combo(rest, v);
            lemma_chain_stops(rest, v);
        },
    }
}

/// How a text may start that nothing but a space or a `>` can stand before:
/// with a dot, a colon, an `&`, a comma, or a space and a `>`.
pub open spec fn starts_clean(t: Seq<char>) -> bool {
    t.len() > 0 ==> {
        ||| t[0] == '.'
        ||| t[0] == ':'
        ||| t[0] == '&'
        ||| t[0] == ','
        ||| (t[0] == ' ' && t.len() >= 2 && t[1] == '>')
    }
}

/// The text of a chain starts with a dot, a colon, an `&`, or a space and a
/// `>`. The text of a parent is not empty.
proof fn lemma_chain_start(v: SelectorView)
    requires
        v.is_chain(),
    ensures
        starts_clean(v.text()),
        v.text().len() > 0 ==> v.text()[0] != ',',
        v is Parent ==> v.text().len() > 0,
    decreases v, 0nat,
{
    reveal_strlit(" > ");
    reveal_strlit("* > ");
    match v {
        SelectorView::Accept => {},
        SelectorView::Current(inner) => {
            lemma_marked_start(*inner);
        },
        SelectorView::Parent(inner) => {
            lemma_chain_start(*inner);
            if inner.text().len() > 0 {
                assert(v.text()[0] == inner.text()[0]);
                if inner.text().len() >= 2 {
                    assert(v.text()[1] == inner.text()[1]);
                }
            } else {
                assert(v.text() =~= " > "@);
            }
        },
        SelectorView::Either(_) => {},
        _ => {
            lemma_outer_token(v);
            let (token, inner) = v.outer_token()->0;
            assert(inner.is_run());
            assert(inner.is_chain());
            lemma_chain_start(inner);
            if inner.text().len() > 0 {
                assert(v.text()[0] == inner.text()[0]);
                if inner.text().len() >= 2 {
                    assert(v.text()[1] == inner.text()[1]);
                }
            } else {
                assert(v.text()[0] == token.text()[0]);
            }
        },
    }
}

/// The marked text of a run of tokens is not empty and starts as the text
/// of a chain does.
proof fn lemma_marked_start(x: SelectorView)
    requires
        x.is_run(),
    ensures
        starts_clean(x.marked_text()),
        x.marked_text().len() > 0,
        x.marked_text()[0] != ',',
    decreases x, 1nat,
{
    if x.outer_token() is Some {
        lemma_outer_token(x);
        let (token, inner) = x.outer_token()->0;
        lemma_marked_start(inner);
        let t = inner.marked_text();
        assert(x.marked_text()[0] == t[0]);
        if t.len() >= 2 {
            assert(x.marked_text()[1] == t[1]);
        }
    } else {
        lemma_chain_start(x);
        let t = x.text();
        if t.len() > 0 {
            assert(x.marked_text()[0] == t[0]);
            if t.len() >= 2 {
                assert(x.marked_text()[1] == t[1]);
            }
        } else {
            assert(x.marked_text()[0] == '&');
        }
    }
}

/// Two texts that go on alike after a `>` give the same chain from there.
proof fn lemma_descendants_alike(
    s1: Seq<char>,
    n1: nat,
    s2: Seq<char>,
    n2: nat,
    acc: SelectorView,
)
    requires
        separator_len(s1, '>') == Some(n1),
        separator_len(s2, '>') == Some(n2),
        n1 <= s1.len(),
        n2 <= s2.len(),
        s1.skip(n1 as int) == s2.skip(n2 as int),
    ensures
        descendants(s1, acc).0 == descendants(s2, acc).0,
        descendants(s1, acc).1 - n1 == descendants(s2, acc).1 - n2,
{
    lemma_descendants_unfold(s1, acc);
    lemma_descendants_unfold(s2, acc);
    let parent = SelectorView::Parent(Box::new(acc));
    let (sel, m) = combo(s1.skip(n1 as int), parent);
    lemma_combo_len(s1.skip(n1 as int), parent);
    assert(s1.skip((n1 + m) as int) =~= s1.skip(n1 as int).skip(m as int));
    assert(s2.skip((n2 + m) as int) =~= s2.skip(n2 as int).skip(m as int));
}

/// Blanks before a chain that starts with `>` change nothing but the
/// place where it starts.
proof fn lemma_blanks_before_chain(s: Seq<char>)
    requires
        run_len(s, CharClass::Blank) < s.len(),
        s[run_len(s, CharClass::Blank) as int] == '>',
    ensures
        desc(s) == shifted(
            desc(s.skip(run_len(s, CharClass::Blank) as int)),
            run_len(s, CharClass::Blank),
        ),
{
    let k = run_len(s, CharClass::Blank);
    let t = s.skip(k as int);
    if k == 0 {
        assert(t =~= s);
    } else {
        lemma_run_len_bounds(s, CharClass::Blank);
        assert(CharClass::Blank.has(s[0]));
        assert(t[0] == '>');
        assert(combo(s, SelectorView::Accept) == (SelectorView::Accept, 0nat)) by {
            lemma_empty_combo(s, SelectorView::Accept);
        }
        assert(combo(t, SelectorView::Accept) == (SelectorView::Accept, 0nat)) by {
            lemma_empty_combo(t, SelectorView::Accept);
        }
        assert(s.skip(0) =~= s);
        assert(t.skip(0) =~= t);
        let a = run_len(s.skip((k + 1) as int), CharClass::Blank);
        assert(separator_len(t, '>') == Some(1 + a)) by {
            lemma_run_len_is(t, CharClass::Blank, 0);
            assert(t.skip(1) =~= s.skip((k + 1) as int));
        }
        assert(separator_len(s, '>') == Some(k + 1 + a));
        lemma_separator_len(s, '>');
        lemma_separator_len(t, '>');
        assert(t.skip((1 + a) as int) =~= s.skip((k + 1 + a) as int));
        lemma_descendants_alike(s, k + 1 + a, t, 1 + a, SelectorView::Accept);
    }
}

/// The joined text of two chains or more is the text of the first, a comma
/// and a space, and the joined text of the others.
proof fn lemma_joined_text(opts: Seq<SelectorView>)
    requires
        opts.len() >= 2,
    ensures
        SelectorView::joined_text(opts) == opts[0].text() + ", "@ + SelectorView::joined_text(
            opts.drop_first(),
        ),
    decreases opts.len(),
{
    let front = opts.drop_last();
    let back = opts.drop_first();
    if opts.len() == 2 {
        assert(front.len() == 1);
        assert(back.len() == 1);
        assert(front[0] == opts[0]);
        assert(back[0] == opts.last());
        assert(SelectorView::joined_text(front) == opts[0].text());
        assert(SelectorView::joined_text(back) == opts.last().text());
    } else {
        lemma_joined_text(front);
        assert(front.drop_first() =~= back.drop_last());
        assert(front[0] == opts[0]);
        assert(back.last() == opts.last());
        assert(SelectorView::joined_text(back) == SelectorView::joined_text(back.drop_last())
            + ", "@ + back.last().text());
        assert(opts[0].text() + ", "@ + SelectorView::joined_text(front.drop_first()) + ", "@
            + opts.last().text() =~= opts[0].text() + ", "@ + (SelectorView::joined_text(
            back.drop_last(),
        ) + ", "@ + opts.last().text()));
    }
}

/// The joined text of chains starts as the text of a chain does, or with a
/// comma.
proof fn lemma_joined_start(opts: Seq<SelectorView>)
    requires
        opts.len() >= 1,
        forall|i: int| 0 <= i < opts.len() ==> (#[trigger] opts[i]).is_chain(),
    ensures
        starts_clean(SelectorView::joined_text(opts)),
        opts.len() == 1 ==> SelectorView::joined_text(opts) == opts[0].text(),
        opts.len() >= 2 ==> SelectorView::joined_text(opts).len() > 0,
{
    reveal_strlit(", ");
    lemma_chain_start(opts[0]);
    if opts.len() >= 2 {
        lemma_joined_text(opts);
        let t = opts[0].text();
        let j = SelectorView::joined_text(opts);
        if t.len() > 0 {
            assert(j[0] == t[0]);
            if t.len() >= 2 {
                assert(j[1] == t[1]);
            }
        } else {
            assert(j[0] == ',');
        }
    }
}

/// A comma, a space and the joined text of chains are read as those
/// chains.
proof fn lemma_read_alternatives(opts: Seq<SelectorView>)
    requires
        opts.len() >= 1,
        forall|i: int| 0 <= i < opts.len() ==> (#[trigger] opts[i]).is_chain(),
    ensures
        alternatives(", "@ + SelectorView::joined_text(opts)) == (
            opts,
            (2 + SelectorView::joined_text(opts).len()) as nat,
        ),
    decreases opts.len(),
{
    reveal_strlit(", ");
    let joined = SelectorView::joined_text(opts);
    let s = ", "@ + joined;
    let first = opts[0];
    let t = first.text();
    let others = opts.drop_first();
    let rest = if opts.len() == 1 {
        Seq::<char>::empty()
    } else {
        ", "@ + SelectorView::joined_text(others)
    };
    lemma_joined_start(opts);
    lemma_chain_start(first);
    if opts.len() >= 2 {
        lemma_joined_text(opts);
        assert(t + ", "@ + SelectorView::joined_text(others) =~= t + rest);
    } else {
        assert(joined =~= t + rest);
    }
    assert(joined == t + rest);
    if rest.len() > 0 {
        assert(rest[0] == ',');
    }
    // The separator.
    assert(s[0] == ',');
    assert(s[1] == ' ');
    lemma_run_len_is(s, CharClass::Blank, 0);
    let k = run_len(joined, CharClass::Blank);
    if joined.len() > 0 && joined[0] == ' ' {
        assert(joined[1] == '>');
        lemma_run_len_is(joined, CharClass::Blank, 1);
    } else {
        lemma_run_len_is(joined, CharClass::Blank, 0);
    }
    let after = s.skip(1);
    assert forall|i: int| 0 <= i < 1 + k implies CharClass::Blank.has(#[trigger] after[i]) by {
        if i > 0 {
            assert(after[i] == joined[i - 1]);
        }
    }
    if 1 + k < after.len() {
        assert(after[(1 + k) as int] == joined[k as int]);
    }
    lemma_run_len_is(after, CharClass::Blank, 1 + k);
    assert(separator_len(s, ',') == Some(2 + k));
    // The chain after it.
    assert(s.skip((2 + k) as int) =~= joined.skip(k as int));
    lemma_read_whole_chain(first, rest);
    if k > 0 {
        lemma_blanks_before_chain(joined);
    } else {
        assert(joined.skip(0) =~= joined);
    }
    let m = (t.len() - k) as nat;
    assert(desc(joined.skip(k as int)) == (first, m));
    assert(s.skip((2 + k + m) as int) =~= rest);
    lemma_alternatives_unfold(s);
    // The alternatives after it.
    if opts.len() == 1 {
        lemma_alternatives_unfold(rest);
        lemma_run_len_is(rest, CharClass::Blank, 0);
        assert(seq![first] + Seq::<SelectorView>::empty() =~= opts);
    } else {
        assert forall|i: int| 0 <= i < others.len() implies (#[trigger] others[i]).is_chain() by {
            assert(others[i] == opts[i + 1]);
        }
        lemma_read_alternatives(others);
        assert(seq![first] + others =~= opts);
    }
}

/// The text of a chain, or of an `Either` of chains, is read by the
/// grammar as that selector, to its end.
pub proof fn lemma_read_selector(v: SelectorView)
    requires
        v.is_chains(),
    ensures
        selector(v.text()) == (v, v.text().len()),
{
    let text = v.text();
    match v {
        SelectorView::Either(opts) => {
            let first = opts[0];
            let others = opts.drop_first();
            let rest = ", "@ + SelectorView::joined_text(others);
            reveal_strlit(", ");
            lemma_joined_text(opts);
            assert(text =~= first.text() + rest);
            assert(rest[0] == ',');
            lemma_read_whole_chain(first, rest);
            assert(text.skip(first.text().len() as int) =~= rest);
            assert forall|i: int| 0 <= i < others.len() implies (#[trigger] others[i]).is_chain() by {
                assert(others[i] == opts[i + 1]);
            }
            lemma_read_alternatives(others);
            assert(seq![first] + others =~= opts);
        },
        _ => {
            let rest = Seq::<char>::empty();
            assert(text + rest =~= text);
            lemma_read_whole_chain(v, rest);
            assert(text.skip(text.len() as int) =~= rest);
            lemma_alternatives_unfold(rest);
            lemma_run_len_is(rest, CharClass::Blank, 0);
        },
    }
}

/// The text of a chain, or of an `Either` of chains, parses to that
/// selector.
pub proof fn lemma_parse_text(v: SelectorView)
    requires
        v.is_chains(),
    ensures
        parse(v.text()) == Ok::<SelectorView, ParseErrorView>(v),
{
    let text = v.text();
    lemma_read_selector(v);
    match v {
        SelectorView::Either(opts) => {
            lemma_joined_start(opts);
        },
        _ => {
            lemma_chain_start(v);
        },
    }
    assert(starts_clean(text));
    let lead = run_len(text, CharClass::Whitespace);
    if text.len() > 0 && text[0] == ' ' {
        lemma_run_len_is(text, CharClass::Whitespace, 1);
        lemma_run_len_is(text, CharClass::Blank, 1);
        lemma_blanks_before_chain(text);
        let body = text.skip(1);
        let (first, n) = desc(text);
        lemma_desc_len(body);
        assert(body.skip((n - 1) as int) =~= text.skip(n as int));
        let (sel, m) = selector(body);
        assert(m == text.len() - 1);
        assert(body.skip(m as int) =~= Seq::<char>::empty());
    } else {
        lemma_run_len_is(text, CharClass::Whitespace, 0);
        assert(text.skip(0) =~= text);
        assert(text.skip(text.len() as int) =~= Seq::<char>::empty());
    }
}

/// A token that the grammar reads is a pseudo-class, or a class with a name
/// that the grammar takes.
proof fn lemma_token_valid(s: Seq<char>)
    ensures
        first_token(s) matches Some((token, _)) ==> token.is_valid(),
{
    if s.len() >= 2 && s[0] == '.' && is_alpha(s[1]) {
        let tail = s.skip(2);
        let n = 2 + run_len(tail, CharClass::Name);
        let name = s.subrange(1, n as int);
        lemma_run_len_bounds(tail, CharClass::Name);
        assert(name[0] == s[1]);
        assert forall|i: int| 1 <= i < name.len() implies CharClass::Name.has(
            #[trigger] name[i],
        ) by {
            assert(name[i] == tail[i - 1]);
        }
    }
}

/// Tokens read on top of a run give a run.
proof fn lemma_with_tokens_run(s: Seq<char>, acc: SelectorView)
    requires
        acc.is_run(),
    ensures
        with_tokens(s, acc).0.is_run(),
    decreases s.len(),
{
    lemma_with_tokens_unfold(s, acc);
    lemma_token_valid(s);
    match first_token(s) {
        Some((token, n)) => {
            lemma_with_tokens_run(s.skip(n as int), token.wrap(acc));
        },
        None => {},
    }
}

/// A compound selector read on top of a run gives a chain.
proof fn lemma_combo_chain(s: Seq<char>, acc: SelectorView)
    requires
        acc.is_run(),
    ensures
        combo(s, acc).0.is_chain(),
{
    lemma_with_tokens_run(s, acc);
    if s.len() > 0 {
        lemma_with_tokens_run(s.skip(1), acc);
    }
}

/// Steps to descendants read on top of a chain give a chain.
proof fn lemma_descendants_chain(s: Seq<char>, acc: SelectorView)
    requires
        acc.is_chain(),
    ensures
        descendants(s, acc).0.is_chain(),
    decreases s.len(),
{
    lemma_descendants_unfold(s, acc);
    match separator_len(s, '>') {
        Some(n) => {
            let parent = SelectorView::Parent(Box::new(acc));
            assert(parent.is_run());
            lemma_combo_chain(s.skip(n as int), parent);
            let (sel, m) = combo(s.skip(n as int), parent);
            lemma_descendants_chain(s.skip((n + m) as int), sel);
        },
        None => {},
    }
}

/// What the grammar reads as a chain is a chain.
proof fn lemma_desc_chain(s: Seq<char>)
    ensures
        desc(s).0.is_chain(),
{
    lemma_combo_chain(s, SelectorView::Accept);
    let (first, n) = combo(s, SelectorView::Accept);
    lemma_descendants_chain(s.skip(n as int), first);
}

/// What the grammar reads as alternatives are chains.
proof fn lemma_alternatives_chains(s: Seq<char>)
    ensures
        forall|i: int|
            0 <= i < alternatives(s).0.len() ==> (#[trigger] alternatives(s).0[i]).is_chain(),
    decreases s.len(),
{
    lemma_alternatives_unfold(s);
    match separator_len(s, ',') {
        Some(n) => {
            let (sel, m) = desc(s.skip(n as int));
            lemma_desc_chain(s.skip(n as int));
            let (rest, k) = alternatives(s.skip((n + m) as int));
            lemma_alternatives_chains(s.skip((n + m) as int));
            let all = seq![sel] + rest;
            assert forall|i: int| 0 <= i < all.len() implies (#[trigger] all[i]).is_chain() by {
                if i > 0 {
                    assert(all[i] == rest[i - 1]);
                }
            }
        },
        None => {},
    }
}

/// What the grammar reads is a chain, or an `Either` of two chains or
/// more.
pub proof fn lemma_selector_chains(s: Seq<char>)
    ensures
        selector(s).0.is_chains(),
{
    lemma_desc_chain(s);
    let (first, n) = desc(s);
    lemma_alternatives_chains(s.skip(n as int));
    let (more, m) = alternatives(s.skip(n as int));
    if more.len() > 0 {
        let all = seq![first] + more;
        assert forall|i: int| 0 <= i < all.len() implies (#[trigger] all[i]).is_chain() by {
            if i > 0 {
                assert(all[i] == more[i - 1]);
            }
        }
    }
}

/// Writing a parsed selector and parsing what was written gives the
/// selector back.
pub proof fn lemma_round_trip(text: Seq<char>, v: SelectorView)
    requires
        parse(text) == Ok::<SelectorView, ParseErrorView>(v),
    ensures
        parse(v.text()) == Ok::<SelectorView, ParseErrorView>(v),
{
    let body = text.skip(run_len(text, CharClass::Whitespace) as int);
    lemma_selector_chains(body);
    lemma_parse_text(v);
}

} // verus!

//! The errors that parsing a selector or a stylesheet ends in.

use vstd::prelude::*;
use vstd::string::StringExecFns;
use crate::chars::to_text;

verus! {

broadcast use vstd::string::group_string_axioms;

/// What is wrong with a declaration whose syntax is in order.
#[derive(Debug, PartialEq, Eq)]
pub enum StyleParsingError {
    /// No property has this name.
    InvalidPropertyName(String),
    /// The property does not take a value of this kind.
    InvalidPropertyType(String),
    /// The property takes this kind of value, but not this one.
    InvalidPropertyValue(String),
}

/// The mathematical value of a [`StyleParsingError`].
pub ghost enum StyleParsingErrorView {
    InvalidPropertyName(Seq<char>),
    InvalidPropertyType(Seq<char>),
    InvalidPropertyValue(Seq<char>),
}

impl View for StyleParsingError {
    type V = StyleParsingErrorView;

    open spec fn view(&self) -> StyleParsingErrorView {
        match self {
            StyleParsingError::InvalidPropertyName(name) => {
                StyleParsingErrorView::InvalidPropertyName(name@)
            },
            StyleParsingError::InvalidPropertyType(kind) => {
                StyleParsingErrorView::InvalidPropertyType(kind@)
            },
            StyleParsingError::InvalidPropertyValue(value) => {
                StyleParsingErrorView::InvalidPropertyValue(value@)
            },
        }
    }
}

impl StyleParsingErrorView {
    /// The error in words.
    pub open spec fn message(self) -> Seq<char> {
        match self {
            StyleParsingErrorView::InvalidPropertyName(name) => "invalid property name: '"@ + name
                + "'"@,
            StyleParsingErrorView::InvalidPropertyType(kind) => "invalid property type: "@ + kind,
            StyleParsingErrorView::InvalidPropertyValue(value) => "invalid property value: "@
                + value,
        }
    }
}

impl StyleParsingError {
    /// The error in words.
    pub fn to_string(&self) -> (r: String)
        ensures
            r@ == self@.message(),
    {
        match self {
            StyleParsingError::InvalidPropertyName(name) => {
                let mut out = String::from_str("invalid property name: '");
                out.append(name.as_str());
                out.append("'");
                out
            },
            StyleParsingError::InvalidPropertyType(kind) => {
                let mut out = String::from_str("invalid property type: ");
                out.append(kind.as_str());
                out
            },
            StyleParsingError::InvalidPropertyValue(value) => {
                let mut out = String::from_str("invalid property value: ");
                out.append(value.as_str());
                out
            },
        }
    }
}

/// What a parser was looking for where it gave up.
#[derive(Clone, Copy, Debug, PartialEq, Eq)]
pub enum Expected {
    /// The end of the input.
    End,
    /// The `;` that ends a declaration.
    Semicolon,
    /// The `}` that ends a block.
    CloseBrace,
    /// The `)` that ends the arguments of a colour function.
    CloseParen,
    /// The digits of an exponent.
    Digits,
    /// A number.
    Number,
}

impl Expected {
    /// What was expected, in words.
    pub open spec fn message(self) -> Seq<char> {
        match self {
            Expected::End => "expected end of input"@,
            Expected::Semicolon => "expected semicolon"@,
            Expected::CloseBrace => "expected closing brace"@,
            Expected::CloseParen => "expected closing parenthesis"@,
            Expected::Digits => "expected digits"@,
            Expected::Number => "expected number"@,
        }
    }

    /// What was expected, in words.
    pub fn to_string(&self) -> (r: String)
        ensures
            r@ == self.message(),
    {
        match self {
            Expected::End => String::from_str("expected end of input"),
            Expected::Semicolon => String::from_str("expected semicolon"),
            Expected::CloseBrace => String::from_str("expected closing brace"),
            Expected::CloseParen => String::from_str("expected closing parenthesis"),
            Expected::Digits => String::from_str("expected digits"),
            Expected::Number => String::from_str("expected number"),
        }
    }
}

/// Why parsing stopped.
#[derive(Debug, PartialEq, Eq)]
pub enum ParseErrorKind {
    /// The text does not go on as the grammar asks.
    Expected(Expected),
    /// A declaration is well formed but names no property, or gives one a
    /// value that it does not take.
    Invalid(StyleParsingError),
}

/// The mathematical value of a [`ParseErrorKind`].
pub ghost enum ParseErrorKindView {
    Expected(Expected),
    Invalid(StyleParsingErrorView),
}

impl View for ParseErrorKind {
    type V = ParseErrorKindView;

    open spec fn view(&self) -> ParseErrorKindView {
        match self {
            ParseErrorKind::Expected(what) => ParseErrorKindView::Expected(*what),
            ParseErrorKind::Invalid(err) => ParseErrorKindView::Invalid(err@),
        }
    }
}

impl ParseErrorKindView {
    /// The reason in words.
    pub open spec fn message(self) -> Seq<char> {
        match self {
            ParseErrorKindView::Expected(what) => what.message(),
            ParseErrorKindView::Invalid(err) => err.message(),
        }
    }
}

/// A parse error: where parsing stopped, counted in characters from the
/// start of the text, and why.
#[derive(Debug, PartialEq, Eq)]
pub struct Failure {
    pub at: usize,
    pub kind: ParseErrorKind,
}

/// The mathematical value of a [`Failure`].
pub ghost struct FailureView {
    pub at: nat,
    pub kind: ParseErrorKindView,
}

impl View for Failure {
    type V = FailureView;

    open spec fn view(&self) -> FailureView {
        FailureView { at: self.at as nat, kind: self.kind@ }
    }
}

impl FailureView {
    /// The same failure, seen from `n` characters further left.
    pub open spec fn shifted(self, n: nat) -> FailureView {
        FailureView { at: self.at + n, kind: self.kind }
    }
}

/// The place at which the line starts that holds the place `at` of `s`.
pub open spec fn line_start(s: Seq<char>, at: nat) -> nat
    decreases at,
{
    if at == 0 || at > s.len() || s[at - 1] == '\n' {
        at
    } else {
        line_start(s, (at - 1) as nat)
    }
}

/// The place at which the line ends that holds the place `at` of `s`.
pub open spec fn line_end(s: Seq<char>, at: nat) -> nat
    decreases s.len() - at,
{
    if at >= s.len() || s[at as int] == '\n' {
        at
    } else {
        line_end(s, at + 1)
    }
}

/// `n` spaces.
pub open spec fn spaces(n: nat) -> Seq<char> {
    Seq::new(n, |i: int| ' ')
}

impl FailureView {
    /// The failure as a report on the text `s` that it was found in: the
    /// line in which parsing stopped, a line with a mark under the place,
    /// and the reason. A place beyond the text counts as its end.
    pub open spec fn report(self, s: Seq<char>) -> Seq<char> {
        let at = if self.at <= s.len() {
            self.at
        } else {
            s.len()
        };
        let start = line_start(s, at);
        let end = line_end(s, at);
        s.subrange(start as int, end as int) + seq!['\n'] + spaces((at - start) as nat) + seq![
            '^',
            '\n',
        ] + self.kind.message()
    }
}

impl Failure {
    /// The reason of the failure in words.
    pub fn to_string(&self) -> (r: String)
        ensures
            r@ == self@.kind.message(),
    {
        match &self.kind {
            ParseErrorKind::Expected(what) => what.to_string(),
            ParseErrorKind::Invalid(err) => err.to_string(),
        }
    }

    /// The failure as a report on the text `source` that it was found in.
    pub fn report(&self, source: &[char]) -> (r: String)
        ensures
            r@ == self@.report(source@),
    {
        let at = if self.at <= source.len() {
            self.at
        } else {
            source.len()
        };
        let mut start: usize = at;
        while start > 0 && source[start - 1] != '\n'
            invariant
                start <= at <= source.len(),
                line_start(source@, at as nat) == line_start(source@, start as nat),
            decreases start,
        {
            start -= 1;
        }
        let mut end: usize = at;
        while end < source.len() && source[end] != '\n'
            invariant
                start <= at <= end <= source.len(),
                line_end(source@, at as nat) == line_end(source@, end as nat),
            decreases source.len() - end,
        {
            end += 1;
        }
        let mut out = to_text(source, start, end);
        out.push('\n');
        let ghost head = out@;
        let mut i: usize = start;
        while i < at
            invariant
                start <= i <= at,
                out@ == head + spaces((i - start) as nat),
            decreases at - i,
        {
            out.push(' ');
            i += 1;
            assert(spaces((i - start) as nat) =~= spaces((i - 1 - start) as nat).push(' '));
        }
        out.push('^');
        out.push('\n');
        let reason = self.to_string();
        out.append(reason.as_str());
        proof {
            assert(head + spaces(0) =~= head);
            assert(out@ =~= self@.report(source@));
        }
        out
    }
}

/// A parse error as callers get it: the byte offset in the text at which
/// parsing stopped, and why.
#[derive(Debug, PartialEq, Eq)]
pub struct ParseError {
    pub offset: usize,
    pub kind: ParseErrorKind,
}

/// The mathematical value of a [`ParseError`].
pub ghost struct ParseErrorView {
    pub offset: nat,
    pub kind: ParseErrorKindView,
}

impl View for ParseError {
    type V = ParseErrorView;

    open spec fn view(&self) -> ParseErrorView {
        ParseErrorView { offset: self.offset as nat, kind: self.kind@ }
    }
}

impl ParseError {
    /// The reason of the error in words.
    pub fn to_string(&self) -> (r: String)
        ensures
            r@ == self@.kind.message(),
    {
        match &self.kind {
            ParseErrorKind::Expected(what) => what.to_string(),
            ParseErrorKind::Invalid(err) => err.to_string(),
        }
    }
}

} // verus!

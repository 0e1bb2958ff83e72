//! Selector expressions: predicates that decide whether a conditional style
//! block applies to an element.

use vstd::prelude::*;
use vstd::string::StringExecFns;
use crate::chars::clip;

verus! {

broadcast use vstd::string::group_string_axioms;

/// The number of an element: the place at which it was added to the tree.
pub type Entity = usize;

/// A predicate chain over an element and its ancestors.
///
/// The chain is evaluated from the outermost constructor inward and ends in
/// [`Selector::Accept`].
#[derive(Debug, PartialEq)]
pub enum Selector {
    /// The end of a chain: matches trivially.
    Accept,
    /// The element carries the given class name.
    Class(String, Box<Selector>),
    /// The element is being hovered.
    Hover(Box<Selector>),
    /// The element has keyboard focus.
    Focus(Box<Selector>),
    /// The element, or one of its descendants, has keyboard focus.
    FocusWithin(Box<Selector>),
    /// The element has keyboard focus and focus is shown.
    FocusVisible(Box<Selector>),
    /// The element is the first child of its parent.
    FirstChild(Box<Selector>),
    /// The element is the last child of its parent.
    LastChild(Box<Selector>),
    /// Marks the element being styled.
    Current(Box<Selector>),
    /// Continues the match on the parent of the element.
    Parent(Box<Selector>),
    /// Matches if any of the alternatives matches.
    Either(Vec<Box<Selector>>),
}

/// The mathematical value of a [`Selector`].
pub ghost enum SelectorView {
    Accept,
    Class(Seq<char>, Box<SelectorView>),
    Hover(Box<SelectorView>),
    Focus(Box<SelectorView>),
    FocusWithin(Box<SelectorView>),
    FocusVisible(Box<SelectorView>),
    FirstChild(Box<SelectorView>),
    LastChild(Box<SelectorView>),
    Current(Box<SelectorView>),
    Parent(Box<SelectorView>),
    Either(Seq<SelectorView>),
}

impl Selector {
    /// The mathematical value of this selector.
    pub open spec fn model(&self) -> SelectorView
        decreases self,
    {
        match self {
            Selector::Accept => SelectorView::Accept,
            Selector::Class(name, next) => SelectorView::Class(name@, Box::new(next.model())),
            Selector::Hover(next) => SelectorView::Hover(Box::new(next.model())),
            Selector::Focus(next) => SelectorView::Focus(Box::new(next.model())),
            Selector::FocusWithin(next) => SelectorView::FocusWithin(Box::new(next.model())),
            Selector::FocusVisible(next) => SelectorView::FocusVisible(Box::new(next.model())),
            Selector::FirstChild(next) => SelectorView::FirstChild(Box::new(next.model())),
            Selector::LastChild(next) => SelectorView::LastChild(Box::new(next.model())),
            Selector::Current(next) => SelectorView::Current(Box::new(next.model())),
            Selector::Parent(next) => SelectorView::Parent(Box::new(next.model())),
            Selector::Either(opts) => SelectorView::Either(Self::models(opts@)),
        }
    }

    /// The mathematical values of `opts`, in order.
    pub open spec fn models(opts: Seq<Box<Selector>>) -> Seq<SelectorView>
        decreases opts,
    {
        if opts.len() == 0 {
            Seq::empty()
        } else {
            Self::models(opts.drop_last()).push(opts.last().model())
        }
    }

    /// `models` keeps the length and maps each selector to its value.
    pub proof fn lemma_models(opts: Seq<Box<Selector>>)
        ensures
            Self::models(opts).len() == opts.len(),
            forall|i: int| 0 <= i < opts.len() ==> (#[trigger] Self::models(opts)[i]) == opts[i].model(),
        decreases opts.len(),
    {
        if opts.len() > 0 {
            Self::lemma_models(opts.drop_last());
        }
    }

    /// The values of a sequence that grew by one selector.
    pub proof fn lemma_models_push(opts: Seq<Box<Selector>>, next: Box<Selector>)
        ensures
            Self::models(opts.push(next)) == Self::models(opts).push(next.model()),
    {
        assert(opts.push(next).drop_last() == opts);
    }

    /// No selectors, no values.
    pub proof fn lemma_models_empty()
        ensures
            Self::models(Seq::empty()) == Seq::<SelectorView>::empty(),
    {
    }
}

impl SelectorView {
    /// The number of steps to a parent that the selector takes, along the
    /// alternative that takes the most: how far up the tree the selector
    /// looks from the element that it is matched against.
    pub open spec fn depth(self) -> nat
        decreases self,
    {
        match self {
            SelectorView::Accept => 0,
            SelectorView::Class(_, next) => next.depth(),
            SelectorView::Hover(next) => next.depth(),
            SelectorView::Focus(next) => next.depth(),
            SelectorView::FocusWithin(next) => next.depth(),
            SelectorView::FocusVisible(next) => next.depth(),
            SelectorView::FirstChild(next) => next.depth(),
            SelectorView::LastChild(next) => next.depth(),
            SelectorView::Current(next) => next.depth(),
            SelectorView::Parent(next) => next.depth() + 1,
            SelectorView::Either(opts) => Self::max_depth(opts),
        }
    }

    /// The largest depth among `opts`, 0 where there is none.
    pub open spec fn max_depth(opts: Seq<SelectorView>) -> nat
        decreases opts,
    {
        if opts.len() == 0 {
            0
        } else {
            let rest = Self::max_depth(opts.drop_last());
            let last = opts.last().depth();
            if last > rest {
                last
            } else {
                rest
            }
        }
    }

    /// The selector as text. A class or pseudo-class follows what it wraps,
    /// `>` follows the selector of the parent, and the alternatives of an
    /// `Either` are joined by commas. A parent that is itself reached from
    /// a parent without any condition is written `*`.
    pub open spec fn text(self) -> Seq<char>
        decreases self, 0nat,
    {
        match self {
            SelectorView::Accept => Seq::empty(),
            SelectorView::Class(name, prev) => prev.text() + seq!['.'] + name,
            SelectorView::Hover(prev) => prev.text() + ":hover"@,
            SelectorView::Focus(prev) => prev.text() + ":focus"@,
            SelectorView::FocusWithin(prev) => prev.text() + ":focus-within"@,
            SelectorView::FocusVisible(prev) => prev.text() + ":focus-visible"@,
            SelectorView::FirstChild(prev) => prev.text() + ":first-child"@,
            SelectorView::LastChild(prev) => prev.text() + ":last-child"@,
            SelectorView::Current(prev) => prev.marked_text(),
            SelectorView::Parent(prev) => if *prev is Parent {
                prev.text() + "* > "@
            } else {
                prev.text() + " > "@
            },
            SelectorView::Either(opts) => Self::joined_text(opts),
        }
    }

    /// The text of a selector that is marked as the current element: `&`
    /// stands before the classes and pseudo-classes that the selector ends
    /// in, after the text of what they wrap.
    pub open spec fn marked_text(self) -> Seq<char>
        decreases self, 1nat,
    {
        match self {
            SelectorView::Class(name, prev) => prev.marked_text() + seq!['.'] + name,
            SelectorView::Hover(prev) => prev.marked_text() + ":hover"@,
            SelectorView::Focus(prev) => prev.marked_text() + ":focus"@,
            SelectorView::FocusWithin(prev) => prev.marked_text() + ":focus-within"@,
            SelectorView::FocusVisible(prev) => prev.marked_text() + ":focus-visible"@,
            SelectorView::FirstChild(prev) => prev.marked_text() + ":first-child"@,
            SelectorView::LastChild(prev) => prev.marked_text() + ":last-child"@,
            _ => self.text() + seq!['&'],
        }
    }

    /// The texts of `opts`, with a comma and a space between each two.
    pub open spec fn joined_text(opts: Seq<SelectorView>) -> Seq<char>
        decreases opts, 0nat,
    {
        if opts.len() == 0 {
            Seq::empty()
        } else if opts.len() == 1 {
            opts[0].text()
        } else {
            Self::joined_text(opts.drop_last()) + ", "@ + opts.last().text()
        }
    }

    /// Whether the mark of the current element occurs anywhere in the
    /// selector.
    pub open spec fn has_current(self) -> bool
        decreases self,
    {
        match self {
            SelectorView::Accept => false,
            SelectorView::Class(_, next) => next.has_current(),
            SelectorView::Hover(next) => next.has_current(),
            SelectorView::Focus(next) => next.has_current(),
            SelectorView::FocusWithin(next) => next.has_current(),
            SelectorView::FocusVisible(next) => next.has_current(),
            SelectorView::FirstChild(next) => next.has_current(),
            SelectorView::LastChild(next) => next.has_current(),
            SelectorView::Current(_) => true,
            SelectorView::Parent(next) => next.has_current(),
            SelectorView::Either(opts) => exists|i: int|
                0 <= i < opts.len() && (#[trigger] opts[i]).has_current(),
        }
    }

    /// The selector is well formed: the mark of the current element, if
    /// it occurs, occurs once and outermost, so that it marks the element
    /// that is styled and none of its ancestors. Of an `Either`, every
    /// alternative is well formed.
    pub open spec fn is_well_formed(self) -> bool
        decreases self,
    {
        match self {
            SelectorView::Current(next) => !next.has_current(),
            SelectorView::Either(opts) => forall|i: int|
                0 <= i < opts.len() ==> (#[trigger] opts[i]).is_well_formed(),
            _ => !self.has_current(),
        }
    }

    /// Whether the hover pseudo-class occurs anywhere in the selector.
    pub open spec fn uses_hover(self) -> bool
        decreases self,
    {
        match self {
            SelectorView::Accept => false,
            SelectorView::Class(_, next) => next.uses_hover(),
            SelectorView::Hover(_) => true,
            SelectorView::Focus(next) => next.uses_hover(),
            SelectorView::FocusWithin(next) => next.uses_hover(),
            SelectorView::FocusVisible(next) => next.uses_hover(),
            SelectorView::FirstChild(next) => next.uses_hover(),
            SelectorView::LastChild(next) => next.uses_hover(),
            SelectorView::Current(next) => next.uses_hover(),
            SelectorView::Parent(next) => next.uses_hover(),
            SelectorView::Either(opts) => exists|i: int|
                0 <= i < opts.len() && (#[trigger] opts[i]).uses_hover(),
        }
    }

    /// Whether the focus-within pseudo-class occurs anywhere in the selector.
    pub open spec fn uses_focus_within(self) -> bool
        decreases self,
    {
        match self {
            SelectorView::Accept => false,
            SelectorView::Class(_, next) => next.uses_focus_within(),
            SelectorView::Hover(next) => next.uses_focus_within(),
            SelectorView::Focus(next) => next.uses_focus_within(),
            SelectorView::FocusWithin(_) => true,
            SelectorView::FocusVisible(next) => next.uses_focus_within(),
            SelectorView::FirstChild(next) => next.uses_focus_within(),
            SelectorView::LastChild(next) => next.uses_focus_within(),
            SelectorView::Current(next) => next.uses_focus_within(),
            SelectorView::Parent(next) => next.uses_focus_within(),
            SelectorView::Either(opts) => exists|i: int|
                0 <= i < opts.len() && (#[trigger] opts[i]).uses_focus_within(),
        }
    }
}

impl View for Selector {
    type V = SelectorView;

    open spec fn view(&self) -> SelectorView {
        self.model()
    }
}

impl Selector {
    /// The number of steps to a parent that this selector takes: how many
    /// ancestors of an element, besides the element itself, have to be
    /// looked at to evaluate it.
    pub fn depth(&self) -> (r: usize)
        ensures
            r == clip(self@.depth()),
        decreases self,
    {
        match self {
            Selector::Accept => 0,
            Selector::Class(_, next) => next.depth(),
            Selector::Hover(next) => next.depth(),
            Selector::Focus(next) => next.depth(),
            Selector::FocusWithin(next) => next.depth(),
            Selector::FocusVisible(next) => next.depth(),
            Selector::FirstChild(next) => next.depth(),
            Selector::LastChild(next) => next.depth(),
            Selector::Current(next) => next.depth(),
            Selector::Parent(next) => {
                let d = next.depth();
                if d < usize::MAX {
                    d + 1
                } else {
                    d
                }
            },
            Selector::Either(opts) => {
                let ghost models = self@->Either_0;
                proof {
                    Self::lemma_models(opts@);
                    assert(models == Self::models(opts@));
                }
                let mut best: usize = 0;
                let mut i: usize = 0;
                while i < opts.len()
                    invariant
                        i <= opts.len(),
                        *self == Selector::Either(*opts),
                        models == self@->Either_0,
                        models.len() == opts.len(),
                        forall|j: int| 0 <= j < opts.len() ==> (#[trigger] models[j]) == opts@[j].model(),
                        best == clip(SelectorView::max_depth(models.take(i as int))),
                    decreases opts.len() - i,
                {
                    let d = opts[i].depth();
                    proof {
                        assert(models.take(i + 1).drop_last() == models.take(i as int));
                        assert(models.take(i + 1).last() == opts@[i as int]@);
                    }
                    if d > best {
                        best = d;
                    }
                    i += 1;
                }
                proof {
                    assert(models.take(opts.len() as int) == models);
                }
                best
            },
        }
    }

    /// Whether the mark of the current element occurs anywhere in this
    /// selector.
    pub fn has_current(&self) -> (r: bool)
        ensures
            r == self@.has_current(),
        decreases self,
    {
        match self {
            Selector::Accept => false,
            Selector::Class(_, next) => next.has_current(),
            Selector::Hover(next) => next.has_current(),
            Selector::Focus(next) => next.has_current(),
            Selector::FocusWithin(next) => next.has_current(),
            Selector::FocusVisible(next) => next.has_current(),
            Selector::FirstChild(next) => next.has_current(),
            Selector::LastChild(next) => next.has_current(),
            Selector::Current(_) => true,
            Selector::Parent(next) => next.has_current(),
            Selector::Either(opts) => {
                let ghost models = self@->Either_0;
                proof {
                    Self::lemma_models(opts@);
                    assert(models == Self::models(opts@));
                }
                let mut i: usize = 0;
                while i < opts.len()
                    invariant
                        i <= opts.len(),
                        *self == Selector::Either(*opts),
                        models == self@->Either_0,
                        models.len() == opts.len(),
                        forall|j: int|
                            0 <= j < opts.len() ==> (#[trigger] models[j]) == opts@[j].model(),
                        forall|j: int| 0 <= j < i ==> !(#[trigger] models[j]).has_current(),
                    decreases opts.len() - i,
                {
                    proof {
                        assert(self->Either_0 == *opts);
                    }
                    if opts[i].has_current() {
                        assert(models[i as int] == opts@[i as int]@);
                        return true;
                    }
                    assert(models[i as int] == opts@[i as int]@);
                    i += 1;
                }
                false
            },
        }
    }

    /// Whether this selector is well formed: the mark of the current
    /// element, if it occurs, marks the element that is styled and none of
    /// its ancestors.
    pub fn is_well_formed(&self) -> (r: bool)
        ensures
            r == self@.is_well_formed(),
        decreases self,
    {
        match self {
            Selector::Current(next) => !next.has_current(),
            Selector::Either(opts) => {
                let ghost models = self@->Either_0;
                proof {
                    Self::lemma_models(opts@);
                    assert(models == Self::models(opts@));
                }
                let mut i: usize = 0;
                while i < opts.len()
                    invariant
                        i <= opts.len(),
                        *self == Selector::Either(*opts),
                        models == self@->Either_0,
                        models.len() == opts.len(),
                        forall|j: int|
                            0 <= j < opts.len() ==> (#[trigger] models[j]) == opts@[j].model(),
                        forall|j: int| 0 <= j < i ==> (#[trigger] models[j]).is_well_formed(),
                    decreases opts.len() - i,
                {
                    proof {
                        assert(self->Either_0 == *opts);
                    }
                    if !opts[i].is_well_formed() {
                        assert(models[i as int] == opts@[i as int]@);
                        return false;
                    }
                    assert(models[i as int] == opts@[i as int]@);
                    i += 1;
                }
                true
            },
            _ => !self.has_current(),
        }
    }

    /// Whether this selector uses the hover pseudo-class.
    pub fn uses_hover(&self) -> (r: bool)
        ensures
            r == self@.uses_hover(),
        decreases self,
    {
        match self {
            Selector::Accept => false,
            Selector::Class(_, next) => next.uses_hover(),
            Selector::Hover(_) => true,
            Selector::Focus(next) => next.uses_hover(),
            Selector::FocusWithin(next) => next.uses_hover(),
            Selector::FocusVisible(next) => next.uses_hover(),
            Selector::FirstChild(next) => next.uses_hover(),
            Selector::LastChild(next) => next.uses_hover(),
            Selector::Current(next) => next.uses_hover(),
            Selector::Parent(next) => next.uses_hover(),
            Selector::Either(opts) => {
                let ghost models = self@->Either_0;
                proof {
                    Self::lemma_models(opts@);
                    assert(models == Self::models(opts@));
                }
                let mut i: usize = 0;
                while i < opts.len()
                    invariant
                        i <= opts.len(),
                        *self == Selector::Either(*opts),
                        models == self@->Either_0,
                        models.len() == opts.len(),
                        forall|j: int| 0 <= j < opts.len() ==> (#[trigger] models[j]) == opts@[j].model(),
                        forall|j: int| 0 <= j < i ==> !(#[trigger] models[j]).uses_hover(),
                    decreases opts.len() - i,
                {
                    if opts[i].uses_hover() {
                        assert(models[i as int] == opts@[i as int]@);
                        return true;
                    }
                    assert(models[i as int] == opts@[i as int]@);
                    i += 1;
                }
                false
            },
        }
    }

    /// Whether this selector uses the focus-within pseudo-class.
    pub fn uses_focus_within(&self) -> (r: bool)
        ensures
            r == self@.uses_focus_within(),
        decreases self,
    {
        match self {
            Selector::Accept => false,
            Selector::Class(_, next) => next.uses_focus_within(),
            Selector::Hover(next) => next.uses_focus_within(),
            Selector::Focus(next) => next.uses_focus_within(),
            Selector::FocusWithin(_) => true,
            Selector::FocusVisible(next) => next.uses_focus_within(),
            Selector::FirstChild(next) => next.uses_focus_within(),
            Selector::LastChild(next) => next.uses_focus_within(),
            Selector::Current(next) => next.uses_focus_within(),
            Selector::Parent(next) => next.uses_focus_within(),
            Selector::Either(opts) => {
                let ghost models = self@->Either_0;
                proof {
                    Self::lemma_models(opts@);
                    assert(models == Self::models(opts@));
                }
                let mut i: usize = 0;
                while i < opts.len()
                    invariant
                        i <= opts.len(),
                        *self == Selector::Either(*opts),
                        models == self@->Either_0,
                        models.len() == opts.len(),
                        forall|j: int| 0 <= j < opts.len() ==> (#[trigger] models[j]) == opts@[j].model(),
                        forall|j: int| 0 <= j < i ==> !(#[trigger] models[j]).uses_focus_within(),
                    decreases opts.len() - i,
                {
                    if opts[i].uses_focus_within() {
                        assert(models[i as int] == opts@[i as int]@);
                        return true;
                    }
                    assert(models[i as int] == opts@[i as int]@);
                    i += 1;
                }
                false
            },
        }
    }
}

impl Selector {
    /// Appends the text of this selector to `out`.
    pub fn write_to(&self, out: &mut String)
        ensures
            final(out)@ == old(out)@ + self@.text(),
        decreases self, 0nat,
    {
        let ghost before = out@;
        match self {
            Selector::Accept => {
                assert(before + Seq::<char>::empty() == before);
            },
            Selector::Class(name, prev) => {
                prev.write_to(out);
                out.push('.');
                out.append(name.as_str());
                assert(out@ == before + (prev@.text() + seq!['.'] + name@));
            },
            Selector::Hover(prev) => {
                prev.write_to(out);
                out.append(":hover");
                assert(out@ == before + (prev@.text() + ":hover"@));
            },
            Selector::Focus(prev) => {
                prev.write_to(out);
                out.append(":focus");
                assert(out@ == before + (prev@.text() + ":focus"@));
            },
            Selector::FocusWithin(prev) => {
                prev.write_to(out);
                out.append(":focus-within");
                assert(out@ == before + (prev@.text() + ":focus-within"@));
            },
            Selector::FocusVisible(prev) => {
                prev.write_to(out);
                out.append(":focus-visible");
                assert(out@ == before + (prev@.text() + ":focus-visible"@));
            },
            Selector::FirstChild(prev) => {
                prev.write_to(out);
                out.append(":first-child");
                assert(out@ == before + (prev@.text() + ":first-child"@));
            },
            Selector::LastChild(prev) => {
                prev.write_to(out);
                out.append(":last-child");
                assert(out@ == before + (prev@.text() + ":last-child"@));
            },
            Selector::Current(prev) => {
                prev.write_marked_to(out);
            },
            Selector::Parent(prev) => {
                prev.write_to(out);
                match &**prev {
                    Selector::Parent(_) => {
                        out.append("* > ");
                        assert(out@ == before + (prev@.text() + "* > "@));
                    },
                    _ => {
                        out.append(" > ");
                        assert(out@ == before + (prev@.text() + " > "@));
                    },
                }
            },
            Selector::Either(opts) => {
                let ghost models = self@->Either_0;
                proof {
                    Self::lemma_models(opts@);
                    assert(models == Self::models(opts@));
                    assert(models.take(0) == Seq::<SelectorView>::empty());
                    assert(before + Seq::<char>::empty() == before);
                }
                let mut i: usize = 0;
                while i < opts.len()
                    invariant
                        i <= opts.len(),
                        *self == Selector::Either(*opts),
                        models == self@->Either_0,
                        models.len() == opts.len(),
                        forall|j: int|
                            0 <= j < opts.len() ==> (#[trigger] models[j]) == opts@[j].model(),
                        out@ == before + SelectorView::joined_text(models.take(i as int)),
                    decreases opts.len() - i,
                {
                    let ghost so_far = SelectorView::joined_text(models.take(i as int));
                    if i > 0 {
                        out.append(", ");
                    }
                    opts[i].write_to(out);
                    proof {
                        let upto = models.take(i + 1);
                        assert(upto.drop_last() == models.take(i as int));
                        assert(upto.last() == opts@[i as int]@);
                        if i == 0 {
                            assert(upto[0] == opts@[0]@);
                            assert(so_far == Seq::<char>::empty());
                            assert(out@ == before + upto[0].text());
                        } else {
                            assert(out@ == before + (so_far + ", "@ + upto.last().text()));
                        }
                    }
                    i += 1;
                }
                proof {
                    assert(models.take(opts.len() as int) == models);
                }
            },
        }
    }

    /// Appends to `out` the text of this selector, marked as the current
    /// element.
    pub fn write_marked_to(&self, out: &mut String)
        ensures
            final(out)@ == old(out)@ + self@.marked_text(),
        decreases self, 1nat,
    {
        let ghost before = out@;
        match self {
            Selector::Class(name, prev) => {
                prev.write_marked_to(out);
                out.push('.');
                out.append(name.as_str());
                assert(out@ == before + (prev@.marked_text() + seq!['.'] + name@));
            },
            Selector::Hover(prev) => {
                prev.write_marked_to(out);
                out.append(":hover");
                assert(out@ == before + (prev@.marked_text() + ":hover"@));
            },
            Selector::Focus(prev) => {
                prev.write_marked_to(out);
                out.append(":focus");
                assert(out@ == before + (prev@.marked_text() + ":focus"@));
            },
            Selector::FocusWithin(prev) => {
                prev.write_marked_to(out);
                out.append(":focus-within");
                assert(out@ == before + (prev@.marked_text() + ":focus-within"@));
            },
            Selector::FocusVisible(prev) => {
                prev.write_marked_to(out);
                out.append(":focus-visible");
                assert(out@ == before + (prev@.marked_text() + ":focus-visible"@));
            },
            Selector::FirstChild(prev) => {
                prev.write_marked_to(out);
                out.append(":first-child");
                assert(out@ == before + (prev@.marked_text() + ":first-child"@));
            },
            Selector::LastChild(prev) => {
                prev.write_marked_to(out);
                out.append(":last-child");
                assert(out@ == before + (prev@.marked_text() + ":last-child"@));
            },
            _ => {
                self.write_to(out);
                out.push('&');
                assert(out@ == before + (self@.text() + seq!['&']));
            },
        }
    }

    /// The selector as text.
    pub fn to_string(&self) -> (r: String)
        ensures
            r@ == self@.text(),
    {
        let mut out = String::new();
        self.write_to(&mut out);
        assert(Seq::<char>::empty() + self@.text() == self@.text());
        out
    }
}

impl Selector {
    /// A copy with the same value.
    pub fn duplicate(&self) -> (r: Selector)
        ensures
            r@ == self@,
        decreases self,
    {
        match self {
            Selector::Accept => Selector::Accept,
            Selector::Class(name, next) => Selector::Class(name.clone(), Box::new(next.duplicate())),
            Selector::Hover(next) => Selector::Hover(Box::new(next.duplicate())),
            Selector::Focus(next) => Selector::Focus(Box::new(next.duplicate())),
            Selector::FocusWithin(next) => Selector::FocusWithin(Box::new(next.duplicate())),
            Selector::FocusVisible(next) => Selector::FocusVisible(Box::new(next.duplicate())),
            Selector::FirstChild(next) => Selector::FirstChild(Box::new(next.duplicate())),
            Selector::LastChild(next) => Selector::LastChild(Box::new(next.duplicate())),
            Selector::Current(next) => Selector::Current(Box::new(next.duplicate())),
            Selector::Parent(next) => Selector::Parent(Box::new(next.duplicate())),
            Selector::Either(opts) => {
                let mut copies: Vec<Box<Selector>> = Vec::new();
                let mut i: usize = 0;
                proof {
                    Self::lemma_models_empty();
                    assert(opts@.take(0) == Seq::<Box<Selector>>::empty());
                }
                while i < opts.len()
                    invariant
                        i <= opts.len(),
                        *self == Selector::Either(*opts),
                        Self::models(copies@) == Self::models(opts@.take(i as int)),
                    decreases opts.len() - i,
                {
                    proof {
                        assert(self->Either_0 == *opts);
                    }
                    let copy = Box::new(opts[i].duplicate());
                    proof {
                        Self::lemma_models_push(copies@, copy);
                        Self::lemma_models_push(opts@.take(i as int), opts@[i as int]);
                        assert(opts@.take(i as int).push(opts@[i as int]) == opts@.take(i + 1));
                    }
                    copies.push(copy);
                    i += 1;
                }
                proof {
                    assert(opts@.take(opts.len() as int) == opts@);
                }
                Selector::Either(copies)
            },
        }
    }
}

/// What can tell whether a selector matches an element.
pub trait SelectorMatcher {
    /// Whether `selector` matches the element `entity`.
    spec fn matches(&self, selector: SelectorView, entity: Entity) -> bool;

    /// Whether `selector` matches the element `entity`.
    fn selector_match(&self, selector: &Selector, entity: &Entity) -> (r: bool)
        ensures
            r == self.matches(selector@, *entity),
    ;
}

impl Clone for Selector {
    fn clone(&self) -> (r: Selector)
        ensures
            r@ == self@,
    {
        self.duplicate()
    }
}

} // verus!

//! Transitions: which property changes over time, and how.

use vstd::prelude::*;
use vstd::string::StringExecFns;
use crate::number::Number;

verus! {

broadcast use vstd::string::group_string_axioms;

/// The property that a transition animates.
#[derive(Clone, Debug, PartialEq, Eq, Copy, Hash, Structural)]
pub enum TransitionProperty {
    /// The transform of the element.
    Transform,
    /// The background colour.
    BackgroundColor,
    /// The border colour.
    BorderColor,
    /// The left edge.
    Left,
    /// The top edge.
    Top,
    /// The bottom edge.
    Bottom,
    /// The right edge.
    Right,
    /// The height.
    Height,
    /// The width.
    Width,
    /// The width of the left border.
    BorderLeft,
    /// The width of the top border.
    BorderTop,
    /// The width of the right border.
    BorderRight,
    /// The width of the bottom border.
    BorderBottom,
}

/// What kind of value a transition moves, and so which engine drives it.
#[derive(Clone, Debug, PartialEq, Eq, Copy, Structural)]
pub enum TransitionKind {
    /// Scale, translation and rotation.
    Transform,
    /// The background colour.
    BackgroundColor,
    /// The border colour.
    BorderColor,
    /// A length of the layout, in pixels.
    Layout,
}

impl TransitionProperty {
    /// The kind of the property.
    pub open spec fn spec_kind(self) -> TransitionKind {
        match self {
            TransitionProperty::Transform => TransitionKind::Transform,
            TransitionProperty::BackgroundColor => TransitionKind::BackgroundColor,
            TransitionProperty::BorderColor => TransitionKind::BorderColor,
            _ => TransitionKind::Layout,
        }
    }

    /// The kind of the property.
    #[verifier::when_used_as_spec(spec_kind)]
    pub fn kind(self) -> (r: TransitionKind)
        ensures
            r == self.spec_kind(),
    {
        match self {
            TransitionProperty::Transform => TransitionKind::Transform,
            TransitionProperty::BackgroundColor => TransitionKind::BackgroundColor,
            TransitionProperty::BorderColor => TransitionKind::BorderColor,
            TransitionProperty::Left
            | TransitionProperty::Top
            | TransitionProperty::Bottom
            | TransitionProperty::Right
            | TransitionProperty::Height
            | TransitionProperty::Width
            | TransitionProperty::BorderLeft
            | TransitionProperty::BorderTop
            | TransitionProperty::BorderRight
            | TransitionProperty::BorderBottom => TransitionKind::Layout,
        }
    }
}

/// The linear timing function: progress is the time that has passed.
#[derive(Clone, Copy, Debug, PartialEq, Eq, Structural)]
pub struct Linear {}

/// The cubic timing function that starts slowly.
#[derive(Clone, Copy, Debug, PartialEq, Eq, Structural)]
pub struct EaseIn {}

/// The cubic timing function that ends slowly.
#[derive(Clone, Copy, Debug, PartialEq, Eq, Structural)]
pub struct EaseOut {}

/// The sinusoidal timing function that starts and ends slowly.
#[derive(Clone, Copy, Debug, PartialEq, Eq, Structural)]
pub struct EaseInOut {}

/// The timing function of a transition: one of those built in, or one that
/// the host keeps under a number of its choice.
#[derive(Clone, Copy, Debug, PartialEq, Eq, Structural)]
pub enum Timing {
    Linear,
    EaseIn,
    EaseOut,
    EaseInOut,
    Custom(u32),
}

impl Linear {
    /// This function as the timing of a transition.
    pub fn timing(&self) -> (r: Timing)
        ensures
            r == Timing::Linear,
    {
        Timing::Linear
    }
}

impl EaseIn {
    /// This function as the timing of a transition.
    pub fn timing(&self) -> (r: Timing)
        ensures
            r == Timing::EaseIn,
    {
        Timing::EaseIn
    }
}

impl EaseOut {
    /// This function as the timing of a transition.
    pub fn timing(&self) -> (r: Timing)
        ensures
            r == Timing::EaseOut,
    {
        Timing::EaseOut
    }
}

impl EaseInOut {
    /// This function as the timing of a transition.
    pub fn timing(&self) -> (r: Timing)
        ensures
            r == Timing::EaseInOut,
    {
        Timing::EaseInOut
    }
}

impl Timing {
    /// The name of the function.
    pub open spec fn spec_name(self) -> Seq<char> {
        match self {
            Timing::Linear => "linear"@,
            Timing::EaseIn => "ease-in"@,
            Timing::EaseOut => "ease-out"@,
            Timing::EaseInOut => "ease-in-out"@,
            Timing::Custom(_) => "custom"@,
        }
    }

    /// The name of the function.
    pub fn name(&self) -> (r: String)
        ensures
            r@ == self.spec_name(),
    {
        match self {
            Timing::Linear => String::from_str("linear"),
            Timing::EaseIn => String::from_str("ease-in"),
            Timing::EaseOut => String::from_str("ease-out"),
            Timing::EaseInOut => String::from_str("ease-in-out"),
            Timing::Custom(_) => String::from_str("custom"),
        }
    }
}

/// An animated change of one property.
#[derive(Debug, PartialEq, Eq)]
pub struct Transition {
    /// The property that is animated.
    pub property: TransitionProperty,
    /// The time before the animation starts, in seconds.
    pub delay: Number,
    /// The time that the animation takes, in seconds.
    pub duration: Number,
    /// How progress depends on time.
    pub timing: Timing,
}

/// The mathematical value of a [`Transition`].
pub ghost struct TransitionView {
    pub property: TransitionProperty,
    pub delay: Seq<char>,
    pub duration: Seq<char>,
    pub timing: Timing,
}

impl View for Transition {
    type V = TransitionView;

    open spec fn view(&self) -> TransitionView {
        TransitionView {
            property: self.property,
            delay: self.delay@,
            duration: self.duration@,
            timing: self.timing,
        }
    }
}

impl Clone for Transition {
    fn clone(&self) -> (r: Transition)
        ensures
            r@ == self@,
    {
        Transition {
            property: self.property,
            delay: self.delay.clone(),
            duration: self.duration.clone(),
            timing: self.timing,
        }
    }
}

impl Default for Transition {
    /// A transition of the transform that takes no time.
    fn default() -> (r: Transition)
        ensures
            r@ == (TransitionView {
                property: TransitionProperty::Transform,
                delay: "0"@,
                duration: "0"@,
                timing: Timing::Linear,
            }),
    {
        Transition {
            property: TransitionProperty::Transform,
            delay: Number::zero(),
            duration: Number::zero(),
            timing: Timing::Linear,
        }
    }
}

/// The values of a list of transitions.
pub open spec fn transition_views(list: Seq<Transition>) -> Seq<TransitionView> {
    list.map_values(|t: Transition| t@)
}

/// A copy of a list of transitions.
pub fn clone_transitions(list: &Vec<Transition>) -> (r: Vec<Transition>)
    ensures
        transition_views(r@) == transition_views(list@),
{
    let mut out: Vec<Transition> = Vec::new();
    let mut i: usize = 0;
    while i < list.len()
        invariant
            i <= list.len(),
            out@.len() == i,
            forall|j: int| 0 <= j < i ==> (#[trigger] out@[j])@ == list@[j]@,
        decreases list.len() - i,
    {
        out.push(list[i].clone());
        i += 1;
    }
    assert(transition_views(out@) =~= transition_views(list@));
    out
}

/// Which kinds of transition a list holds.
#[derive(Clone, Copy, Debug, PartialEq, Eq, Structural)]
pub struct AnimatedKinds {
    pub transform: bool,
    pub background_color: bool,
    pub border_color: bool,
    pub layout: bool,
}

/// Whether a transition of kind `kind` is in `list`.
pub open spec fn has_kind(list: Seq<TransitionView>, kind: TransitionKind) -> bool {
    exists|i: int| 0 <= i < list.len() && (#[trigger] list[i]).property.spec_kind() == kind
}

/// The first transition of kind `kind` in `list`, if there is one.
pub open spec fn first_of_kind(list: Seq<TransitionView>, kind: TransitionKind) -> Option<
    TransitionView,
>
    decreases list.len(),
{
    if list.len() == 0 {
        None
    } else if list[0].property.spec_kind() == kind {
        Some(list[0])
    } else {
        first_of_kind(list.drop_first(), kind)
    }
}

/// The first transition of kind `kind` in `list`, if there is one.
pub fn find_kind(list: &Vec<Transition>, kind: TransitionKind) -> (r: Option<Transition>)
    ensures
        match r {
            Some(t) => first_of_kind(transition_views(list@), kind) == Some(t@),
            None => first_of_kind(transition_views(list@), kind) is None,
        },
{
    let ghost views = transition_views(list@);
    let mut i: usize = 0;
    proof {
        assert(views.skip(0) == views);
    }
    while i < list.len()
        invariant
            i <= list.len(),
            views == transition_views(list@),
            first_of_kind(views, kind) == first_of_kind(views.skip(i as int), kind),
        decreases list.len() - i,
    {
        proof {
            assert(views.skip(i as int)[0] == list@[i as int]@);
            assert(views.skip(i as int).drop_first() == views.skip(i + 1));
        }
        if list[i].property.kind() == kind {
            return Some(list[i].clone());
        }
        i += 1;
    }
    None
}

/// The kinds of the transitions in `list`.
pub fn animated_kinds(list: &Vec<Transition>) -> (r: AnimatedKinds)
    ensures
        r.transform == has_kind(transition_views(list@), TransitionKind::Transform),
        r.background_color == has_kind(
            transition_views(list@),
            TransitionKind::BackgroundColor,
        ),
        r.border_color == has_kind(transition_views(list@), TransitionKind::BorderColor),
        r.layout == has_kind(transition_views(list@), TransitionKind::Layout),
{
    let mut kinds = AnimatedKinds {
        transform: false,
        background_color: false,
        border_color: false,
        layout: false,
    };
    let ghost views = transition_views(list@);
    let mut i: usize = 0;
    while i < list.len()
        invariant
            i <= list.len(),
            views == transition_views(list@),
            kinds.transform == has_kind(views.take(i as int), TransitionKind::Transform),
            kinds.background_color == has_kind(
                views.take(i as int),
                TransitionKind::BackgroundColor,
            ),
            kinds.border_color == has_kind(views.take(i as int), TransitionKind::BorderColor),
            kinds.layout == has_kind(views.take(i as int), TransitionKind::Layout),
        decreases list.len() - i,
    {
        let kind = list[i].property.kind();
        proof {
            let before = views.take(i as int);
            let after = views.take(i + 1);
            assert(after[i as int].property == list@[i as int].property);
            assert forall|k: TransitionKind| has_kind(after, k) == (has_kind(before, k) || k
                == kind) by {
                if has_kind(before, k) {
                    let j = choose|j: int|
                        0 <= j < before.len() && (#[trigger] before[j]).property.spec_kind() == k;
                    assert(after[j] == before[j]);
                }
                if has_kind(after, k) {
                    let j = choose|j: int|
                        0 <= j < after.len() && (#[trigger] after[j]).property.spec_kind() == k;
                    if j < i {
                        assert(before[j] == after[j]);
                    }
                }
            }
        }
        match kind {
            TransitionKind::Transform => {
                kinds.transform = true;
            },
            TransitionKind::BackgroundColor => {
                kinds.background_color = true;
            },
            TransitionKind::BorderColor => {
                kinds.border_color = true;
            },
            TransitionKind::Layout => {
                kinds.layout = true;
            },
        }
        i += 1;
    }
    assert(views.take(list.len() as int) == views);
    kinds
}

} // verus!

//! Transitions of layout properties: where an animation starts and where
//! it is headed.
//!
//! Only lengths in pixels are animated. How far an animation has come, and
//! the value that it has reached, are numbers that the host works out; this
//! module decides when an animation starts anew, and between which values
//! it runs.

use vstd::prelude::*;
use crate::computed::{Style, StyleView};
use crate::number::{same_number, Number};
use crate::transition::{Transition, TransitionKind, TransitionProperty, TransitionView};
use crate::values::{Val, ValView};

verus! {

broadcast use vstd::string::group_string_axioms;

impl StyleView {
    /// The length that the layout property `prop` has in this layout.
    pub open spec fn layout_value(self, prop: TransitionProperty) -> ValView
        recommends
            prop.spec_kind() == TransitionKind::Layout,
    {
        match prop {
            TransitionProperty::Width => self.width,
            TransitionProperty::Height => self.height,
            TransitionProperty::Left => self.left,
            TransitionProperty::Top => self.top,
            TransitionProperty::Bottom => self.bottom,
            TransitionProperty::Right => self.right,
            TransitionProperty::BorderLeft => self.border.left,
            TransitionProperty::BorderTop => self.border.top,
            TransitionProperty::BorderRight => self.border.right,
            TransitionProperty::BorderBottom => self.border.bottom,
            _ => ValView::Auto,
        }
    }

    /// The layout with the layout property `prop` set to `value`.
    pub open spec fn with_layout_value(self, prop: TransitionProperty, value: ValView) -> StyleView
        recommends
            prop.spec_kind() == TransitionKind::Layout,
    {
        match prop {
            TransitionProperty::Width => StyleView { width: value, ..self },
            TransitionProperty::Height => StyleView { height: value, ..self },
            TransitionProperty::Left => StyleView { left: value, ..self },
            TransitionProperty::Top => StyleView { top: value, ..self },
            TransitionProperty::Bottom => StyleView { bottom: value, ..self },
            TransitionProperty::Right => StyleView { right: value, ..self },
            TransitionProperty::BorderLeft => StyleView {
                border: crate::values::UiRectView { left: value, ..self.border },
                ..self
            },
            TransitionProperty::BorderTop => StyleView {
                border: crate::values::UiRectView { top: value, ..self.border },
                ..self
            },
            TransitionProperty::BorderRight => StyleView {
                border: crate::values::UiRectView { right: value, ..self.border },
                ..self
            },
            TransitionProperty::BorderBottom => StyleView {
                border: crate::values::UiRectView { bottom: value, ..self.border },
                ..self
            },
            _ => self,
        }
    }
}

impl Style {
    /// The length that the layout property `prop` has in this layout.
    pub fn layout_value(&self, prop: TransitionProperty) -> (r: &Val)
        requires
            prop.spec_kind() == TransitionKind::Layout,
        ensures
            r@ == self@.layout_value(prop),
    {
        match prop {
            TransitionProperty::Width => &self.width,
            TransitionProperty::Height => &self.height,
            TransitionProperty::Left => &self.left,
            TransitionProperty::Top => &self.top,
            TransitionProperty::Bottom => &self.bottom,
            TransitionProperty::Right => &self.right,
            TransitionProperty::BorderLeft => &self.border.left,
            TransitionProperty::BorderTop => &self.border.top,
            TransitionProperty::BorderRight => &self.border.right,
            TransitionProperty::BorderBottom => &self.border.bottom,
            _ => &self.width,
        }
    }

    /// Sets the layout property `prop` to `value`, a number of pixels.
    pub fn set_layout_value(&mut self, prop: TransitionProperty, value: Number)
        requires
            prop.spec_kind() == TransitionKind::Layout,
        ensures
            final(self)@ == old(self)@.with_layout_value(prop, ValView::Px(value@)),
    {
        match prop {
            TransitionProperty::Width => {
                self.width = Val::Px(value);
            },
            TransitionProperty::Height => {
                self.height = Val::Px(value);
            },
            TransitionProperty::Left => {
                self.left = Val::Px(value);
            },
            TransitionProperty::Top => {
                self.top = Val::Px(value);
            },
            TransitionProperty::Bottom => {
                self.bottom = Val::Px(value);
            },
            TransitionProperty::Right => {
                self.right = Val::Px(value);
            },
            TransitionProperty::BorderLeft => {
                self.border.left = Val::Px(value);
            },
            TransitionProperty::BorderTop => {
                self.border.top = Val::Px(value);
            },
            TransitionProperty::BorderRight => {
                self.border.right = Val::Px(value);
            },
            TransitionProperty::BorderBottom => {
                self.border.bottom = Val::Px(value);
            },
            _ => {},
        }
    }
}

/// The values between which the layout property `prop` moves when the
/// layout goes from `prev` to `next`: the numbers of pixels that it has in
/// the two, if it is given in pixels in both.
pub open spec fn endpoints(prop: TransitionProperty, prev: StyleView, next: StyleView) -> Option<
    (Seq<char>, Seq<char>),
> {
    match (prev.layout_value(prop), next.layout_value(prop)) {
        (ValView::Px(from), ValView::Px(to)) => Some((from, to)),
        _ => None,
    }
}

/// The animation of one layout property: the transition that it follows,
/// the value that it started from, and the value that it is headed for.
#[derive(Debug, PartialEq, Eq)]
pub struct AnimatedLayoutProp {
    pub transition: Transition,
    pub origin: Number,
    pub target: Number,
}

/// The mathematical value of an [`AnimatedLayoutProp`].
pub ghost struct AnimatedLayoutPropView {
    pub transition: TransitionView,
    pub origin: Seq<char>,
    pub target: Seq<char>,
}

impl View for AnimatedLayoutProp {
    type V = AnimatedLayoutPropView;

    open spec fn view(&self) -> AnimatedLayoutPropView {
        AnimatedLayoutPropView {
            transition: self.transition@,
            origin: self.origin@,
            target: self.target@,
        }
    }
}

impl AnimatedLayoutPropView {
    /// Whether the animation starts anew when the layout goes from `prev`
    /// to `next`: it does where the property is given in pixels in both,
    /// and `next` gives another number than the animation is headed for.
    pub open spec fn restarts(
        self,
        prop: TransitionProperty,
        prev: StyleView,
        next: StyleView,
    ) -> bool {
        endpoints(prop, prev, next) matches Some((_, to)) && !same_number(to, self.target)
    }

    /// The animation once the layout has gone from `prev` to `next`. An
    /// animation that starts anew starts from the value that the property
    /// has in `prev`, which is the value that it has reached, and is headed
    /// for the value that it has in `next`.
    pub open spec fn restarted(
        self,
        prop: TransitionProperty,
        prev: StyleView,
        next: StyleView,
    ) -> AnimatedLayoutPropView {
        match endpoints(prop, prev, next) {
            Some((from, to)) => if !same_number(to, self.target) {
                AnimatedLayoutPropView { origin: from, target: to, ..self }
            } else {
                self
            },
            None => self,
        }
    }
}

impl AnimatedLayoutProp {
    /// An animation that follows `transition`, from 0 to 0.
    pub fn new(transition: Transition) -> (r: AnimatedLayoutProp)
        ensures
            r@ == (AnimatedLayoutPropView {
                transition: transition@,
                origin: "0"@,
                target: "0"@,
            }),
    {
        AnimatedLayoutProp { transition, origin: Number::zero(), target: Number::zero() }
    }

    /// Starts the animation anew if the value that it is headed for
    /// changed, and says whether it did. `prev_style` holds the values
    /// that the properties have reached, `next_style` the values that they
    /// are to reach. Where the animation starts anew, the time that has
    /// passed starts at 0 again.
    pub fn restart_if_changed(
        &mut self,
        prop: TransitionProperty,
        prev_style: &Style,
        next_style: &Style,
    ) -> (r: bool)
        requires
            prop.spec_kind() == TransitionKind::Layout,
        ensures
            r == old(self)@.restarts(prop, prev_style@, next_style@),
            final(self)@ == old(self)@.restarted(prop, prev_style@, next_style@),
    {
        let next = next_style.layout_value(prop);
        let prev = prev_style.layout_value(prop);
        match (next, prev) {
            (Val::Px(next_value), Val::Px(prev_value)) => {
                if !self.target.same(next_value) {
                    self.origin = prev_value.clone();
                    self.target = next_value.clone();
                    true
                } else {
                    false
                }
            },
            _ => false,
        }
    }
}

} // verus!

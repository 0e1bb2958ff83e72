//! Setting the computed style of an element: what is to be done to the
//! element, given what it carries.
//!
//! The host keeps colours, image, outline and the like as parts that an
//! element carries or does not carry. Setting a computed style comes down
//! to a change for each part. This module decides the changes; the host
//! makes them.

use vstd::prelude::*;
use crate::computed::ComputedStyleView;
use crate::transition::{
    animated_kinds, find_kind, first_of_kind, has_kind, transition_views, AnimatedKinds, Transition, TransitionKind,
    TransitionView,
};
use crate::update::UpdateComputedStyle;
use crate::values::{Color, ColorView, PointerEvents, Val, ValView, ZIndex};

verus! {

/// What an element carries when its computed style is set.
#[derive(Clone, Copy, Debug, PartialEq, Eq, Structural)]
pub struct ElementFacts {
    /// Whether it has a background colour.
    pub has_background: bool,
    /// Whether it has a border colour.
    pub has_border_color: bool,
    /// Whether it has an image.
    pub has_image: bool,
    /// Whether it has an outline.
    pub has_outline: bool,
    /// Its place in the stacking order, if it has one.
    pub z_index: Option<ZIndex>,
    /// Whether it says how it takes pointer events.
    pub has_pickable: bool,
}

/// A change to the background colour of an element.
#[derive(Debug, PartialEq, Eq)]
pub enum BackgroundChange {
    /// Leave it as it is.
    Keep,
    /// Take the background colour away.
    Remove,
    /// Give the element this background colour, which it has none of yet.
    Insert(Color),
    /// Give the element the background colour that images are drawn on,
    /// which is white.
    InsertDefault,
    /// Make this the background colour that the element has.
    Change(Color),
}

/// The mathematical value of a [`BackgroundChange`].
pub ghost enum BackgroundChangeView {
    Keep,
    Remove,
    Insert(ColorView),
    InsertDefault,
    Change(ColorView),
}

impl View for BackgroundChange {
    type V = BackgroundChangeView;

    open spec fn view(&self) -> BackgroundChangeView {
        match self {
            BackgroundChange::Keep => BackgroundChangeView::Keep,
            BackgroundChange::Remove => BackgroundChangeView::Remove,
            BackgroundChange::Insert(c) => BackgroundChangeView::Insert(c@),
            BackgroundChange::InsertDefault => BackgroundChangeView::InsertDefault,
            BackgroundChange::Change(c) => BackgroundChangeView::Change(c@),
        }
    }
}

/// A change to the border colour of an element.
#[derive(Debug, PartialEq, Eq)]
pub enum BorderChange {
    /// Leave it as it is.
    Keep,
    /// Take the border colour away.
    Remove,
    /// Give the element this border colour, which it has none of yet.
    Insert(Color),
    /// Make this the border colour that the element has.
    Change(Color),
}

/// The mathematical value of a [`BorderChange`].
pub ghost enum BorderChangeView {
    Keep,
    Remove,
    Insert(ColorView),
    Change(ColorView),
}

impl View for BorderChange {
    type V = BorderChangeView;

    open spec fn view(&self) -> BorderChangeView {
        match self {
            BorderChange::Keep => BorderChangeView::Keep,
            BorderChange::Remove => BorderChangeView::Remove,
            BorderChange::Insert(c) => BorderChangeView::Insert(c@),
            BorderChange::Change(c) => BorderChangeView::Change(c@),
        }
    }
}

/// An image as an element shows it.
#[derive(Debug, PartialEq, Eq)]
pub struct ImageSetting {
    /// The path of the asset.
    pub path: String,
    /// Whether the image is mirrored horizontally.
    pub flip_x: bool,
    /// Whether the image is mirrored vertically.
    pub flip_y: bool,
}

/// The mathematical value of an [`ImageSetting`].
pub ghost struct ImageSettingView {
    pub path: Seq<char>,
    pub flip_x: bool,
    pub flip_y: bool,
}

impl View for ImageSetting {
    type V = ImageSettingView;

    open spec fn view(&self) -> ImageSettingView {
        ImageSettingView { path: self.path@, flip_x: self.flip_x, flip_y: self.flip_y }
    }
}

/// A change to the image of an element.
#[derive(Debug, PartialEq, Eq)]
pub enum ImageChange {
    /// Leave it as it is.
    Keep,
    /// Take the image away.
    Remove,
    /// Give the element this image, which it has none of yet.
    Insert(ImageSetting),
    /// Make this the image that the element has.
    Change(ImageSetting),
}

/// The mathematical value of an [`ImageChange`].
pub ghost enum ImageChangeView {
    Keep,
    Remove,
    Insert(ImageSettingView),
    Change(ImageSettingView),
}

impl View for ImageChange {
    type V = ImageChangeView;

    open spec fn view(&self) -> ImageChangeView {
        match self {
            ImageChange::Keep => ImageChangeView::Keep,
            ImageChange::Remove => ImageChangeView::Remove,
            ImageChange::Insert(i) => ImageChangeView::Insert(i@),
            ImageChange::Change(i) => ImageChangeView::Change(i@),
        }
    }
}

/// An outline as an element shows it.
#[derive(Debug, PartialEq, Eq)]
pub struct OutlineSetting {
    pub width: Val,
    pub offset: Val,
    pub color: Color,
}

/// The mathematical value of an [`OutlineSetting`].
pub ghost struct OutlineSettingView {
    pub width: ValView,
    pub offset: ValView,
    pub color: ColorView,
}

impl View for OutlineSetting {
    type V = OutlineSettingView;

    open spec fn view(&self) -> OutlineSettingView {
        OutlineSettingView { width: self.width@, offset: self.offset@, color: self.color@ }
    }
}

/// A change to the outline of an element.
#[derive(Debug, PartialEq, Eq)]
pub enum OutlineChange {
    /// Leave it as it is.
    Keep,
    /// Take the outline away.
    Remove,
    /// Give the element this outline, which it has none of yet.
    Insert(OutlineSetting),
    /// Make this the outline that the element has.
    Change(OutlineSetting),
}

/// The mathematical value of an [`OutlineChange`].
pub ghost enum OutlineChangeView {
    Keep,
    Remove,
    Insert(OutlineSettingView),
    Change(OutlineSettingView),
}

impl View for OutlineChange {
    type V = OutlineChangeView;

    open spec fn view(&self) -> OutlineChangeView {
        match self {
            OutlineChange::Keep => OutlineChangeView::Keep,
            OutlineChange::Remove => OutlineChangeView::Remove,
            OutlineChange::Insert(o) => OutlineChangeView::Insert(o@),
            OutlineChange::Change(o) => OutlineChangeView::Change(o@),
        }
    }
}

/// A change to the place of an element in the stacking order.
#[derive(Clone, Copy, Debug, PartialEq, Eq, Structural)]
pub enum ZIndexChange {
    /// Leave it as it is.
    Keep,
    /// Take the place away: the element is stacked as its siblings are.
    Remove,
    /// Give the element this place.
    Insert(ZIndex),
}

/// A change to how an element takes pointer events.
#[derive(Clone, Copy, Debug, PartialEq, Eq, Structural)]
pub enum PickableChange {
    /// Leave it as it is.
    Keep,
    /// Take the setting away.
    Remove,
    /// Give the element the setting, which it has none of yet: whether it
    /// takes pointer events and holds them back from what lies under it.
    Insert(bool),
    /// Make this the setting that the element has.
    Change(bool),
}

/// What is to be done to an element to set its computed style.
#[derive(Debug, PartialEq, Eq)]
pub struct UpdatePlan {
    /// The kinds of transition that the computed style asks for.
    pub animated: AnimatedKinds,
    /// The change to the background colour, unless it is animated.
    pub background: BackgroundChange,
    /// The change to the border colour, unless it is animated.
    pub border: BorderChange,
    /// The change to the image.
    pub image: ImageChange,
    /// The change to the outline.
    pub outline: OutlineChange,
    /// The change to the place in the stacking order.
    pub z_index: ZIndexChange,
    /// The change to how the element takes pointer events.
    pub pickable: PickableChange,
}

/// The mathematical value of an [`UpdatePlan`].
pub ghost struct UpdatePlanView {
    pub animated: AnimatedKinds,
    pub background: BackgroundChangeView,
    pub border: BorderChangeView,
    pub image: ImageChangeView,
    pub outline: OutlineChangeView,
    pub z_index: ZIndexChange,
    pub pickable: PickableChange,
}

impl View for UpdatePlan {
    type V = UpdatePlanView;

    open spec fn view(&self) -> UpdatePlanView {
        UpdatePlanView {
            animated: self.animated,
            background: self.background@,
            border: self.border@,
            image: self.image@,
            outline: self.outline@,
            z_index: self.z_index,
            pickable: self.pickable,
        }
    }
}

impl ComputedStyleView {
    /// The change to the background colour. An element without a
    /// background colour gets the computed one, or the one that images are
    /// drawn on where it has an image and no colour. An element with a
    /// background colour takes the computed one, and loses its own where
    /// there is neither a computed one nor an image.
    pub open spec fn background_change(self, has_background: bool) -> BackgroundChangeView {
        match self.background_color {
            Some(color) => if has_background {
                BackgroundChangeView::Change(color)
            } else {
                BackgroundChangeView::Insert(color)
            },
            None => if has_background {
                if self.image is None {
                    BackgroundChangeView::Remove
                } else {
                    BackgroundChangeView::Keep
                }
            } else {
                if self.image is Some {
                    BackgroundChangeView::InsertDefault
                } else {
                    BackgroundChangeView::Keep
                }
            },
        }
    }

    /// The change to the border colour: the element takes the computed
    /// one, and loses its own where there is none.
    pub open spec fn border_change(self, has_border_color: bool) -> BorderChangeView {
        match self.border_color {
            Some(color) => if has_border_color {
                BorderChangeView::Change(color)
            } else {
                BorderChangeView::Insert(color)
            },
            None => if has_border_color {
                BorderChangeView::Remove
            } else {
                BorderChangeView::Keep
            },
        }
    }

    /// The change to the image: the element takes the computed one, and
    /// loses its own where there is none.
    pub open spec fn image_change(self, has_image: bool) -> ImageChangeView {
        match self.image {
            Some(path) => {
                let setting = ImageSettingView { path, flip_x: self.flip_x, flip_y: self.flip_y };
                if has_image {
                    ImageChangeView::Change(setting)
                } else {
                    ImageChangeView::Insert(setting)
                }
            },
            None => if has_image {
                ImageChangeView::Remove
            } else {
                ImageChangeView::Keep
            },
        }
    }

    /// The change to the outline: the element has one where an outline
    /// colour is computed.
    pub open spec fn outline_change(self, has_outline: bool) -> OutlineChangeView {
        match self.outline_color {
            Some(color) => {
                let setting = OutlineSettingView {
                    width: self.outline_width,
                    offset: self.outline_offset,
                    color,
                };
                if has_outline {
                    OutlineChangeView::Change(setting)
                } else {
                    OutlineChangeView::Insert(setting)
                }
            },
            None => if has_outline {
                OutlineChangeView::Remove
            } else {
                OutlineChangeView::Keep
            },
        }
    }

    /// The change to the place in the stacking order. An element without a
    /// place keeps none. An element with a place takes the computed one
    /// unless it has it already; the place 0 among its siblings is no
    /// place, and the element loses its own.
    pub open spec fn z_index_change(self, existing: Option<ZIndex>) -> ZIndexChange {
        match existing {
            None => ZIndexChange::Keep,
            Some(old_place) => match self.z_index {
                ZIndex::Local(place) => if place == 0 {
                    ZIndexChange::Remove
                } else if old_place == ZIndex::Local(place) {
                    ZIndexChange::Keep
                } else {
                    ZIndexChange::Insert(ZIndex::Local(place))
                },
                ZIndex::Global(place) => if old_place == ZIndex::Global(place) {
                    ZIndexChange::Keep
                } else {
                    ZIndexChange::Insert(ZIndex::Global(place))
                },
            },
        }
    }

    /// The change to how the element takes pointer events.
    pub open spec fn pickable_change(self, has_pickable: bool) -> PickableChange {
        match self.pickable {
            Some(events) => if has_pickable {
                PickableChange::Change(events == PointerEvents::All)
            } else {
                PickableChange::Insert(events == PointerEvents::All)
            },
            None => if has_pickable {
                PickableChange::Remove
            } else {
                PickableChange::Keep
            },
        }
    }

    /// The kinds of transition that the computed style asks for.
    pub open spec fn animated(self) -> AnimatedKinds {
        AnimatedKinds {
            transform: has_kind(self.transitions, TransitionKind::Transform),
            background_color: has_kind(self.transitions, TransitionKind::BackgroundColor),
            border_color: has_kind(self.transitions, TransitionKind::BorderColor),
            layout: has_kind(self.transitions, TransitionKind::Layout),
        }
    }

    /// What is to be done to an element that carries `facts` to set this
    /// computed style.
    pub open spec fn plan(self, facts: ElementFacts) -> UpdatePlanView {
        UpdatePlanView {
            animated: self.animated(),
            background: self.background_change(facts.has_background),
            border: self.border_change(facts.has_border_color),
            image: self.image_change(facts.has_image),
            outline: self.outline_change(facts.has_outline),
            z_index: self.z_index_change(facts.z_index),
            pickable: self.pickable_change(facts.has_pickable),
        }
    }
}

impl UpdateComputedStyle {
    /// The change to the background colour.
    pub fn background_change(&self, has_background: bool) -> (r: BackgroundChange)
        ensures
            r@ == self.computed@.background_change(has_background),
    {
        match &self.computed.background_color {
            Some(color) => {
                if has_background {
                    BackgroundChange::Change(color.clone())
                } else {
                    BackgroundChange::Insert(color.clone())
                }
            },
            None => {
                if has_background {
                    if self.computed.image.is_none() {
                        BackgroundChange::Remove
                    } else {
                        BackgroundChange::Keep
                    }
                } else if self.computed.image.is_some() {
                    BackgroundChange::InsertDefault
                } else {
                    BackgroundChange::Keep
                }
            },
        }
    }

    /// The change to the border colour.
    pub fn border_change(&self, has_border_color: bool) -> (r: BorderChange)
        ensures
            r@ == self.computed@.border_change(has_border_color),
    {
        match &self.computed.border_color {
            Some(color) => {
                if has_border_color {
                    BorderChange::Change(color.clone())
                } else {
                    BorderChange::Insert(color.clone())
                }
            },
            None => {
                if has_border_color {
                    BorderChange::Remove
                } else {
                    BorderChange::Keep
                }
            },
        }
    }

    /// The change to the image.
    pub fn image_change(&self, has_image: bool) -> (r: ImageChange)
        ensures
            r@ == self.computed@.image_change(has_image),
    {
        match &self.computed.image {
            Some(path) => {
                let setting = ImageSetting {
                    path: path.clone(),
                    flip_x: self.computed.flip_x,
                    flip_y: self.computed.flip_y,
                };
                if has_image {
                    ImageChange::Change(setting)
                } else {
                    ImageChange::Insert(setting)
                }
            },
            None => {
                if has_image {
                    ImageChange::Remove
                } else {
                    ImageChange::Keep
                }
            },
        }
    }

    /// The change to the outline.
    pub fn outline_change(&self, has_outline: bool) -> (r: OutlineChange)
        ensures
            r@ == self.computed@.outline_change(has_outline),
    {
        match &self.computed.outline_color {
            Some(color) => {
                let setting = OutlineSetting {
                    width: self.computed.outline_width.clone(),
                    offset: self.computed.outline_offset.clone(),
                    color: color.clone(),
                };
                if has_outline {
                    OutlineChange::Change(setting)
                } else {
                    OutlineChange::Insert(setting)
                }
            },
            None => {
                if has_outline {
                    OutlineChange::Remove
                } else {
                    OutlineChange::Keep
                }
            },
        }
    }

    /// The change to the place in the stacking order.
    pub fn z_index_change(&self, existing: Option<ZIndex>) -> (r: ZIndexChange)
        ensures
            r == self.computed@.z_index_change(existing),
    {
        match (self.computed.z_index, existing) {
            (ZIndex::Local(zi), Some(ZIndex::Local(zo))) if zi != 0 && zi == zo => {
                ZIndexChange::Keep
            },
            (ZIndex::Global(zi), Some(ZIndex::Global(zo))) if zi == zo => ZIndexChange::Keep,
            (ZIndex::Local(zi), Some(_)) if zi != 0 => ZIndexChange::Insert(ZIndex::Local(zi)),
            (ZIndex::Global(zi), Some(_)) => ZIndexChange::Insert(ZIndex::Global(zi)),
            (_, Some(_)) => ZIndexChange::Remove,
            (_, None) => ZIndexChange::Keep,
        }
    }

    /// The change to how the element takes pointer events.
    pub fn update_picking(&self, has_pickable: bool) -> (r: PickableChange)
        ensures
            r == self.computed@.pickable_change(has_pickable),
    {
        match (self.computed.pickable, has_pickable) {
            (Some(pe), true) => PickableChange::Change(pe == PointerEvents::All),
            (None, true) => PickableChange::Remove,
            (Some(pe), false) => PickableChange::Insert(pe == PointerEvents::All),
            (None, false) => PickableChange::Keep,
        }
    }

    /// What is to be done to the element, which carries `facts`, to set
    /// its computed style.
    pub fn plan(&self, facts: &ElementFacts) -> (r: UpdatePlan)
        ensures
            r@ == self.computed@.plan(*facts),
    {
        UpdatePlan {
            animated: animated_kinds(&self.computed.transitions),
            background: self.background_change(facts.has_background),
            border: self.border_change(facts.has_border_color),
            image: self.image_change(facts.has_image),
            outline: self.outline_change(facts.has_outline),
            z_index: self.z_index_change(facts.z_index),
            pickable: self.update_picking(facts.has_pickable),
        }
    }

    /// The transitions of layout properties that the computed style asks
    /// for, in their order.
    pub fn layout_transitions(&self) -> (r: Vec<Transition>)
        ensures
            transition_views(r@) == self.computed@.transitions.filter(
                |t: TransitionView| t.property.spec_kind() == TransitionKind::Layout,
            ),
    {
        let list = &self.computed.transitions;
        let ghost views = transition_views(list@);
        let ghost keep = |t: TransitionView| t.property.spec_kind() == TransitionKind::Layout;
        let mut out: Vec<Transition> = Vec::new();
        let mut i: usize = 0;
        proof {
            assert(views.take(0) == Seq::<TransitionView>::empty());
            assert(transition_views(out@) =~= Seq::<TransitionView>::empty());
            
            assert(Seq::<TransitionView>::empty().filter(keep) =~= Seq::<TransitionView>::empty())
                by {
                reveal(Seq::filter);
            }
        }
        while i < list.len()
            invariant
                i <= list.len(),
                views == transition_views(list@),
                keep == (|t: TransitionView| t.property.spec_kind() == TransitionKind::Layout),
                transition_views(out@) == views.take(i as int).filter(keep),
            decreases list.len() - i,
        {
            proof {
                reveal(Seq::filter);
                assert(views.take(i + 1).drop_last() == views.take(i as int));
                assert(views.take(i + 1).last() == list@[i as int]@);
            }
            if list[i].property.kind() == TransitionKind::Layout {
                let t = list[i].clone();
                proof {
                    assert(transition_views(out@.push(t)) =~= transition_views(out@).push(t@));
                }
                out.push(t);
            }
            i += 1;
        }
        proof {
            assert(views.take(list.len() as int) == views);
        }
        out
    }

    /// The first transition of the transform that the computed style asks
    /// for, if it asks for one.
    pub fn transform_transition(&self) -> (r: Option<Transition>)
        ensures
            match r {
                Some(t) => first_of_kind(self.computed@.transitions, TransitionKind::Transform)
                    == Some(t@),
                None => first_of_kind(self.computed@.transitions, TransitionKind::Transform)
                    is None,
            },
    {
        find_kind(&self.computed.transitions, TransitionKind::Transform)
    }
}

} // verus!

//! The computed style of an element: what its styles come to, property by
//! property.

use vstd::prelude::*;
use crate::number::Number;
use crate::style::{
    clone_color, clone_number, clone_text, color_view, number_view, prop_views, text_view,
    Property, StyleProp, StylePropView, Translation, TranslationView, ValueView,
};
use crate::transition::{clone_transitions, transition_views, Transition, TransitionView};
use crate::values::{
    AlignContent, AlignItems, AlignSelf, Color, ColorView, Direction, Display, FlexDirection,
    FlexWrap, GridAutoFlow, JustifyContent, JustifyItems, JustifySelf, OverflowAxis,
    PointerEvents, PositionType, UiRect, UiRectView, Val, ValView, ZIndex,
};

verus! {

broadcast use vstd::string::group_string_axioms;

/// Where an item lies in a grid, along one axis. What is not said is
/// worked out by the layout.
#[derive(Debug, Clone, Copy, PartialEq, Eq, Structural)]
pub struct GridPlacement {
    /// The grid line at which the item starts.
    pub start: Option<i16>,
    /// The number of tracks that the item spans.
    pub span: Option<u16>,
    /// The grid line at which the item ends.
    pub end: Option<i16>,
}

/// The value of a translation that may be absent.
pub open spec fn translation_view(translation: Option<Translation>) -> Option<TranslationView> {
    match translation {
        Some(t) => Some(t@),
        None => None,
    }
}

/// A copy of a translation that may be absent.
pub fn clone_translation(translation: &Option<Translation>) -> (r: Option<Translation>)
    ensures
        translation_view(r) == translation_view(*translation),
{
    match translation {
        Some(t) => Some(t.clone()),
        None => None,
    }
}

/// The layout of an element.
#[derive(Debug, PartialEq, Eq)]
pub struct Style {
    pub display: Display,
    pub position_type: PositionType,
    pub overflow_x: OverflowAxis,
    pub overflow_y: OverflowAxis,
    pub direction: Direction,
    pub left: Val,
    pub right: Val,
    pub top: Val,
    pub bottom: Val,
    pub width: Val,
    pub height: Val,
    pub min_width: Val,
    pub min_height: Val,
    pub max_width: Val,
    pub max_height: Val,
    pub aspect_ratio: Option<Number>,
    pub align_items: AlignItems,
    pub justify_items: JustifyItems,
    pub align_self: AlignSelf,
    pub justify_self: JustifySelf,
    pub align_content: AlignContent,
    pub justify_content: JustifyContent,
    pub margin: UiRect,
    pub padding: UiRect,
    pub border: UiRect,
    pub flex_direction: FlexDirection,
    pub flex_wrap: FlexWrap,
    pub flex_grow: Number,
    pub flex_shrink: Number,
    pub flex_basis: Val,
    pub row_gap: Val,
    pub column_gap: Val,
    pub grid_auto_flow: GridAutoFlow,
    pub grid_row: GridPlacement,
    pub grid_column: GridPlacement,
}

/// The mathematical value of a [`Style`].
pub ghost struct StyleView {
    pub display: Display,
    pub position_type: PositionType,
    pub overflow_x: OverflowAxis,
    pub overflow_y: OverflowAxis,
    pub direction: Direction,
    pub left: ValView,
    pub right: ValView,
    pub top: ValView,
    pub bottom: ValView,
    pub width: ValView,
    pub height: ValView,
    pub min_width: ValView,
    pub min_height: ValView,
    pub max_width: ValView,
    pub max_height: ValView,
    pub aspect_ratio: Option<Seq<char>>,
    pub align_items: AlignItems,
    pub justify_items: JustifyItems,
    pub align_self: AlignSelf,
    pub justify_self: JustifySelf,
    pub align_content: AlignContent,
    pub justify_content: JustifyContent,
    pub margin: UiRectView,
    pub padding: UiRectView,
    pub border: UiRectView,
    pub flex_direction: FlexDirection,
    pub flex_wrap: FlexWrap,
    pub flex_grow: Seq<char>,
    pub flex_shrink: Seq<char>,
    pub flex_basis: ValView,
    pub row_gap: ValView,
    pub column_gap: ValView,
    pub grid_auto_flow: GridAutoFlow,
    pub grid_row: GridPlacement,
    pub grid_column: GridPlacement,
}

impl View for Style {
    type V = StyleView;

    open spec fn view(&self) -> StyleView {
        StyleView {
            display: self.display,
            position_type: self.position_type,
            overflow_x: self.overflow_x,
            overflow_y: self.overflow_y,
            direction: self.direction,
            left: self.left@,
            right: self.right@,
            top: self.top@,
            bottom: self.bottom@,
            width: self.width@,
            height: self.height@,
            min_width: self.min_width@,
            min_height: self.min_height@,
            max_width: self.max_width@,
            max_height: self.max_height@,
            aspect_ratio: number_view(self.aspect_ratio),
            align_items: self.align_items,
            justify_items: self.justify_items,
            align_self: self.align_self,
            justify_self: self.justify_self,
            align_content: self.align_content,
            justify_content: self.justify_content,
            margin: self.margin@,
            padding: self.padding@,
            border: self.border@,
            flex_direction: self.flex_direction,
            flex_wrap: self.flex_wrap,
            flex_grow: self.flex_grow@,
            flex_shrink: self.flex_shrink@,
            flex_basis: self.flex_basis@,
            row_gap: self.row_gap@,
            column_gap: self.column_gap@,
            grid_auto_flow: self.grid_auto_flow,
            grid_row: self.grid_row,
            grid_column: self.grid_column,
        }
    }
}

impl StyleView {
    /// The layout of an element that no style has touched.
    pub open spec fn initial() -> StyleView {
        StyleView {
            display: Display::Flex,
            position_type: PositionType::Relative,
            overflow_x: OverflowAxis::Visible,
            overflow_y: OverflowAxis::Visible,
            direction: Direction::Inherit,
            left: ValView::Auto,
            right: ValView::Auto,
            top: ValView::Auto,
            bottom: ValView::Auto,
            width: ValView::Auto,
            height: ValView::Auto,
            min_width: ValView::Auto,
            min_height: ValView::Auto,
            max_width: ValView::Auto,
            max_height: ValView::Auto,
            aspect_ratio: None,
            align_items: AlignItems::Default,
            justify_items: JustifyItems::Default,
            align_self: AlignSelf::Auto,
            justify_self: JustifySelf::Auto,
            align_content: AlignContent::Default,
            justify_content: JustifyContent::Default,
            margin: UiRectView::all(ValView::Px("0"@)),
            padding: UiRectView::all(ValView::Px("0"@)),
            border: UiRectView::all(ValView::Px("0"@)),
            flex_direction: FlexDirection::Row,
            flex_wrap: FlexWrap::NoWrap,
            flex_grow: "0"@,
            flex_shrink: "1"@,
            flex_basis: ValView::Auto,
            row_gap: ValView::Px("0"@),
            column_gap: ValView::Px("0"@),
            grid_auto_flow: GridAutoFlow::Row,
            grid_row: GridPlacement { start: None, span: None, end: None },
            grid_column: GridPlacement { start: None, span: None, end: None },
        }
    }

    /// The layout once `prop` has been applied to it: where `prop` sets a
    /// property of the layout, the property takes its value, whatever it
    /// was before. A property that stands for several takes them all.
    pub open spec fn apply(self, prop: StylePropView) -> StyleView {
        match (prop.property, prop.value) {
            (Property::Display, ValueView::Display(v)) => StyleView { display: v, ..self },
            (Property::Position, ValueView::Position(v)) => StyleView { position_type: v, ..self },
            (Property::Overflow, ValueView::Overflow(v)) => StyleView {
                overflow_x: v,
                overflow_y: v,
                ..self
            },
            (Property::OverflowX, ValueView::Overflow(v)) => StyleView { overflow_x: v, ..self },
            (Property::OverflowY, ValueView::Overflow(v)) => StyleView { overflow_y: v, ..self },
            (Property::Direction, ValueView::Direction(v)) => StyleView { direction: v, ..self },
            (Property::Left, ValueView::Length(v)) => StyleView { left: v, ..self },
            (Property::Right, ValueView::Length(v)) => StyleView { right: v, ..self },
            (Property::Top, ValueView::Length(v)) => StyleView { top: v, ..self },
            (Property::Bottom, ValueView::Length(v)) => StyleView { bottom: v, ..self },
            (Property::Width, ValueView::Length(v)) => StyleView { width: v, ..self },
            (Property::Height, ValueView::Length(v)) => StyleView { height: v, ..self },
            (Property::MinWidth, ValueView::Length(v)) => StyleView { min_width: v, ..self },
            (Property::MinHeight, ValueView::Length(v)) => StyleView { min_height: v, ..self },
            (Property::MaxWidth, ValueView::Length(v)) => StyleView { max_width: v, ..self },
            (Property::MaxHeight, ValueView::Length(v)) => StyleView { max_height: v, ..self },
            (Property::AspectRatio, ValueView::Ratio(v)) => StyleView { aspect_ratio: v, ..self },
            (Property::Margin, ValueView::Rect(v)) => StyleView { margin: v, ..self },
            (Property::MarginLeft, ValueView::Length(v)) => StyleView {
                margin: UiRectView { left: v, ..self.margin },
                ..self
            },
            (Property::MarginRight, ValueView::Length(v)) => StyleView {
                margin: UiRectView { right: v, ..self.margin },
                ..self
            },
            (Property::MarginTop, ValueView::Length(v)) => StyleView {
                margin: UiRectView { top: v, ..self.margin },
                ..self
            },
            (Property::MarginBottom, ValueView::Length(v)) => StyleView {
                margin: UiRectView { bottom: v, ..self.margin },
                ..self
            },
            (Property::Padding, ValueView::Rect(v)) => StyleView { padding: v, ..self },
            (Property::PaddingLeft, ValueView::Length(v)) => StyleView {
                padding: UiRectView { left: v, ..self.padding },
                ..self
            },
            (Property::PaddingRight, ValueView::Length(v)) => StyleView {
                padding: UiRectView { right: v, ..self.padding },
                ..self
            },
            (Property::PaddingTop, ValueView::Length(v)) => StyleView {
                padding: UiRectView { top: v, ..self.padding },
                ..self
            },
            (Property::PaddingBottom, ValueView::Length(v)) => StyleView {
                padding: UiRectView { bottom: v, ..self.padding },
                ..self
            },
            (Property::Border, ValueView::Rect(v)) => StyleView { border: v, ..self },
            (Property::BorderLeft, ValueView::Length(v)) => StyleView {
                border: UiRectView { left: v, ..self.border },
                ..self
            },
            (Property::BorderRight, ValueView::Length(v)) => StyleView {
                border: UiRectView { right: v, ..self.border },
                ..self
            },
            (Property::BorderTop, ValueView::Length(v)) => StyleView {
                border: UiRectView { top: v, ..self.border },
                ..self
            },
            (Property::BorderBottom, ValueView::Length(v)) => StyleView {
                border: UiRectView { bottom: v, ..self.border },
                ..self
            },
            (Property::FlexDirection, ValueView::FlexDirection(v)) => StyleView {
                flex_direction: v,
                ..self
            },
            (Property::FlexWrap, ValueView::FlexWrap(v)) => StyleView { flex_wrap: v, ..self },
            (Property::FlexGrow, ValueView::Scalar(v)) => StyleView { flex_grow: v, ..self },
            (Property::FlexShrink, ValueView::Scalar(v)) => StyleView { flex_shrink: v, ..self },
            (Property::FlexBasis, ValueView::Length(v)) => StyleView { flex_basis: v, ..self },
            (Property::RowGap, ValueView::Length(v)) => StyleView { row_gap: v, ..self },
            (Property::ColumnGap, ValueView::Length(v)) => StyleView { column_gap: v, ..self },
            (Property::Gap, ValueView::Length(v)) => StyleView {
                row_gap: v,
                column_gap: v,
                ..self
            },
            (Property::AlignItems, ValueView::AlignItems(v)) => StyleView {
                align_items: v,
                ..self
            },
            (Property::AlignSelf, ValueView::AlignSelf(v)) => StyleView { align_self: v, ..self },
            (Property::AlignContent, ValueView::AlignContent(v)) => StyleView {
                align_content: v,
                ..self
            },
            (Property::JustifyItems, ValueView::JustifyItems(v)) => StyleView {
                justify_items: v,
                ..self
            },
            (Property::JustifySelf, ValueView::JustifySelf(v)) => StyleView {
                justify_self: v,
                ..self
            },
            (Property::JustifyContent, ValueView::JustifyContent(v)) => StyleView {
                justify_content: v,
                ..self
            },
            (Property::GridAutoFlow, ValueView::GridAutoFlow(v)) => StyleView {
                grid_auto_flow: v,
                ..self
            },
            (Property::GridRowStart, ValueView::Line(v)) => StyleView {
                grid_row: GridPlacement { start: Some(v), ..self.grid_row },
                ..self
            },
            (Property::GridRowSpan, ValueView::Span(v)) => StyleView {
                grid_row: GridPlacement { span: Some(v), ..self.grid_row },
                ..self
            },
            (Property::GridRowEnd, ValueView::Line(v)) => StyleView {
                grid_row: GridPlacement { end: Some(v), ..self.grid_row },
                ..self
            },
            (Property::GridColumnStart, ValueView::Line(v)) => StyleView {
                grid_column: GridPlacement { start: Some(v), ..self.grid_column },
                ..self
            },
            (Property::GridColumnSpan, ValueView::Span(v)) => StyleView {
                grid_column: GridPlacement { span: Some(v), ..self.grid_column },
                ..self
            },
            (Property::GridColumnEnd, ValueView::Line(v)) => StyleView {
                grid_column: GridPlacement { end: Some(v), ..self.grid_column },
                ..self
            },
            _ => self,
        }
    }
}

impl Default for Style {
    /// The layout of an element that no style has touched.
    fn default() -> (r: Style)
        ensures
            r@ == StyleView::initial(),
    {
        Style {
            display: Display::Flex,
            position_type: PositionType::Relative,
            overflow_x: OverflowAxis::Visible,
            overflow_y: OverflowAxis::Visible,
            direction: Direction::Inherit,
            left: Val::Auto,
            right: Val::Auto,
            top: Val::Auto,
            bottom: Val::Auto,
            width: Val::Auto,
            height: Val::Auto,
            min_width: Val::Auto,
            min_height: Val::Auto,
            max_width: Val::Auto,
            max_height: Val::Auto,
            aspect_ratio: None,
            align_items: AlignItems::Default,
            justify_items: JustifyItems::Default,
            align_self: AlignSelf::Auto,
            justify_self: JustifySelf::Auto,
            align_content: AlignContent::Default,
            justify_content: JustifyContent::Default,
            margin: UiRect::all(Val::Px(Number::zero())),
            padding: UiRect::all(Val::Px(Number::zero())),
            border: UiRect::all(Val::Px(Number::zero())),
            flex_direction: FlexDirection::Row,
            flex_wrap: FlexWrap::NoWrap,
            flex_grow: Number::zero(),
            flex_shrink: Number::one(),
            flex_basis: Val::Auto,
            row_gap: Val::Px(Number::zero()),
            column_gap: Val::Px(Number::zero()),
            grid_auto_flow: GridAutoFlow::Row,
            grid_row: GridPlacement { start: None, span: None, end: None },
            grid_column: GridPlacement { start: None, span: None, end: None },
        }
    }
}

impl Clone for Style {
    fn clone(&self) -> (r: Style)
        ensures
            r@ == self@,
    {
        Style {
            display: self.display,
            position_type: self.position_type,
            overflow_x: self.overflow_x,
            overflow_y: self.overflow_y,
            direction: self.direction,
            left: self.left.clone(),
            right: self.right.clone(),
            top: self.top.clone(),
            bottom: self.bottom.clone(),
            width: self.width.clone(),
            height: self.height.clone(),
            min_width: self.min_width.clone(),
            min_height: self.min_height.clone(),
            max_width: self.max_width.clone(),
            max_height: self.max_height.clone(),
            aspect_ratio: clone_number(&self.aspect_ratio),
            align_items: self.align_items,
            justify_items: self.justify_items,
            align_self: self.align_self,
            justify_self: self.justify_self,
            align_content: self.align_content,
            justify_content: self.justify_content,
            margin: self.margin.clone(),
            padding: self.padding.clone(),
            border: self.border.clone(),
            flex_direction: self.flex_direction,
            flex_wrap: self.flex_wrap,
            flex_grow: self.flex_grow.clone(),
            flex_shrink: self.flex_shrink.clone(),
            flex_basis: self.flex_basis.clone(),
            row_gap: self.row_gap.clone(),
            column_gap: self.column_gap.clone(),
            grid_auto_flow: self.grid_auto_flow,
            grid_row: self.grid_row,
            grid_column: self.grid_column,
        }
    }
}

/// What the styles of an element come to.
#[derive(Debug, PartialEq, Eq)]
pub struct ComputedStyle {
    /// The layout.
    pub style: Style,
    /// The colour of text, if one is set.
    pub color: Option<Color>,
    /// The size of text, if one is set.
    pub font_size: Option<Number>,
    /// The font that the styles ask for, by the path of its asset.
    pub font: Option<String>,
    /// The font in effect, by the path of its asset.
    pub font_handle: Option<String>,
    /// The colour of the border, if it has one.
    pub border_color: Option<Color>,
    /// The colour of the background, if it has one.
    pub background_color: Option<Color>,
    /// The colour of the outline, if there is one.
    pub outline_color: Option<Color>,
    /// The width of the outline.
    pub outline_width: Val,
    /// The distance of the outline from the border.
    pub outline_offset: Val,
    /// The place in the stacking order.
    pub z_index: ZIndex,
    /// The horizontal scale, if one is set.
    pub scale_x: Option<Number>,
    /// The vertical scale, if one is set.
    pub scale_y: Option<Number>,
    /// The rotation, if one is set.
    pub rotation: Option<Number>,
    /// The translation, if one is set.
    pub translation: Option<Translation>,
    /// The image behind the content, by the path of its asset.
    pub image: Option<String>,
    /// Whether the image is mirrored horizontally.
    pub flip_x: bool,
    /// Whether the image is mirrored vertically.
    pub flip_y: bool,
    /// Whether the element takes pointer events, if that is set.
    pub pickable: Option<PointerEvents>,
    /// The transitions of the element.
    pub transitions: Vec<Transition>,
}

/// The mathematical value of a [`ComputedStyle`].
pub ghost struct ComputedStyleView {
    pub style: StyleView,
    pub color: Option<ColorView>,
    pub font_size: Option<Seq<char>>,
    pub font: Option<Seq<char>>,
    pub font_handle: Option<Seq<char>>,
    pub border_color: Option<ColorView>,
    pub background_color: Option<ColorView>,
    pub outline_color: Option<ColorView>,
    pub outline_width: ValView,
    pub outline_offset: ValView,
    pub z_index: ZIndex,
    pub scale_x: Option<Seq<char>>,
    pub scale_y: Option<Seq<char>>,
    pub rotation: Option<Seq<char>>,
    pub translation: Option<TranslationView>,
    pub image: Option<Seq<char>>,
    pub flip_x: bool,
    pub flip_y: bool,
    pub pickable: Option<PointerEvents>,
    pub transitions: Seq<TransitionView>,
}

impl View for ComputedStyle {
    type V = ComputedStyleView;

    open spec fn view(&self) -> ComputedStyleView {
        ComputedStyleView {
            style: self.style@,
            color: color_view(self.color),
            font_size: number_view(self.font_size),
            font: text_view(self.font),
            font_handle: text_view(self.font_handle),
            border_color: color_view(self.border_color),
            background_color: color_view(self.background_color),
            outline_color: color_view(self.outline_color),
            outline_width: self.outline_width@,
            outline_offset: self.outline_offset@,
            z_index: self.z_index,
            scale_x: number_view(self.scale_x),
            scale_y: number_view(self.scale_y),
            rotation: number_view(self.rotation),
            translation: translation_view(self.translation),
            image: text_view(self.image),
            flip_x: self.flip_x,
            flip_y: self.flip_y,
            pickable: self.pickable,
            transitions: transition_views(self.transitions@),
        }
    }
}

impl ComputedStyleView {
    /// The computed style of an element that no style has touched.
    pub open spec fn initial() -> ComputedStyleView {
        ComputedStyleView {
            style: StyleView::initial(),
            color: None,
            font_size: None,
            font: None,
            font_handle: None,
            border_color: None,
            background_color: None,
            outline_color: None,
            outline_width: ValView::Auto,
            outline_offset: ValView::Auto,
            z_index: ZIndex::Local(0),
            scale_x: None,
            scale_y: None,
            rotation: None,
            translation: None,
            image: None,
            flip_x: false,
            flip_y: false,
            pickable: None,
            transitions: Seq::empty(),
        }
    }

    /// What is not layout in the computed style, once `prop` has been
    /// applied to it.
    pub open spec fn apply_rest(self, prop: StylePropView) -> ComputedStyleView {
        match (prop.property, prop.value) {
            (Property::BackgroundImage, ValueView::Path(v)) => ComputedStyleView {
                image: v,
                ..self
            },
            (Property::BackgroundColor, ValueView::Color(v)) => ComputedStyleView {
                background_color: v,
                ..self
            },
            (Property::BorderColor, ValueView::Color(v)) => ComputedStyleView {
                border_color: v,
                ..self
            },
            (Property::Color, ValueView::Color(v)) => ComputedStyleView { color: v, ..self },
            (Property::ZIndex, ValueView::ZIndex(v)) => ComputedStyleView { z_index: v, ..self },
            (Property::PointerEvents, ValueView::PointerEvents(v)) => ComputedStyleView {
                pickable: Some(v),
                ..self
            },
            (Property::Font, ValueView::Path(v)) => ComputedStyleView { font: v, ..self },
            (Property::FontSize, ValueView::Scalar(v)) => ComputedStyleView {
                font_size: Some(v),
                ..self
            },
            (Property::OutlineColor, ValueView::Color(v)) => ComputedStyleView {
                outline_color: v,
                ..self
            },
            (Property::OutlineWidth, ValueView::Length(v)) => ComputedStyleView {
                outline_width: v,
                ..self
            },
            (Property::OutlineOffset, ValueView::Length(v)) => ComputedStyleView {
                outline_offset: v,
                ..self
            },
            (Property::Scale, ValueView::Scalar(v)) => ComputedStyleView {
                scale_x: Some(v),
                scale_y: Some(v),
                ..self
            },
            (Property::ScaleX, ValueView::Scalar(v)) => ComputedStyleView {
                scale_x: Some(v),
                ..self
            },
            (Property::ScaleY, ValueView::Scalar(v)) => ComputedStyleView {
                scale_y: Some(v),
                ..self
            },
            (Property::Rotation, ValueView::Scalar(v)) => ComputedStyleView {
                rotation: Some(v),
                ..self
            },
            (Property::Translation, ValueView::Translation(v)) => ComputedStyleView {
                translation: Some(v),
                ..self
            },
            (Property::Transition, ValueView::Transitions(v)) => ComputedStyleView {
                transitions: v,
                ..self
            },
            _ => self,
        }
    }

    /// The computed style once `prop` has been applied to it: the property
    /// takes the value of `prop`, whatever it was before. A property that
    /// stands for several takes them all. The shape of the pointer is no
    /// part of the computed style.
    pub open spec fn apply(self, prop: StylePropView) -> ComputedStyleView {
        ComputedStyleView { style: self.style.apply(prop), ..self.apply_rest(prop) }
    }

    /// The computed style once the properties `props` have been applied to
    /// it, in their order.
    pub open spec fn apply_all(self, props: Seq<StylePropView>) -> ComputedStyleView
        decreases props.len(),
    {
        if props.len() == 0 {
            self
        } else {
            self.apply_all(props.drop_last()).apply(props.last())
        }
    }
}

impl ComputedStyle {
    /// The computed style of an element that no style has touched.
    pub fn new() -> (r: ComputedStyle)
        ensures
            r@ == ComputedStyleView::initial(),
    {
        let r = ComputedStyle {
            style: Style::default(),
            color: None,
            font_size: None,
            font: None,
            font_handle: None,
            border_color: None,
            background_color: None,
            outline_color: None,
            outline_width: Val::Auto,
            outline_offset: Val::Auto,
            z_index: ZIndex::Local(0),
            scale_x: None,
            scale_y: None,
            rotation: None,
            translation: None,
            image: None,
            flip_x: false,
            flip_y: false,
            pickable: None,
            transitions: Vec::new(),
        };
        assert(transition_views(r.transitions@) =~= Seq::<TransitionView>::empty());
        r
    }
}

impl Default for ComputedStyle {
    fn default() -> (r: ComputedStyle)
        ensures
            r@ == ComputedStyleView::initial(),
    {
        ComputedStyle::new()
    }
}

impl Clone for ComputedStyle {
    fn clone(&self) -> (r: ComputedStyle)
        ensures
            r@ == self@,
    {
        ComputedStyle {
            style: self.style.clone(),
            color: clone_color(&self.color),
            font_size: clone_number(&self.font_size),
            font: clone_text(&self.font),
            font_handle: clone_text(&self.font_handle),
            border_color: clone_color(&self.border_color),
            background_color: clone_color(&self.background_color),
            outline_color: clone_color(&self.outline_color),
            outline_width: self.outline_width.clone(),
            outline_offset: self.outline_offset.clone(),
            z_index: self.z_index,
            scale_x: clone_number(&self.scale_x),
            scale_y: clone_number(&self.scale_y),
            rotation: clone_number(&self.rotation),
            translation: clone_translation(&self.translation),
            image: clone_text(&self.image),
            flip_x: self.flip_x,
            flip_y: self.flip_y,
            pickable: self.pickable,
            transitions: clone_transitions(&self.transitions),
        }
    }
}

impl StyleProp {
    /// Applies to `style` a property of how an element is placed and how large it is.
    fn apply_frame(&self, style: &mut Style)
        requires
            self is Display
                || self is Position
                || self is Overflow
                || self is OverflowX
                || self is OverflowY
                || self is Direction
                || self is Left
                || self is Right
                || self is Top
                || self is Bottom
                || self is Width
                || self is Height
                || self is MinWidth
                || self is MinHeight
                || self is MaxWidth
                || self is MaxHeight
                || self is AspectRatio,
        ensures
            final(style)@ == old(style)@.apply(self@),
            forall|c: ComputedStyleView| #[trigger] c.apply_rest(self@) == c,
    {
        match self {
            StyleProp::Display(v) => {
                style.display = *v;
            },
            StyleProp::Position(v) => {
                style.position_type = *v;
            },
            StyleProp::Overflow(v) => {
                style.overflow_x = *v;
                style.overflow_y = *v;
            },
            StyleProp::OverflowX(v) => {
                style.overflow_x = *v;
            },
            StyleProp::OverflowY(v) => {
                style.overflow_y = *v;
            },
            StyleProp::Direction(v) => {
                style.direction = *v;
            },
            StyleProp::Left(v) => {
                style.left = v.clone();
            },
            StyleProp::Right(v) => {
                style.right = v.clone();
            },
            StyleProp::Top(v) => {
                style.top = v.clone();
            },
            StyleProp::Bottom(v) => {
                style.bottom = v.clone();
            },
            StyleProp::Width(v) => {
                style.width = v.clone();
            },
            StyleProp::Height(v) => {
                style.height = v.clone();
            },
            StyleProp::MinWidth(v) => {
                style.min_width = v.clone();
            },
            StyleProp::MinHeight(v) => {
                style.min_height = v.clone();
            },
            StyleProp::MaxWidth(v) => {
                style.max_width = v.clone();
            },
            StyleProp::MaxHeight(v) => {
                style.max_height = v.clone();
            },
            StyleProp::AspectRatio(v) => {
                style.aspect_ratio = clone_number(v);
            },
            _ => {},
        }
    }

    /// Applies to `style` a property of margin, padding and border.
    fn apply_spacing(&self, style: &mut Style)
        requires
            self is Margin
                || self is MarginLeft
                || self is MarginRight
                || self is MarginTop
                || self is MarginBottom
                || self is Padding
                || self is PaddingLeft
                || self is PaddingRight
                || self is PaddingTop
                || self is PaddingBottom
                || self is Border
                || self is BorderLeft
                || self is BorderRight
                || self is BorderTop
                || self is BorderBottom,
        ensures
            final(style)@ == old(style)@.apply(self@),
            forall|c: ComputedStyleView| #[trigger] c.apply_rest(self@) == c,
    {
        match self {
            StyleProp::Margin(v) => {
                style.margin = v.clone();
            },
            StyleProp::MarginLeft(v) => {
                style.margin.left = v.clone();
            },
            StyleProp::MarginRight(v) => {
                style.margin.right = v.clone();
            },
            StyleProp::MarginTop(v) => {
                style.margin.top = v.clone();
            },
            StyleProp::MarginBottom(v) => {
                style.margin.bottom = v.clone();
            },
            StyleProp::Padding(v) => {
                style.padding = v.clone();
            },
            StyleProp::PaddingLeft(v) => {
                style.padding.left = v.clone();
            },
            StyleProp::PaddingRight(v) => {
                style.padding.right = v.clone();
            },
            StyleProp::PaddingTop(v) => {
                style.padding.top = v.clone();
            },
            StyleProp::PaddingBottom(v) => {
                style.padding.bottom = v.clone();
            },
            StyleProp::Border(v) => {
                style.border = v.clone();
            },
            StyleProp::BorderLeft(v) => {
                style.border.left = v.clone();
            },
            StyleProp::BorderRight(v) => {
                style.border.right = v.clone();
            },
            StyleProp::BorderTop(v) => {
                style.border.top = v.clone();
            },
            StyleProp::BorderBottom(v) => {
                style.border.bottom = v.clone();
            },
            _ => {},
        }
    }

    /// Applies to `style` a property of how a container lays out its children.
    fn apply_flow(&self, style: &mut Style)
        requires
            self is FlexDirection
                || self is FlexWrap
                || self is FlexGrow
                || self is FlexShrink
                || self is FlexBasis
                || self is RowGap
                || self is ColumnGap
                || self is Gap
                || self is AlignItems
                || self is AlignSelf
                || self is AlignContent
                || self is JustifyItems
                || self is JustifySelf
                || self is JustifyContent
                || self is GridAutoFlow
                || self is GridRowStart
                || self is GridRowSpan
                || self is GridRowEnd
                || self is GridColumnStart
                || self is GridColumnSpan
                || self is GridColumnEnd,
        ensures
            final(style)@ == old(style)@.apply(self@),
            forall|c: ComputedStyleView| #[trigger] c.apply_rest(self@) == c,
    {
        match self {
            StyleProp::FlexDirection(v) => {
                style.flex_direction = *v;
            },
            StyleProp::FlexWrap(v) => {
                style.flex_wrap = *v;
            },
            StyleProp::FlexGrow(v) => {
                style.flex_grow = v.clone();
            },
            StyleProp::FlexShrink(v) => {
                style.flex_shrink = v.clone();
            },
            StyleProp::FlexBasis(v) => {
                style.flex_basis = v.clone();
            },
            StyleProp::RowGap(v) => {
                style.row_gap = v.clone();
            },
            StyleProp::ColumnGap(v) => {
                style.column_gap = v.clone();
            },
            StyleProp::Gap(v) => {
                style.row_gap = v.clone();
                style.column_gap = v.clone();
            },
            StyleProp::AlignItems(v) => {
                style.align_items = *v;
            },
            StyleProp::AlignSelf(v) => {
                style.align_self = *v;
            },
            StyleProp::AlignContent(v) => {
                style.align_content = *v;
            },
            StyleProp::JustifyItems(v) => {
                style.justify_items = *v;
            },
            StyleProp::JustifySelf(v) => {
                style.justify_self = *v;
            },
            StyleProp::JustifyContent(v) => {
                style.justify_content = *v;
            },
            StyleProp::GridAutoFlow(v) => {
                style.grid_auto_flow = *v;
            },
            StyleProp::GridRowStart(v) => {
                style.grid_row.start = Some(*v);
            },
            StyleProp::GridRowSpan(v) => {
                style.grid_row.span = Some(*v);
            },
            StyleProp::GridRowEnd(v) => {
                style.grid_row.end = Some(*v);
            },
            StyleProp::GridColumnStart(v) => {
                style.grid_column.start = Some(*v);
            },
            StyleProp::GridColumnSpan(v) => {
                style.grid_column.span = Some(*v);
            },
            StyleProp::GridColumnEnd(v) => {
                style.grid_column.end = Some(*v);
            },
            _ => {},
        }
    }

    /// Applies to `computed` a property of what is not layout.
    fn apply_visual(&self, computed: &mut ComputedStyle)
        requires
            self is BackgroundImage
                || self is BackgroundColor
                || self is BorderColor
                || self is Color
                || self is ZIndex
                || self is PointerEvents
                || self is Font
                || self is FontSize
                || self is OutlineColor
                || self is OutlineWidth
                || self is OutlineOffset
                || self is Cursor
                || self is Scale
                || self is ScaleX
                || self is ScaleY
                || self is Rotation
                || self is Translation
                || self is Transition,
        ensures
            final(computed)@ == old(computed)@.apply_rest(self@),
            forall|s: StyleView| #[trigger] s.apply(self@) == s,
    {
        match self {
            StyleProp::BackgroundImage(v) => {
                computed.image = clone_text(v);
            },
            StyleProp::BackgroundColor(v) => {
                computed.background_color = clone_color(v);
            },
            StyleProp::BorderColor(v) => {
                computed.border_color = clone_color(v);
            },
            StyleProp::Color(v) => {
                computed.color = clone_color(v);
            },
            StyleProp::ZIndex(v) => {
                computed.z_index = *v;
            },
            StyleProp::PointerEvents(v) => {
                computed.pickable = Some(*v);
            },
            StyleProp::Font(v) => {
                computed.font = clone_text(v);
            },
            StyleProp::FontSize(v) => {
                computed.font_size = Some(v.clone());
            },
            StyleProp::OutlineColor(v) => {
                computed.outline_color = clone_color(v);
            },
            StyleProp::OutlineWidth(v) => {
                computed.outline_width = v.clone();
            },
            StyleProp::OutlineOffset(v) => {
                computed.outline_offset = v.clone();
            },
            StyleProp::Cursor(_) => {},
            StyleProp::Scale(v) => {
                computed.scale_x = Some(v.clone());
                computed.scale_y = Some(v.clone());
            },
            StyleProp::ScaleX(v) => {
                computed.scale_x = Some(v.clone());
            },
            StyleProp::ScaleY(v) => {
                computed.scale_y = Some(v.clone());
            },
            StyleProp::Rotation(v) => {
                computed.rotation = Some(v.clone());
            },
            StyleProp::Translation(v) => {
                computed.translation = Some(v.clone());
            },
            StyleProp::Transition(v) => {
                computed.transitions = clone_transitions(v);
            },
            _ => {},
        }
    }

    /// Applies the property to `computed`: the property takes the value
    /// that this style property carries.
    pub fn apply(&self, computed: &mut ComputedStyle)
        ensures
            final(computed)@ == old(computed)@.apply(self@),
    {
        match self {
            StyleProp::Display(_)
            | StyleProp::Position(_)
            | StyleProp::Overflow(_)
            | StyleProp::OverflowX(_)
            | StyleProp::OverflowY(_)
            | StyleProp::Direction(_)
            | StyleProp::Left(_)
            | StyleProp::Right(_)
            | StyleProp::Top(_)
            | StyleProp::Bottom(_)
            | StyleProp::Width(_)
            | StyleProp::Height(_)
            | StyleProp::MinWidth(_)
            | StyleProp::MinHeight(_)
            | StyleProp::MaxWidth(_)
            | StyleProp::MaxHeight(_)
            | StyleProp::AspectRatio(_) => {
                self.apply_frame(&mut computed.style);
            },
            StyleProp::Margin(_)
            | StyleProp::MarginLeft(_)
            | StyleProp::MarginRight(_)
            | StyleProp::MarginTop(_)
            | StyleProp::MarginBottom(_)
            | StyleProp::Padding(_)
            | StyleProp::PaddingLeft(_)
            | StyleProp::PaddingRight(_)
            | StyleProp::PaddingTop(_)
            | StyleProp::PaddingBottom(_)
            | StyleProp::Border(_)
            | StyleProp::BorderLeft(_)
            | StyleProp::BorderRight(_)
            | StyleProp::BorderTop(_)
            | StyleProp::BorderBottom(_) => {
                self.apply_spacing(&mut computed.style);
            },
            StyleProp::FlexDirection(_)
            | StyleProp::FlexWrap(_)
            | StyleProp::FlexGrow(_)
            | StyleProp::FlexShrink(_)
            | StyleProp::FlexBasis(_)
            | StyleProp::RowGap(_)
            | StyleProp::ColumnGap(_)
            | StyleProp::Gap(_)
            | StyleProp::AlignItems(_)
            | StyleProp::AlignSelf(_)
            | StyleProp::AlignContent(_)
            | StyleProp::JustifyItems(_)
            | StyleProp::JustifySelf(_)
            | StyleProp::JustifyContent(_)
            | StyleProp::GridAutoFlow(_)
            | StyleProp::GridRowStart(_)
            | StyleProp::GridRowSpan(_)
            | StyleProp::GridRowEnd(_)
            | StyleProp::GridColumnStart(_)
            | StyleProp::GridColumnSpan(_)
            | StyleProp::GridColumnEnd(_) => {
                self.apply_flow(&mut computed.style);
            },
            StyleProp::BackgroundImage(_)
            | StyleProp::BackgroundColor(_)
            | StyleProp::BorderColor(_)
            | StyleProp::Color(_)
            | StyleProp::ZIndex(_)
            | StyleProp::PointerEvents(_)
            | StyleProp::Font(_)
            | StyleProp::FontSize(_)
            | StyleProp::OutlineColor(_)
            | StyleProp::OutlineWidth(_)
            | StyleProp::OutlineOffset(_)
            | StyleProp::Cursor(_)
            | StyleProp::Scale(_)
            | StyleProp::ScaleX(_)
            | StyleProp::ScaleY(_)
            | StyleProp::Rotation(_)
            | StyleProp::Translation(_)
            | StyleProp::Transition(_) => {
                self.apply_visual(computed);
            },
        }
    }
}

/// Applies the properties `props` to `computed`, in their order.
pub fn apply_props(props: &Vec<StyleProp>, computed: &mut ComputedStyle)
    ensures
        final(computed)@ == old(computed)@.apply_all(prop_views(props@)),
{
    let ghost views = prop_views(props@);
    let ghost start = computed@;
    let mut i: usize = 0;
    while i < props.len()
        invariant
            i <= props.len(),
            views == prop_views(props@),
            computed@ == start.apply_all(views.take(i as int)),
        decreases props.len() - i,
    {
        proof {
            assert(views.take(i + 1).drop_last() == views.take(i as int));
            assert(views.take(i + 1).last() == props@[i as int]@);
        }
        props[i].apply(computed);
        i += 1;
    }
    proof {
        assert(views.take(props.len() as int) == views);
    }
}

} // verus!

//! Style properties and the lists of them that make up a style.

use vstd::prelude::*;
use crate::cursor::Cursor;
use crate::number::Number;
use crate::selector::{Selector, SelectorView};
use crate::transition::{clone_transitions, transition_views, Transition, TransitionView};
use crate::values::{
    AlignContent, AlignItems, AlignSelf, Color, ColorView, Direction, Display, FlexDirection,
    FlexWrap, GridAutoFlow, JustifyContent, JustifyItems, JustifySelf, OverflowAxis,
    PointerEvents, PositionType, UiRect, UiRectView, Val, ValView, ZIndex,
};

verus! {

/// A translation in three dimensions.
#[derive(Debug, PartialEq, Eq)]
pub struct Translation {
    pub x: Number,
    pub y: Number,
    pub z: Number,
}

/// The mathematical value of a [`Translation`].
pub ghost struct TranslationView {
    pub x: Seq<char>,
    pub y: Seq<char>,
    pub z: Seq<char>,
}

impl View for Translation {
    type V = TranslationView;

    open spec fn view(&self) -> TranslationView {
        TranslationView { x: self.x@, y: self.y@, z: self.z@ }
    }
}

impl Clone for Translation {
    fn clone(&self) -> (r: Translation)
        ensures
            r@ == self@,
    {
        Translation { x: self.x.clone(), y: self.y.clone(), z: self.z.clone() }
    }
}

/// The value of a colour that may be absent.
pub open spec fn color_view(color: Option<Color>) -> Option<ColorView> {
    match color {
        Some(c) => Some(c@),
        None => None,
    }
}

/// The value of a text that may be absent.
pub open spec fn text_view(text: Option<String>) -> Option<Seq<char>> {
    match text {
        Some(t) => Some(t@),
        None => None,
    }
}

/// The value of a number that may be absent.
pub open spec fn number_view(number: Option<Number>) -> Option<Seq<char>> {
    match number {
        Some(n) => Some(n@),
        None => None,
    }
}

/// A copy of a colour that may be absent.
pub fn clone_color(color: &Option<Color>) -> (r: Option<Color>)
    ensures
        color_view(r) == color_view(*color),
{
    match color {
        Some(c) => Some(c.clone()),
        None => None,
    }
}

/// A copy of a text that may be absent.
pub fn clone_text(text: &Option<String>) -> (r: Option<String>)
    ensures
        text_view(r) == text_view(*text),
{
    match text {
        Some(t) => Some(t.clone()),
        None => None,
    }
}

/// A copy of a number that may be absent.
pub fn clone_number(number: &Option<Number>) -> (r: Option<Number>)
    ensures
        number_view(r) == number_view(*number),
{
    match number {
        Some(n) => Some(n.clone()),
        None => None,
    }
}

/// The names of the style properties.
#[derive(Debug, Clone, Copy, PartialEq, Eq, Hash, Structural)]
pub enum Property {
    BackgroundImage,
    BackgroundColor,
    BorderColor,
    Color,
    ZIndex,
    Display,
    Position,
    Overflow,
    OverflowX,
    OverflowY,
    Direction,
    Left,
    Right,
    Top,
    Bottom,
    Width,
    Height,
    MinWidth,
    MinHeight,
    MaxWidth,
    MaxHeight,
    AspectRatio,
    Margin,
    MarginLeft,
    MarginRight,
    MarginTop,
    MarginBottom,
    Padding,
    PaddingLeft,
    PaddingRight,
    PaddingTop,
    PaddingBottom,
    Border,
    BorderLeft,
    BorderRight,
    BorderTop,
    BorderBottom,
    FlexDirection,
    FlexWrap,
    FlexGrow,
    FlexShrink,
    FlexBasis,
    RowGap,
    ColumnGap,
    Gap,
    AlignItems,
    AlignSelf,
    AlignContent,
    JustifyItems,
    JustifySelf,
    JustifyContent,
    GridAutoFlow,
    GridRowStart,
    GridRowSpan,
    GridRowEnd,
    GridColumnStart,
    GridColumnSpan,
    GridColumnEnd,
    PointerEvents,
    Font,
    FontSize,
    OutlineColor,
    OutlineWidth,
    OutlineOffset,
    Cursor,
    Scale,
    ScaleX,
    ScaleY,
    Rotation,
    Translation,
    Transition,
}

/// The mathematical value that a style property carries.
pub ghost enum ValueView {
    Path(Option<Seq<char>>),
    Color(Option<ColorView>),
    ZIndex(ZIndex),
    Display(Display),
    Position(PositionType),
    Overflow(OverflowAxis),
    Direction(Direction),
    Length(ValView),
    Ratio(Option<Seq<char>>),
    Rect(UiRectView),
    FlexDirection(FlexDirection),
    FlexWrap(FlexWrap),
    Scalar(Seq<char>),
    AlignItems(AlignItems),
    AlignSelf(AlignSelf),
    AlignContent(AlignContent),
    JustifyItems(JustifyItems),
    JustifySelf(JustifySelf),
    JustifyContent(JustifyContent),
    GridAutoFlow(GridAutoFlow),
    Line(i16),
    Span(u16),
    PointerEvents(PointerEvents),
    Cursor(Cursor),
    Translation(TranslationView),
    Transitions(Seq<TransitionView>),
}

/// The mathematical value of a [`StyleProp`]: which property it sets, and
/// to what.
pub ghost struct StylePropView {
    pub property: Property,
    pub value: ValueView,
}

/// One style property with the value that it sets.
#[derive(Debug, PartialEq, Eq)]
pub enum StyleProp {
    /// The image behind the content.
    BackgroundImage(Option<String>),
    /// The colour behind the content.
    BackgroundColor(Option<Color>),
    /// The colour of the border.
    BorderColor(Option<Color>),
    /// The colour of text.
    Color(Option<Color>),
    /// The place in the stacking order.
    ZIndex(ZIndex),
    /// Whether and how the element is laid out.
    Display(Display),
    /// How the position is worked out.
    Position(PositionType),
    /// What happens to content that does not fit, on both axes.
    Overflow(OverflowAxis),
    /// What happens to content that does not fit, horizontally.
    OverflowX(OverflowAxis),
    /// What happens to content that does not fit, vertically.
    OverflowY(OverflowAxis),
    /// The direction of text and inline layout.
    Direction(Direction),
    /// The offset of the left edge.
    Left(Val),
    /// The offset of the right edge.
    Right(Val),
    /// The offset of the top edge.
    Top(Val),
    /// The offset of the bottom edge.
    Bottom(Val),
    /// The width.
    Width(Val),
    /// The height.
    Height(Val),
    /// The least width.
    MinWidth(Val),
    /// The least height.
    MinHeight(Val),
    /// The greatest width.
    MaxWidth(Val),
    /// The greatest height.
    MaxHeight(Val),
    /// The ratio of width to height, if one is kept.
    AspectRatio(Option<Number>),
    /// The margin on all sides.
    Margin(UiRect),
    /// The left margin.
    MarginLeft(Val),
    /// The right margin.
    MarginRight(Val),
    /// The top margin.
    MarginTop(Val),
    /// The bottom margin.
    MarginBottom(Val),
    /// The padding on all sides.
    Padding(UiRect),
    /// The left padding.
    PaddingLeft(Val),
    /// The right padding.
    PaddingRight(Val),
    /// The top padding.
    PaddingTop(Val),
    /// The bottom padding.
    PaddingBottom(Val),
    /// The width of the border on all sides.
    Border(UiRect),
    /// The width of the left border.
    BorderLeft(Val),
    /// The width of the right border.
    BorderRight(Val),
    /// The width of the top border.
    BorderTop(Val),
    /// The width of the bottom border.
    BorderBottom(Val),
    /// The main axis of a flex container.
    FlexDirection(FlexDirection),
    /// Whether a flex container wraps.
    FlexWrap(FlexWrap),
    /// The share of free space that the item takes.
    FlexGrow(Number),
    /// The share of missing space that the item gives up.
    FlexShrink(Number),
    /// The extent of the item before space is shared out.
    FlexBasis(Val),
    /// The gap between rows.
    RowGap(Val),
    /// The gap between columns.
    ColumnGap(Val),
    /// The gap between rows and between columns.
    Gap(Val),
    /// The alignment of items on the cross axis.
    AlignItems(AlignItems),
    /// The alignment of this item on the cross axis.
    AlignSelf(AlignSelf),
    /// The distribution of lines on the cross axis.
    AlignContent(AlignContent),
    /// The alignment of items in their cells.
    JustifyItems(JustifyItems),
    /// The alignment of this item in its cell.
    JustifySelf(JustifySelf),
    /// The distribution of items on the main axis.
    JustifyContent(JustifyContent),
    /// How a grid places items that name no cell.
    GridAutoFlow(GridAutoFlow),
    /// The grid line at which the item starts, by rows.
    GridRowStart(i16),
    /// The number of rows that the item spans.
    GridRowSpan(u16),
    /// The grid line at which the item ends, by rows.
    GridRowEnd(i16),
    /// The grid line at which the item starts, by columns.
    GridColumnStart(i16),
    /// The number of columns that the item spans.
    GridColumnSpan(u16),
    /// The grid line at which the item ends, by columns.
    GridColumnEnd(i16),
    /// Whether the element takes pointer events.
    PointerEvents(PointerEvents),
    /// The font of text, by the path of its asset.
    Font(Option<String>),
    /// The size of text.
    FontSize(Number),
    /// The colour of the outline.
    OutlineColor(Option<Color>),
    /// The width of the outline.
    OutlineWidth(Val),
    /// The distance of the outline from the border.
    OutlineOffset(Val),
    /// The shape of the pointer over the element.
    Cursor(Cursor),
    /// The scale along both axes.
    Scale(Number),
    /// The horizontal scale.
    ScaleX(Number),
    /// The vertical scale.
    ScaleY(Number),
    /// The rotation, in radians.
    Rotation(Number),
    /// The translation.
    Translation(Translation),
    /// The transitions of the element.
    Transition(Vec<Transition>),
}

impl StyleProp {
    /// The property that is set.
    pub open spec fn spec_property(&self) -> Property {
        match self {
            StyleProp::BackgroundImage(_) => Property::BackgroundImage,
            StyleProp::BackgroundColor(_) => Property::BackgroundColor,
            StyleProp::BorderColor(_) => Property::BorderColor,
            StyleProp::Color(_) => Property::Color,
            StyleProp::ZIndex(_) => Property::ZIndex,
            StyleProp::Display(_) => Property::Display,
            StyleProp::Position(_) => Property::Position,
            StyleProp::Overflow(_) => Property::Overflow,
            StyleProp::OverflowX(_) => Property::OverflowX,
            StyleProp::OverflowY(_) => Property::OverflowY,
            StyleProp::Direction(_) => Property::Direction,
            StyleProp::Left(_) => Property::Left,
            StyleProp::Right(_) => Property::Right,
            StyleProp::Top(_) => Property::Top,
            StyleProp::Bottom(_) => Property::Bottom,
            StyleProp::Width(_) => Property::Width,
            StyleProp::Height(_) => Property::Height,
            StyleProp::MinWidth(_) => Property::MinWidth,
            StyleProp::MinHeight(_) => Property::MinHeight,
            StyleProp::MaxWidth(_) => Property::MaxWidth,
            StyleProp::MaxHeight(_) => Property::MaxHeight,
            StyleProp::AspectRatio(_) => Property::AspectRatio,
            StyleProp::Margin(_) => Property::Margin,
            StyleProp::MarginLeft(_) => Property::MarginLeft,
            StyleProp::MarginRight(_) => Property::MarginRight,
            StyleProp::MarginTop(_) => Property::MarginTop,
            StyleProp::MarginBottom(_) => Property::MarginBottom,
            StyleProp::Padding(_) => Property::Padding,
            StyleProp::PaddingLeft(_) => Property::PaddingLeft,
            StyleProp::PaddingRight(_) => Property::PaddingRight,
            StyleProp::PaddingTop(_) => Property::PaddingTop,
            StyleProp::PaddingBottom(_) => Property::PaddingBottom,
            StyleProp::Border(_) => Property::Border,
            StyleProp::BorderLeft(_) => Property::BorderLeft,
            StyleProp::BorderRight(_) => Property::BorderRight,
            StyleProp::BorderTop(_) => Property::BorderTop,
            StyleProp::BorderBottom(_) => Property::BorderBottom,
            StyleProp::FlexDirection(_) => Property::FlexDirection,
            StyleProp::FlexWrap(_) => Property::FlexWrap,
            StyleProp::FlexGrow(_) => Property::FlexGrow,
            StyleProp::FlexShrink(_) => Property::FlexShrink,
            StyleProp::FlexBasis(_) => Property::FlexBasis,
            StyleProp::RowGap(_) => Property::RowGap,
            StyleProp::ColumnGap(_) => Property::ColumnGap,
            StyleProp::Gap(_) => Property::Gap,
            StyleProp::AlignItems(_) => Property::AlignItems,
            StyleProp::AlignSelf(_) => Property::AlignSelf,
            StyleProp::AlignContent(_) => Property::AlignContent,
            StyleProp::JustifyItems(_) => Property::JustifyItems,
            StyleProp::JustifySelf(_) => Property::JustifySelf,
            StyleProp::JustifyContent(_) => Property::JustifyContent,
            StyleProp::GridAutoFlow(_) => Property::GridAutoFlow,
            StyleProp::GridRowStart(_) => Property::GridRowStart,
            StyleProp::GridRowSpan(_) => Property::GridRowSpan,
            StyleProp::GridRowEnd(_) => Property::GridRowEnd,
            StyleProp::GridColumnStart(_) => Property::GridColumnStart,
            StyleProp::GridColumnSpan(_) => Property::GridColumnSpan,
            StyleProp::GridColumnEnd(_) => Property::GridColumnEnd,
            StyleProp::PointerEvents(_) => Property::PointerEvents,
            StyleProp::Font(_) => Property::Font,
            StyleProp::FontSize(_) => Property::FontSize,
            StyleProp::OutlineColor(_) => Property::OutlineColor,
            StyleProp::OutlineWidth(_) => Property::OutlineWidth,
            StyleProp::OutlineOffset(_) => Property::OutlineOffset,
            StyleProp::Cursor(_) => Property::Cursor,
            StyleProp::Scale(_) => Property::Scale,
            StyleProp::ScaleX(_) => Property::ScaleX,
            StyleProp::ScaleY(_) => Property::ScaleY,
            StyleProp::Rotation(_) => Property::Rotation,
            StyleProp::Translation(_) => Property::Translation,
            StyleProp::Transition(_) => Property::Transition,
        }
    }

    /// The property that is set.
    #[verifier::when_used_as_spec(spec_property)]
    pub fn property(&self) -> (r: Property)
        ensures
            r == self.spec_property(),
    {
        match self {
            StyleProp::BackgroundImage(_) => Property::BackgroundImage,
            StyleProp::BackgroundColor(_) => Property::BackgroundColor,
            StyleProp::BorderColor(_) => Property::BorderColor,
            StyleProp::Color(_) => Property::Color,
            StyleProp::ZIndex(_) => Property::ZIndex,
            StyleProp::Display(_) => Property::Display,
            StyleProp::Position(_) => Property::Position,
            StyleProp::Overflow(_) => Property::Overflow,
            StyleProp::OverflowX(_) => Property::OverflowX,
            StyleProp::OverflowY(_) => Property::OverflowY,
            StyleProp::Direction(_) => Property::Direction,
            StyleProp::Left(_) => Property::Left,
            StyleProp::Right(_) => Property::Right,
            StyleProp::Top(_) => Property::Top,
            StyleProp::Bottom(_) => Property::Bottom,
            StyleProp::Width(_) => Property::Width,
            StyleProp::Height(_) => Property::Height,
            StyleProp::MinWidth(_) => Property::MinWidth,
            StyleProp::MinHeight(_) => Property::MinHeight,
            StyleProp::MaxWidth(_) => Property::MaxWidth,
            StyleProp::MaxHeight(_) => Property::MaxHeight,
            StyleProp::AspectRatio(_) => Property::AspectRatio,
            StyleProp::Margin(_) => Property::Margin,
            StyleProp::MarginLeft(_) => Property::MarginLeft,
            StyleProp::MarginRight(_) => Property::MarginRight,
            StyleProp::MarginTop(_) => Property::MarginTop,
            StyleProp::MarginBottom(_) => Property::MarginBottom,
            StyleProp::Padding(_) => Property::Padding,
            StyleProp::PaddingLeft(_) => Property::PaddingLeft,
            StyleProp::PaddingRight(_) => Property::PaddingRight,
            StyleProp::PaddingTop(_) => Property::PaddingTop,
            StyleProp::PaddingBottom(_) => Property::PaddingBottom,
            StyleProp::Border(_) => Property::Border,
            StyleProp::BorderLeft(_) => Property::BorderLeft,
            StyleProp::BorderRight(_) => Property::BorderRight,
            StyleProp::BorderTop(_) => Property::BorderTop,
            StyleProp::BorderBottom(_) => Property::BorderBottom,
            StyleProp::FlexDirection(_) => Property::FlexDirection,
            StyleProp::FlexWrap(_) => Property::FlexWrap,
            StyleProp::FlexGrow(_) => Property::FlexGrow,
            StyleProp::FlexShrink(_) => Property::FlexShrink,
            StyleProp::FlexBasis(_) => Property::FlexBasis,
            StyleProp::RowGap(_) => Property::RowGap,
            StyleProp::ColumnGap(_) => Property::ColumnGap,
            StyleProp::Gap(_) => Property::Gap,
            StyleProp::AlignItems(_) => Property::AlignItems,
            StyleProp::AlignSelf(_) => Property::AlignSelf,
            StyleProp::AlignContent(_) => Property::AlignContent,
            StyleProp::JustifyItems(_) => Property::JustifyItems,
            StyleProp::JustifySelf(_) => Property::JustifySelf,
            StyleProp::JustifyContent(_) => Property::JustifyContent,
            StyleProp::GridAutoFlow(_) => Property::GridAutoFlow,
            StyleProp::GridRowStart(_) => Property::GridRowStart,
            StyleProp::GridRowSpan(_) => Property::GridRowSpan,
            StyleProp::GridRowEnd(_) => Property::GridRowEnd,
            StyleProp::GridColumnStart(_) => Property::GridColumnStart,
            StyleProp::GridColumnSpan(_) => Property::GridColumnSpan,
            StyleProp::GridColumnEnd(_) => Property::GridColumnEnd,
            StyleProp::PointerEvents(_) => Property::PointerEvents,
            StyleProp::Font(_) => Property::Font,
            StyleProp::FontSize(_) => Property::FontSize,
            StyleProp::OutlineColor(_) => Property::OutlineColor,
            StyleProp::OutlineWidth(_) => Property::OutlineWidth,
            StyleProp::OutlineOffset(_) => Property::OutlineOffset,
            StyleProp::Cursor(_) => Property::Cursor,
            StyleProp::Scale(_) => Property::Scale,
            StyleProp::ScaleX(_) => Property::ScaleX,
            StyleProp::ScaleY(_) => Property::ScaleY,
            StyleProp::Rotation(_) => Property::Rotation,
            StyleProp::Translation(_) => Property::Translation,
            StyleProp::Transition(_) => Property::Transition,
        }
    }

    /// The value that the property is set to.
    pub open spec fn value(&self) -> ValueView {
        match self {
            StyleProp::BackgroundImage(v) => ValueView::Path(text_view(*v)),
            StyleProp::BackgroundColor(v) => ValueView::Color(color_view(*v)),
            StyleProp::BorderColor(v) => ValueView::Color(color_view(*v)),
            StyleProp::Color(v) => ValueView::Color(color_view(*v)),
            StyleProp::ZIndex(v) => ValueView::ZIndex(*v),
            StyleProp::Display(v) => ValueView::Display(*v),
            StyleProp::Position(v) => ValueView::Position(*v),
            StyleProp::Overflow(v) => ValueView::Overflow(*v),
            StyleProp::OverflowX(v) => ValueView::Overflow(*v),
            StyleProp::OverflowY(v) => ValueView::Overflow(*v),
            StyleProp::Direction(v) => ValueView::Direction(*v),
            StyleProp::Left(v) => ValueView::Length(v@),
            StyleProp::Right(v) => ValueView::Length(v@),
            StyleProp::Top(v) => ValueView::Length(v@),
            StyleProp::Bottom(v) => ValueView::Length(v@),
            StyleProp::Width(v) => ValueView::Length(v@),
            StyleProp::Height(v) => ValueView::Length(v@),
            StyleProp::MinWidth(v) => ValueView::Length(v@),
            StyleProp::MinHeight(v) => ValueView::Length(v@),
            StyleProp::MaxWidth(v) => ValueView::Length(v@),
            StyleProp::MaxHeight(v) => ValueView::Length(v@),
            StyleProp::AspectRatio(v) => ValueView::Ratio(number_view(*v)),
            StyleProp::Margin(v) => ValueView::Rect(v@),
            StyleProp::MarginLeft(v) => ValueView::Length(v@),
            StyleProp::MarginRight(v) => ValueView::Length(v@),
            StyleProp::MarginTop(v) => ValueView::Length(v@),
            StyleProp::MarginBottom(v) => ValueView::Length(v@),
            StyleProp::Padding(v) => ValueView::Rect(v@),
            StyleProp::PaddingLeft(v) => ValueView::Length(v@),
            StyleProp::PaddingRight(v) => ValueView::Length(v@),
            StyleProp::PaddingTop(v) => ValueView::Length(v@),
            StyleProp::PaddingBottom(v) => ValueView::Length(v@),
            StyleProp::Border(v) => ValueView::Rect(v@),
            StyleProp::BorderLeft(v) => ValueView::Length(v@),
            StyleProp::BorderRight(v) => ValueView::Length(v@),
            StyleProp::BorderTop(v) => ValueView::Length(v@),
            StyleProp::BorderBottom(v) => ValueView::Length(v@),
            StyleProp::FlexDirection(v) => ValueView::FlexDirection(*v),
            StyleProp::FlexWrap(v) => ValueView::FlexWrap(*v),
            StyleProp::FlexGrow(v) => ValueView::Scalar(v@),
            StyleProp::FlexShrink(v) => ValueView::Scalar(v@),
            StyleProp::FlexBasis(v) => ValueView::Length(v@),
            StyleProp::RowGap(v) => ValueView::Length(v@),
            StyleProp::ColumnGap(v) => ValueView::Length(v@),
            StyleProp::Gap(v) => ValueView::Length(v@),
            StyleProp::AlignItems(v) => ValueView::AlignItems(*v),
            StyleProp::AlignSelf(v) => ValueView::AlignSelf(*v),
            StyleProp::AlignContent(v) => ValueView::AlignContent(*v),
            StyleProp::JustifyItems(v) => ValueView::JustifyItems(*v),
            StyleProp::JustifySelf(v) => ValueView::JustifySelf(*v),
            StyleProp::JustifyContent(v) => ValueView::JustifyContent(*v),
            StyleProp::GridAutoFlow(v) => ValueView::GridAutoFlow(*v),
            StyleProp::GridRowStart(v) => ValueView::Line(*v),
            StyleProp::GridRowSpan(v) => ValueView::Span(*v),
            StyleProp::GridRowEnd(v) => ValueView::Line(*v),
            StyleProp::GridColumnStart(v) => ValueView::Line(*v),
            StyleProp::GridColumnSpan(v) => ValueView::Span(*v),
            StyleProp::GridColumnEnd(v) => ValueView::Line(*v),
            StyleProp::PointerEvents(v) => ValueView::PointerEvents(*v),
            StyleProp::Font(v) => ValueView::Path(text_view(*v)),
            StyleProp::FontSize(v) => ValueView::Scalar(v@),
            StyleProp::OutlineColor(v) => ValueView::Color(color_view(*v)),
            StyleProp::OutlineWidth(v) => ValueView::Length(v@),
            StyleProp::OutlineOffset(v) => ValueView::Length(v@),
            StyleProp::Cursor(v) => ValueView::Cursor(*v),
            StyleProp::Scale(v) => ValueView::Scalar(v@),
            StyleProp::ScaleX(v) => ValueView::Scalar(v@),
            StyleProp::ScaleY(v) => ValueView::Scalar(v@),
            StyleProp::Rotation(v) => ValueView::Scalar(v@),
            StyleProp::Translation(v) => ValueView::Translation(v@),
            StyleProp::Transition(v) => ValueView::Transitions(transition_views(v@)),
        }
    }
}

impl View for StyleProp {
    type V = StylePropView;

    open spec fn view(&self) -> StylePropView {
        StylePropView { property: self.spec_property(), value: self.value() }
    }
}

impl Clone for StyleProp {
    fn clone(&self) -> (r: StyleProp)
        ensures
            r@ == self@,
    {
        match self {
            StyleProp::BackgroundImage(v) => StyleProp::BackgroundImage(clone_text(v)),
            StyleProp::BackgroundColor(v) => StyleProp::BackgroundColor(clone_color(v)),
            StyleProp::BorderColor(v) => StyleProp::BorderColor(clone_color(v)),
            StyleProp::Color(v) => StyleProp::Color(clone_color(v)),
            StyleProp::ZIndex(v) => StyleProp::ZIndex(*v),
            StyleProp::Display(v) => StyleProp::Display(*v),
            StyleProp::Position(v) => StyleProp::Position(*v),
            StyleProp::Overflow(v) => StyleProp::Overflow(*v),
            StyleProp::OverflowX(v) => StyleProp::OverflowX(*v),
            StyleProp::OverflowY(v) => StyleProp::OverflowY(*v),
            StyleProp::Direction(v) => StyleProp::Direction(*v),
            StyleProp::Left(v) => StyleProp::Left(v.clone()),
            StyleProp::Right(v) => StyleProp::Right(v.clone()),
            StyleProp::Top(v) => StyleProp::Top(v.clone()),
            StyleProp::Bottom(v) => StyleProp::Bottom(v.clone()),
            StyleProp::Width(v) => StyleProp::Width(v.clone()),
            StyleProp::Height(v) => StyleProp::Height(v.clone()),
            StyleProp::MinWidth(v) => StyleProp::MinWidth(v.clone()),
            StyleProp::MinHeight(v) => StyleProp::MinHeight(v.clone()),
            StyleProp::MaxWidth(v) => StyleProp::MaxWidth(v.clone()),
            StyleProp::MaxHeight(v) => StyleProp::MaxHeight(v.clone()),
            StyleProp::AspectRatio(v) => StyleProp::AspectRatio(clone_number(v)),
            StyleProp::Margin(v) => StyleProp::Margin(v.clone()),
            StyleProp::MarginLeft(v) => StyleProp::MarginLeft(v.clone()),
            StyleProp::MarginRight(v) => StyleProp::MarginRight(v.clone()),
            StyleProp::MarginTop(v) => StyleProp::MarginTop(v.clone()),
            StyleProp::MarginBottom(v) => StyleProp::MarginBottom(v.clone()),
            StyleProp::Padding(v) => StyleProp::Padding(v.clone()),
            StyleProp::PaddingLeft(v) => StyleProp::PaddingLeft(v.clone()),
            StyleProp::PaddingRight(v) => StyleProp::PaddingRight(v.clone()),
            StyleProp::PaddingTop(v) => StyleProp::PaddingTop(v.clone()),
            StyleProp::PaddingBottom(v) => StyleProp::PaddingBottom(v.clone()),
            StyleProp::Border(v) => StyleProp::Border(v.clone()),
            StyleProp::BorderLeft(v) => StyleProp::BorderLeft(v.clone()),
            StyleProp::BorderRight(v) => StyleProp::BorderRight(v.clone()),
            StyleProp::BorderTop(v) => StyleProp::BorderTop(v.clone()),
            StyleProp::BorderBottom(v) => StyleProp::BorderBottom(v.clone()),
            StyleProp::FlexDirection(v) => StyleProp::FlexDirection(*v),
            StyleProp::FlexWrap(v) => StyleProp::FlexWrap(*v),
            StyleProp::FlexGrow(v) => StyleProp::FlexGrow(v.clone()),
            StyleProp::FlexShrink(v) => StyleProp::FlexShrink(v.clone()),
            StyleProp::FlexBasis(v) => StyleProp::FlexBasis(v.clone()),
            StyleProp::RowGap(v) => StyleProp::RowGap(v.clone()),
            StyleProp::ColumnGap(v) => StyleProp::ColumnGap(v.clone()),
            StyleProp::Gap(v) => StyleProp::Gap(v.clone()),
            StyleProp::AlignItems(v) => StyleProp::AlignItems(*v),
            StyleProp::AlignSelf(v) => StyleProp::AlignSelf(*v),
            StyleProp::AlignContent(v) => StyleProp::AlignContent(*v),
            StyleProp::JustifyItems(v) => StyleProp::JustifyItems(*v),
            StyleProp::JustifySelf(v) => StyleProp::JustifySelf(*v),
            StyleProp::JustifyContent(v) => StyleProp::JustifyContent(*v),
            StyleProp::GridAutoFlow(v) => StyleProp::GridAutoFlow(*v),
            StyleProp::GridRowStart(v) => StyleProp::GridRowStart(*v),
            StyleProp::GridRowSpan(v) => StyleProp::GridRowSpan(*v),
            StyleProp::GridRowEnd(v) => StyleProp::GridRowEnd(*v),
            StyleProp::GridColumnStart(v) => StyleProp::GridColumnStart(*v),
            StyleProp::GridColumnSpan(v) => StyleProp::GridColumnSpan(*v),
            StyleProp::GridColumnEnd(v) => StyleProp::GridColumnEnd(*v),
            StyleProp::PointerEvents(v) => StyleProp::PointerEvents(*v),
            StyleProp::Font(v) => StyleProp::Font(clone_text(v)),
            StyleProp::FontSize(v) => StyleProp::FontSize(v.clone()),
            StyleProp::OutlineColor(v) => StyleProp::OutlineColor(clone_color(v)),
            StyleProp::OutlineWidth(v) => StyleProp::OutlineWidth(v.clone()),
            StyleProp::OutlineOffset(v) => StyleProp::OutlineOffset(v.clone()),
            StyleProp::Cursor(v) => StyleProp::Cursor(*v),
            StyleProp::Scale(v) => StyleProp::Scale(v.clone()),
            StyleProp::ScaleX(v) => StyleProp::ScaleX(v.clone()),
            StyleProp::ScaleY(v) => StyleProp::ScaleY(v.clone()),
            StyleProp::Rotation(v) => StyleProp::Rotation(v.clone()),
            StyleProp::Translation(v) => StyleProp::Translation(v.clone()),
            StyleProp::Transition(v) => StyleProp::Transition(clone_transitions(v)),
        }
    }
}

/// The values of a list of style properties.
pub open spec fn prop_views(props: Seq<StyleProp>) -> Seq<StylePropView> {
    props.map_values(|p: StyleProp| p@)
}

/// A copy of a list of style properties.
pub fn clone_props(props: &Vec<StyleProp>) -> (r: Vec<StyleProp>)
    ensures
        prop_views(r@) == prop_views(props@),
{
    let mut out: Vec<StyleProp> = Vec::new();
    let mut i: usize = 0;
    while i < props.len()
        invariant
            i <= props.len(),
            out@.len() == i,
            forall|j: int| 0 <= j < i ==> (#[trigger] out@[j])@ == props@[j]@,
        decreases props.len() - i,
    {
        out.push(props[i].clone());
        i += 1;
    }
    assert(prop_views(out@) =~= prop_views(props@));
    out
}

/// A selector and the style properties that apply where it matches.
pub type SelectorEntry = (Box<Selector>, Vec<StyleProp>);

/// The mathematical value of a [`SelectorEntry`].
pub ghost struct SelectorEntryView {
    pub selector: SelectorView,
    pub props: Seq<StylePropView>,
}

/// The value of a selector entry.
pub open spec fn entry_view(entry: SelectorEntry) -> SelectorEntryView {
    SelectorEntryView { selector: entry.0@, props: prop_views(entry.1@) }
}

/// The values of a list of selector entries.
pub open spec fn entry_views(entries: Seq<SelectorEntry>) -> Seq<SelectorEntryView> {
    entries.map_values(|e: SelectorEntry| entry_view(e))
}

/// A style: properties that always apply, in the order in which they were
/// declared, and properties that apply where a selector matches, block by
/// block in the order of the blocks.
#[derive(Debug, PartialEq)]
pub struct StylePropList {
    pub props: Vec<StyleProp>,
    pub selectors: Vec<SelectorEntry>,
}

/// The mathematical value of a [`StylePropList`].
pub ghost struct StylePropListView {
    pub props: Seq<StylePropView>,
    pub selectors: Seq<SelectorEntryView>,
}

impl View for StylePropList {
    type V = StylePropListView;

    open spec fn view(&self) -> StylePropListView {
        StylePropListView { props: prop_views(self.props@), selectors: entry_views(self.selectors@) }
    }
}

impl StylePropList {
    /// The style made of the given properties and selector entries.
    pub fn from_raw(props: Vec<StyleProp>, selectors: Vec<SelectorEntry>) -> (r: StylePropList)
        ensures
            r.props == props,
            r.selectors == selectors,
    {
        StylePropList { props, selectors }
    }

    /// The properties that always apply.
    pub fn get_props(&self) -> (r: &Vec<StyleProp>)
        ensures
            *r == self.props,
    {
        &self.props
    }

    /// The properties that apply where a selector matches.
    pub fn get_selectors(&self) -> (r: &Vec<SelectorEntry>)
        ensures
            *r == self.selectors,
    {
        &self.selectors
    }
}

impl Clone for StylePropList {
    fn clone(&self) -> (r: StylePropList)
        ensures
            r@ == self@,
    {
        let props = clone_props(&self.props);
        let mut selectors: Vec<SelectorEntry> = Vec::new();
        let mut i: usize = 0;
        while i < self.selectors.len()
            invariant
                i <= self.selectors.len(),
                selectors@.len() == i,
                forall|j: int|
                    0 <= j < i ==> entry_view(#[trigger] selectors@[j]) == entry_view(
                        self.selectors@[j],
                    ),
            decreases self.selectors.len() - i,
        {
            let entry = &self.selectors[i];
            let selector = Box::new(entry.0.duplicate());
            let entry_props = clone_props(&entry.1);
            selectors.push((selector, entry_props));
            i += 1;
        }
        assert(entry_views(selectors@) =~= entry_views(self.selectors@));
        StylePropList { props, selectors }
    }
}

} // verus!

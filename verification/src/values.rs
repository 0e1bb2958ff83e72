//! The values that style properties take.

use vstd::prelude::*;
use crate::number::{same_as_byte, same_number, Number};

verus! {

/// A length, or the request to work one out.
#[derive(Debug, PartialEq, Eq)]
pub enum Val {
    /// Worked out by the layout.
    Auto,
    /// In pixels.
    Px(Number),
    /// In hundredths of the parent's extent along the same axis.
    Percent(Number),
    /// In hundredths of the viewport's width.
    Vw(Number),
    /// In hundredths of the viewport's height.
    Vh(Number),
    /// In hundredths of the smaller side of the viewport.
    VMin(Number),
    /// In hundredths of the larger side of the viewport.
    VMax(Number),
}

/// The mathematical value of a [`Val`]: numbers are the texts of their
/// literals.
pub ghost enum ValView {
    Auto,
    Px(Seq<char>),
    Percent(Seq<char>),
    Vw(Seq<char>),
    Vh(Seq<char>),
    VMin(Seq<char>),
    VMax(Seq<char>),
}

impl View for Val {
    type V = ValView;

    open spec fn view(&self) -> ValView {
        match self {
            Val::Auto => ValView::Auto,
            Val::Px(n) => ValView::Px(n@),
            Val::Percent(n) => ValView::Percent(n@),
            Val::Vw(n) => ValView::Vw(n@),
            Val::Vh(n) => ValView::Vh(n@),
            Val::VMin(n) => ValView::VMin(n@),
            Val::VMax(n) => ValView::VMax(n@),
        }
    }
}

impl Clone for Val {
    fn clone(&self) -> (r: Val)
        ensures
            r@ == self@,
    {
        match self {
            Val::Auto => Val::Auto,
            Val::Px(n) => Val::Px(n.clone()),
            Val::Percent(n) => Val::Percent(n.clone()),
            Val::Vw(n) => Val::Vw(n.clone()),
            Val::Vh(n) => Val::Vh(n.clone()),
            Val::VMin(n) => Val::VMin(n.clone()),
            Val::VMax(n) => Val::VMax(n.clone()),
        }
    }
}

/// A length for each side of a box.
#[derive(Debug, PartialEq, Eq)]
pub struct UiRect {
    pub left: Val,
    pub right: Val,
    pub top: Val,
    pub bottom: Val,
}

/// The mathematical value of a [`UiRect`].
pub ghost struct UiRectView {
    pub left: ValView,
    pub right: ValView,
    pub top: ValView,
    pub bottom: ValView,
}

impl View for UiRect {
    type V = UiRectView;

    open spec fn view(&self) -> UiRectView {
        UiRectView { left: self.left@, right: self.right@, top: self.top@, bottom: self.bottom@ }
    }
}

impl UiRectView {
    /// The same length on all four sides.
    pub open spec fn all(value: ValView) -> UiRectView {
        UiRectView { left: value, right: value, top: value, bottom: value }
    }

    /// One length for left and right, one for top and bottom.
    pub open spec fn axes(horizontal: ValView, vertical: ValView) -> UiRectView {
        UiRectView { left: horizontal, right: horizontal, top: vertical, bottom: vertical }
    }
}

impl UiRect {
    /// A rectangle of the four lengths.
    pub fn new(left: Val, right: Val, top: Val, bottom: Val) -> (r: UiRect)
        ensures
            r@ == (UiRectView { left: left@, right: right@, top: top@, bottom: bottom@ }),
    {
        UiRect { left, right, top, bottom }
    }

    /// The same length on all four sides.
    pub fn all(value: Val) -> (r: UiRect)
        ensures
            r@ == UiRectView::all(value@),
    {
        UiRect { left: value.clone(), right: value.clone(), top: value.clone(), bottom: value }
    }

    /// One length for left and right, one for top and bottom.
    pub fn axes(horizontal: Val, vertical: Val) -> (r: UiRect)
        ensures
            r@ == UiRectView::axes(horizontal@, vertical@),
    {
        UiRect {
            left: horizontal.clone(),
            right: horizontal,
            top: vertical.clone(),
            bottom: vertical,
        }
    }
}

impl Clone for UiRect {
    fn clone(&self) -> (r: UiRect)
        ensures
            r@ == self@,
    {
        UiRect {
            left: self.left.clone(),
            right: self.right.clone(),
            top: self.top.clone(),
            bottom: self.bottom.clone(),
        }
    }
}

/// A colour.
#[allow(inconsistent_fields)]
#[derive(Debug, PartialEq, Eq)]
pub enum Color {
    /// Standard RGB with eight bits for each channel, as hexadecimal
    /// notation gives it. A channel is worth its value divided by 255.
    Rgba8 { red: u8, green: u8, blue: u8, alpha: u8 },
    /// Standard RGB with transparency.
    Rgba { red: Number, green: Number, blue: Number, alpha: Number },
    /// RGB in the linear colour space, with transparency.
    RgbaLinear { red: Number, green: Number, blue: Number, alpha: Number },
    /// Hue, saturation and lightness, with transparency.
    Hsla { hue: Number, saturation: Number, lightness: Number, alpha: Number },
}

/// The mathematical value of a [`Color`].
#[allow(inconsistent_fields)]
pub ghost enum ColorView {
    Rgba8 { red: u8, green: u8, blue: u8, alpha: u8 },
    Rgba { red: Seq<char>, green: Seq<char>, blue: Seq<char>, alpha: Seq<char> },
    RgbaLinear { red: Seq<char>, green: Seq<char>, blue: Seq<char>, alpha: Seq<char> },
    Hsla { hue: Seq<char>, saturation: Seq<char>, lightness: Seq<char>, alpha: Seq<char> },
}

impl View for Color {
    type V = ColorView;

    open spec fn view(&self) -> ColorView {
        match self {
            Color::Rgba8 { red, green, blue, alpha } => ColorView::Rgba8 {
                red: *red,
                green: *green,
                blue: *blue,
                alpha: *alpha,
            },
            Color::Rgba { red, green, blue, alpha } => ColorView::Rgba {
                red: red@,
                green: green@,
                blue: blue@,
                alpha: alpha@,
            },
            Color::RgbaLinear { red, green, blue, alpha } => ColorView::RgbaLinear {
                red: red@,
                green: green@,
                blue: blue@,
                alpha: alpha@,
            },
            Color::Hsla { hue, saturation, lightness, alpha } => ColorView::Hsla {
                hue: hue@,
                saturation: saturation@,
                lightness: lightness@,
                alpha: alpha@,
            },
        }
    }
}

impl ColorView {
    /// Whether the two colours are worth the same: they are in the same
    /// colour space, where hexadecimal notation counts as standard RGB, and
    /// each channel of the one is worth what it is worth in the other.
    pub open spec fn same(self, other: ColorView) -> bool {
        match (self, other) {
            (ColorView::Rgba8 { .. }, ColorView::Rgba8 { .. }) => self == other,
            (
                ColorView::Rgba8 { red, green, blue, alpha },
                ColorView::Rgba { red: r2, green: g2, blue: b2, alpha: a2 },
            ) => same_as_byte(r2, red) && same_as_byte(g2, green) && same_as_byte(b2, blue)
                && same_as_byte(a2, alpha),
            (
                ColorView::Rgba { red, green, blue, alpha },
                ColorView::Rgba8 { red: r2, green: g2, blue: b2, alpha: a2 },
            ) => same_as_byte(red, r2) && same_as_byte(green, g2) && same_as_byte(blue, b2)
                && same_as_byte(alpha, a2),
            (
                ColorView::Rgba { red, green, blue, alpha },
                ColorView::Rgba { red: r2, green: g2, blue: b2, alpha: a2 },
            ) => same_number(red, r2) && same_number(green, g2) && same_number(blue, b2)
                && same_number(alpha, a2),
            (
                ColorView::RgbaLinear { red, green, blue, alpha },
                ColorView::RgbaLinear { red: r2, green: g2, blue: b2, alpha: a2 },
            ) => same_number(red, r2) && same_number(green, g2) && same_number(blue, b2)
                && same_number(alpha, a2),
            (
                ColorView::Hsla { hue, saturation, lightness, alpha },
                ColorView::Hsla { hue: h2, saturation: s2, lightness: l2, alpha: a2 },
            ) => same_number(hue, h2) && same_number(saturation, s2) && same_number(
                lightness,
                l2,
            ) && same_number(alpha, a2),
            _ => false,
        }
    }
}

impl Color {
    /// Whether the two colours are worth the same, however their channels
    /// are written.
    pub fn same(&self, other: &Color) -> (r: bool)
        ensures
            r == self@.same(other@),
    {
        match (self, other) {
            (
                Color::Rgba8 { red, green, blue, alpha },
                Color::Rgba8 { red: r2, green: g2, blue: b2, alpha: a2 },
            ) => *red == *r2 && *green == *g2 && *blue == *b2 && *alpha == *a2,
            (
                Color::Rgba8 { red, green, blue, alpha },
                Color::Rgba { red: r2, green: g2, blue: b2, alpha: a2 },
            ) => r2.same_as_byte(*red) && g2.same_as_byte(*green) && b2.same_as_byte(*blue)
                && a2.same_as_byte(*alpha),
            (
                Color::Rgba { red, green, blue, alpha },
                Color::Rgba8 { red: r2, green: g2, blue: b2, alpha: a2 },
            ) => red.same_as_byte(*r2) && green.same_as_byte(*g2) && blue.same_as_byte(*b2)
                && alpha.same_as_byte(*a2),
            (
                Color::Rgba { red, green, blue, alpha },
                Color::Rgba { red: r2, green: g2, blue: b2, alpha: a2 },
            ) => red.same(r2) && green.same(g2) && blue.same(b2) && alpha.same(a2),
            (
                Color::RgbaLinear { red, green, blue, alpha },
                Color::RgbaLinear { red: r2, green: g2, blue: b2, alpha: a2 },
            ) => red.same(r2) && green.same(g2) && blue.same(b2) && alpha.same(a2),
            (
                Color::Hsla { hue, saturation, lightness, alpha },
                Color::Hsla { hue: h2, saturation: s2, lightness: l2, alpha: a2 },
            ) => hue.same(h2) && saturation.same(s2) && lightness.same(l2) && alpha.same(a2),
            _ => false,
        }
    }
}

impl Clone for Color {
    fn clone(&self) -> (r: Color)
        ensures
            r@ == self@,
    {
        match self {
            Color::Rgba8 { red, green, blue, alpha } => Color::Rgba8 {
                red: *red,
                green: *green,
                blue: *blue,
                alpha: *alpha,
            },
            Color::Rgba { red, green, blue, alpha } => Color::Rgba {
                red: red.clone(),
                green: green.clone(),
                blue: blue.clone(),
                alpha: alpha.clone(),
            },
            Color::RgbaLinear { red, green, blue, alpha } => Color::RgbaLinear {
                red: red.clone(),
                green: green.clone(),
                blue: blue.clone(),
                alpha: alpha.clone(),
            },
            Color::Hsla { hue, saturation, lightness, alpha } => Color::Hsla {
                hue: hue.clone(),
                saturation: saturation.clone(),
                lightness: lightness.clone(),
                alpha: alpha.clone(),
            },
        }
    }
}

/// Whether an element is laid out, and how it lays out its children.
#[derive(Debug, Clone, Copy, PartialEq, Eq, Structural)]
pub enum Display {
    Flex,
    Grid,
    /// The element takes no part in layout.
    Hidden,
}

/// How the position of an element is worked out.
#[derive(Debug, Clone, Copy, PartialEq, Eq, Structural)]
pub enum PositionType {
    Relative,
    Absolute,
}

/// What happens to content that does not fit, along one axis.
#[derive(Debug, Clone, Copy, PartialEq, Eq, Structural)]
pub enum OverflowAxis {
    Visible,
    Clip,
}

/// The direction of text and of inline layout.
#[derive(Debug, Clone, Copy, PartialEq, Eq, Structural)]
pub enum Direction {
    Inherit,
    LeftToRight,
    RightToLeft,
}

/// The main axis of a flex container.
#[derive(Debug, Clone, Copy, PartialEq, Eq, Structural)]
pub enum FlexDirection {
    Row,
    Column,
    RowReverse,
    ColumnReverse,
}

/// Whether a flex container wraps its items.
#[derive(Debug, Clone, Copy, PartialEq, Eq, Structural)]
pub enum FlexWrap {
    NoWrap,
    Wrap,
    WrapReverse,
}

/// How items are aligned along the cross axis.
#[derive(Debug, Clone, Copy, PartialEq, Eq, Structural)]
pub enum AlignItems {
    Default,
    Start,
    End,
    FlexStart,
    FlexEnd,
    Center,
    Baseline,
    Stretch,
}

/// How one item is aligned along the cross axis.
#[derive(Debug, Clone, Copy, PartialEq, Eq, Structural)]
pub enum AlignSelf {
    Auto,
    Start,
    End,
    FlexStart,
    FlexEnd,
    Center,
    Baseline,
    Stretch,
}

/// How lines are distributed along the cross axis.
#[derive(Debug, Clone, Copy, PartialEq, Eq, Structural)]
pub enum AlignContent {
    Default,
    Start,
    End,
    FlexStart,
    FlexEnd,
    Center,
    Stretch,
    SpaceBetween,
    SpaceEvenly,
    SpaceAround,
}

/// How items are aligned along the main axis of their cells.
#[derive(Debug, Clone, Copy, PartialEq, Eq, Structural)]
pub enum JustifyItems {
    Default,
    Start,
    End,
    Center,
    Baseline,
    Stretch,
}

/// How one item is aligned along the main axis of its cell.
#[derive(Debug, Clone, Copy, PartialEq, Eq, Structural)]
pub enum JustifySelf {
    Auto,
    Start,
    End,
    Center,
    Baseline,
    Stretch,
}

/// How items are distributed along the main axis.
#[derive(Debug, Clone, Copy, PartialEq, Eq, Structural)]
pub enum JustifyContent {
    Default,
    Start,
    End,
    FlexStart,
    FlexEnd,
    Center,
    Stretch,
    SpaceBetween,
    SpaceEvenly,
    SpaceAround,
}

/// How a grid places the items that name no cell.
#[derive(Debug, Clone, Copy, PartialEq, Eq, Structural)]
pub enum GridAutoFlow {
    Row,
    Column,
    RowDense,
    ColumnDense,
}

/// The place of an element in the stacking order.
#[derive(Debug, Clone, Copy, PartialEq, Eq, Structural)]
pub enum ZIndex {
    /// Among its siblings.
    Local(i32),
    /// Among all elements.
    Global(i32),
}

/// Whether an element takes pointer events.
#[derive(Debug, Clone, Copy, PartialEq, Eq, Structural)]
pub enum PointerEvents {
    /// It does, and holds them back from what lies under it.
    All,
    /// It does not.
    Ignore,
}

} // verus!

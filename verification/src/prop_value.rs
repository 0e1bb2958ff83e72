//! The values that a declaration can be written with, and how a property
//! takes them.

use vstd::prelude::*;
use vstd::string::StringExecFns;
use crate::chars::{is_text, to_chars};
use crate::error::{StyleParsingError, StyleParsingErrorView};
use crate::number::Number;
use crate::style::{Property, StyleProp, StylePropView, ValueView};
use crate::values::{
    AlignContent, AlignItems, AlignSelf, Color, ColorView, Display, FlexDirection,
    JustifyContent, JustifyItems, JustifySelf, PositionType, UiRect, UiRectView, Val, ValView,
};

verus! {

broadcast use vstd::string::group_string_axioms;

/// The value of a declaration, as it was written.
#[derive(Debug, PartialEq, Eq)]
pub enum PropValue {
    /// A bare word.
    Ident(String),
    /// A number without a unit.
    Number(Number),
    /// A text between double quotes, its escapes resolved.
    String(String),
    /// A length.
    Length(Val),
    /// Two to four lengths, a number without a unit counting as pixels.
    List(Vec<Val>),
    /// A colour.
    Color(Color),
}

/// The mathematical value of a [`PropValue`].
pub ghost enum PropValueView {
    Ident(Seq<char>),
    Number(Seq<char>),
    String(Seq<char>),
    Length(ValView),
    List(Seq<ValView>),
    Color(ColorView),
}

/// The values of a list of lengths.
pub open spec fn val_views(vals: Seq<Val>) -> Seq<ValView> {
    vals.map_values(|v: Val| v@)
}

impl View for PropValue {
    type V = PropValueView;

    open spec fn view(&self) -> PropValueView {
        match self {
            PropValue::Ident(id) => PropValueView::Ident(id@),
            PropValue::Number(n) => PropValueView::Number(n@),
            PropValue::String(s) => PropValueView::String(s@),
            PropValue::Length(l) => PropValueView::Length(l@),
            PropValue::List(vals) => PropValueView::List(val_views(vals@)),
            PropValue::Color(c) => PropValueView::Color(c@),
        }
    }
}

impl PropValueView {
    /// The name of the kind of value.
    pub open spec fn kind_name(self) -> Seq<char> {
        match self {
            PropValueView::Ident(_) => "ident"@,
            PropValueView::Number(_) => "number"@,
            PropValueView::String(_) => "string"@,
            PropValueView::Length(_) => "length"@,
            PropValueView::List(_) => "list"@,
            PropValueView::Color(_) => "color"@,
        }
    }

    /// A list holds two, three or four lengths.
    pub open spec fn is_well_formed(self) -> bool {
        self matches PropValueView::List(vals) ==> 2 <= vals.len() <= 4
    }

    /// The error for a value that is not of a kind that the property
    /// takes: a word is named between double quotes, any other value by its
    /// kind.
    pub open spec fn wrong_type(self) -> StyleParsingErrorView {
        match self {
            PropValueView::Ident(id) => StyleParsingErrorView::InvalidPropertyType(quoted(id)),
            _ => StyleParsingErrorView::InvalidPropertyType(self.kind_name()),
        }
    }

    /// The error for a value that the property does not take: a word that
    /// it does not know is named between double quotes, any other value by
    /// its kind.
    pub open spec fn wrong_value(self) -> StyleParsingErrorView {
        match self {
            PropValueView::Ident(id) => StyleParsingErrorView::InvalidPropertyValue(quoted(id)),
            _ => StyleParsingErrorView::InvalidPropertyType(self.kind_name()),
        }
    }

    /// The value as a colour that may be absent: a colour, or the word
    /// `transparent` for none.
    pub open spec fn as_color(self) -> Result<Option<ColorView>, StyleParsingErrorView> {
        match self {
            PropValueView::Color(c) => Ok(Some(c)),
            PropValueView::Ident(id) if id == "transparent"@ => Ok(None),
            _ => Err(self.wrong_type()),
        }
    }

    /// The value as a length: a length, a number of pixels, or the word
    /// `auto`.
    pub open spec fn as_length(self) -> Result<ValView, StyleParsingErrorView> {
        match self {
            PropValueView::Number(n) => Ok(ValView::Px(n)),
            PropValueView::Length(l) => Ok(l),
            PropValueView::Ident(id) if id == "auto"@ => Ok(ValView::Auto),
            _ => Err(self.wrong_value()),
        }
    }

    /// The value as a length for each side of a box. One length goes to
    /// all sides. Of two, the first goes to top and bottom, the second to
    /// left and right. Of three, the first goes to the top, the second to
    /// left and right, the third to the bottom. Four go to top, right,
    /// bottom and left, in this order.
    pub open spec fn as_rect(self) -> Result<UiRectView, StyleParsingErrorView>
        recommends
            self.is_well_formed(),
    {
        match self {
            PropValueView::Number(n) => Ok(UiRectView::all(ValView::Px(n))),
            PropValueView::Length(l) => Ok(UiRectView::all(l)),
            PropValueView::List(vals) => if vals.len() == 2 {
                Ok(UiRectView::axes(vals[1], vals[0]))
            } else if vals.len() == 3 {
                Ok(UiRectView { left: vals[1], right: vals[1], top: vals[0], bottom: vals[2] })
            } else {
                Ok(UiRectView { left: vals[3], right: vals[1], top: vals[0], bottom: vals[2] })
            },
            PropValueView::Ident(id) if id == "auto"@ => Ok(UiRectView::all(ValView::Auto)),
            _ => Err(self.wrong_value()),
        }
    }

    /// The value as a choice of `Display`.
    pub open spec fn as_display(self) -> Result<Display, StyleParsingErrorView> {
        match self {
            PropValueView::Ident(id) => match display_named(id) {
                Some(v) => Ok(v),
                None => Err(self.wrong_value()),
            },
            _ => Err(self.wrong_value()),
        }
    }

    /// The value as a choice of `PositionType`.
    pub open spec fn as_position(self) -> Result<PositionType, StyleParsingErrorView> {
        match self {
            PropValueView::Ident(id) => match position_named(id) {
                Some(v) => Ok(v),
                None => Err(self.wrong_value()),
            },
            _ => Err(self.wrong_value()),
        }
    }

    /// The value as a choice of `FlexDirection`.
    pub open spec fn as_flex_direction(self) -> Result<FlexDirection, StyleParsingErrorView> {
        match self {
            PropValueView::Ident(id) => match flex_direction_named(id) {
                Some(v) => Ok(v),
                None => Err(self.wrong_value()),
            },
            _ => Err(self.wrong_value()),
        }
    }

    /// The value as a choice of `AlignItems`.
    pub open spec fn as_align_items(self) -> Result<AlignItems, StyleParsingErrorView> {
        match self {
            PropValueView::Ident(id) => match align_items_named(id) {
                Some(v) => Ok(v),
                None => Err(self.wrong_value()),
            },
            _ => Err(self.wrong_value()),
        }
    }

    /// The value as a choice of `AlignContent`.
    pub open spec fn as_align_content(self) -> Result<AlignContent, StyleParsingErrorView> {
        match self {
            PropValueView::Ident(id) => match align_content_named(id) {
                Some(v) => Ok(v),
                None => Err(self.wrong_value()),
            },
            _ => Err(self.wrong_value()),
        }
    }

    /// The value as a choice of `AlignSelf`.
    pub open spec fn as_align_self(self) -> Result<AlignSelf, StyleParsingErrorView> {
        match self {
            PropValueView::Ident(id) => match align_self_named(id) {
                Some(v) => Ok(v),
                None => Err(self.wrong_value()),
            },
            _ => Err(self.wrong_value()),
        }
    }

    /// The value as a choice of `JustifyItems`.
    pub open spec fn as_justify_items(self) -> Result<JustifyItems, StyleParsingErrorView> {
        match self {
            PropValueView::Ident(id) => match justify_items_named(id) {
                Some(v) => Ok(v),
                None => Err(self.wrong_value()),
            },
            _ => Err(self.wrong_value()),
        }
    }

    /// The value as a choice of `JustifyContent`.
    pub open spec fn as_justify_content(self) -> Result<JustifyContent, StyleParsingErrorView> {
        match self {
            PropValueView::Ident(id) => match justify_content_named(id) {
                Some(v) => Ok(v),
                None => Err(self.wrong_value()),
            },
            _ => Err(self.wrong_value()),
        }
    }

    /// The value as a choice of `JustifySelf`.
    pub open spec fn as_justify_self(self) -> Result<JustifySelf, StyleParsingErrorView> {
        match self {
            PropValueView::Ident(id) => match justify_self_named(id) {
                Some(v) => Ok(v),
                None => Err(self.wrong_value()),
            },
            _ => Err(self.wrong_value()),
        }
    }
}

/// `id` between double quotes.
pub open spec fn quoted(id: Seq<char>) -> Seq<char> {
    seq!['"'] + id + seq!['"']
}

/// The choice of `Display` that the word `id` stands for.
pub open spec fn display_named(id: Seq<char>) -> Option<Display> {
    if id == "flex"@ {
        Some(Display::Flex)
    } else if id == "grid"@ {
        Some(Display::Grid)
    } else if id == "none"@ {
        Some(Display::Hidden)
    } else {
        None
    }
}

/// The choice of `PositionType` that the word `id` stands for.
pub open spec fn position_named(id: Seq<char>) -> Option<PositionType> {
    if id == "relative"@ {
        Some(PositionType::Relative)
    } else if id == "absolute"@ {
        Some(PositionType::Absolute)
    } else {
        None
    }
}

/// The choice of `FlexDirection` that the word `id` stands for.
pub open spec fn flex_direction_named(id: Seq<char>) -> Option<FlexDirection> {
    if id == "row"@ {
        Some(FlexDirection::Row)
    } else if id == "row_reverse"@ {
        Some(FlexDirection::RowReverse)
    } else if id == "column"@ {
        Some(FlexDirection::Column)
    } else if id == "column_reverse"@ {
        Some(FlexDirection::ColumnReverse)
    } else {
        None
    }
}

/// The choice of `AlignItems` that the word `id` stands for.
pub open spec fn align_items_named(id: Seq<char>) -> Option<AlignItems> {
    if id == "default"@ {
        Some(AlignItems::Default)
    } else if id == "start"@ {
        Some(AlignItems::Start)
    } else if id == "end"@ {
        Some(AlignItems::End)
    } else if id == "flex_start"@ {
        Some(AlignItems::FlexStart)
    } else if id == "flex_end"@ {
        Some(AlignItems::FlexEnd)
    } else if id == "center"@ {
        Some(AlignItems::Center)
    } else if id == "baseline"@ {
        Some(AlignItems::Baseline)
    } else if id == "stretch"@ {
        Some(AlignItems::Stretch)
    } else {
        None
    }
}

/// The choice of `AlignContent` that the word `id` stands for.
pub open spec fn align_content_named(id: Seq<char>) -> Option<AlignContent> {
    if id == "default"@ {
        Some(AlignContent::Default)
    } else if id == "start"@ {
        Some(AlignContent::Start)
    } else if id == "end"@ {
        Some(AlignContent::End)
    } else if id == "flex_start"@ {
        Some(AlignContent::FlexStart)
    } else if id == "flex_end"@ {
        Some(AlignContent::FlexEnd)
    } else if id == "center"@ {
        Some(AlignContent::Center)
    } else if id == "stretch"@ {
        Some(AlignContent::Stretch)
    } else if id == "space_between"@ {
        Some(AlignContent::SpaceBetween)
    } else if id == "space_evenly"@ {
        Some(AlignContent::SpaceEvenly)
    } else if id == "space_around"@ {
        Some(AlignContent::SpaceAround)
    } else {
        None
    }
}

/// The choice of `AlignSelf` that the word `id` stands for.
pub open spec fn align_self_named(id: Seq<char>) -> Option<AlignSelf> {
    if id == "auto"@ {
        Some(AlignSelf::Auto)
    } else if id == "start"@ {
        Some(AlignSelf::Start)
    } else if id == "end"@ {
        Some(AlignSelf::End)
    } else if id == "flex_start"@ {
        Some(AlignSelf::FlexStart)
    } else if id == "flex_end"@ {
        Some(AlignSelf::FlexEnd)
    } else if id == "center"@ {
        Some(AlignSelf::Center)
    } else if id == "baseline"@ {
        Some(AlignSelf::Baseline)
    } else if id == "stretch"@ {
        Some(AlignSelf::Stretch)
    } else {
        None
    }
}

/// The choice of `JustifyItems` that the word `id` stands for.
pub open spec fn justify_items_named(id: Seq<char>) -> Option<JustifyItems> {
    if id == "default"@ {
        Some(JustifyItems::Default)
    } else if id == "start"@ {
        Some(JustifyItems::Start)
    } else if id == "end"@ {
        Some(JustifyItems::End)
    } else if id == "center"@ {
        Some(JustifyItems::Center)
    } else if id == "baseline"@ {
        Some(JustifyItems::Baseline)
    } else if id == "stretch"@ {
        Some(JustifyItems::Stretch)
    } else {
        None
    }
}

/// The choice of `JustifyContent` that the word `id` stands for.
pub open spec fn justify_content_named(id: Seq<char>) -> Option<JustifyContent> {
    if id == "default"@ {
        Some(JustifyContent::Default)
    } else if id == "start"@ {
        Some(JustifyContent::Start)
    } else if id == "end"@ {
        Some(JustifyContent::End)
    } else if id == "flex_start"@ {
        Some(JustifyContent::FlexStart)
    } else if id == "flex_end"@ {
        Some(JustifyContent::FlexEnd)
    } else if id == "center"@ {
        Some(JustifyContent::Center)
    } else if id == "stretch"@ {
        Some(JustifyContent::Stretch)
    } else if id == "space_between"@ {
        Some(JustifyContent::SpaceBetween)
    } else if id == "space_evenly"@ {
        Some(JustifyContent::SpaceEvenly)
    } else if id == "space_around"@ {
        Some(JustifyContent::SpaceAround)
    } else {
        None
    }
}

/// The choice of `JustifySelf` that the word `id` stands for.
pub open spec fn justify_self_named(id: Seq<char>) -> Option<JustifySelf> {
    if id == "auto"@ {
        Some(JustifySelf::Auto)
    } else if id == "start"@ {
        Some(JustifySelf::Start)
    } else if id == "end"@ {
        Some(JustifySelf::End)
    } else if id == "center"@ {
        Some(JustifySelf::Center)
    } else if id == "baseline"@ {
        Some(JustifySelf::Baseline)
    } else if id == "stretch"@ {
        Some(JustifySelf::Stretch)
    } else {
        None
    }
}

/// The property that a declaration names with `name`.
pub open spec fn property_named(name: Seq<char>) -> Option<Property> {
    if name == "background_color"@ {
        Some(Property::BackgroundColor)
    } else if name == "border_color"@ {
        Some(Property::BorderColor)
    } else if name == "color"@ {
        Some(Property::Color)
    } else if name == "display"@ {
        Some(Property::Display)
    } else if name == "position_type"@ {
        Some(Property::Position)
    } else if name == "left"@ {
        Some(Property::Left)
    } else if name == "right"@ {
        Some(Property::Right)
    } else if name == "top"@ {
        Some(Property::Top)
    } else if name == "bottom"@ {
        Some(Property::Bottom)
    } else if name == "width"@ {
        Some(Property::Width)
    } else if name == "height"@ {
        Some(Property::Height)
    } else if name == "min_width"@ {
        Some(Property::MinWidth)
    } else if name == "min_height"@ {
        Some(Property::MinHeight)
    } else if name == "max_width"@ {
        Some(Property::MaxWidth)
    } else if name == "max_height"@ {
        Some(Property::MaxHeight)
    } else if name == "margin"@ {
        Some(Property::Margin)
    } else if name == "margin_left"@ {
        Some(Property::MarginLeft)
    } else if name == "margin_right"@ {
        Some(Property::MarginRight)
    } else if name == "margin_top"@ {
        Some(Property::MarginTop)
    } else if name == "margin_bottom"@ {
        Some(Property::MarginBottom)
    } else if name == "padding"@ {
        Some(Property::Padding)
    } else if name == "padding_left"@ {
        Some(Property::PaddingLeft)
    } else if name == "padding_right"@ {
        Some(Property::PaddingRight)
    } else if name == "padding_top"@ {
        Some(Property::PaddingTop)
    } else if name == "padding_bottom"@ {
        Some(Property::PaddingBottom)
    } else if name == "border"@ {
        Some(Property::Border)
    } else if name == "border_left"@ {
        Some(Property::BorderLeft)
    } else if name == "border_right"@ {
        Some(Property::BorderRight)
    } else if name == "border_top"@ {
        Some(Property::BorderTop)
    } else if name == "border_bottom"@ {
        Some(Property::BorderBottom)
    } else if name == "flex_direction"@ {
        Some(Property::FlexDirection)
    } else if name == "flex_basis"@ {
        Some(Property::FlexBasis)
    } else if name == "row_gap"@ {
        Some(Property::RowGap)
    } else if name == "column_gap"@ {
        Some(Property::ColumnGap)
    } else if name == "gap"@ {
        Some(Property::Gap)
    } else if name == "align_items"@ {
        Some(Property::AlignItems)
    } else if name == "align_self"@ {
        Some(Property::AlignSelf)
    } else if name == "align_content"@ {
        Some(Property::AlignContent)
    } else if name == "justify_items"@ {
        Some(Property::JustifyItems)
    } else if name == "justify_self"@ {
        Some(Property::JustifySelf)
    } else if name == "justify_content"@ {
        Some(Property::JustifyContent)
    } else {
        None
    }
}

/// What `property` is set to by a declaration written with `value`.
/// Properties that no declaration can name take no value.
pub open spec fn value_for(property: Property, value: PropValueView) -> Result<
    ValueView,
    StyleParsingErrorView,
> {
    match property {
        Property::BackgroundColor
        | Property::BorderColor
        | Property::Color => match value.as_color() {
            Ok(v) => Ok(ValueView::Color(v)),
            Err(e) => Err(e),
        },
        Property::Display => match value.as_display() {
            Ok(v) => Ok(ValueView::Display(v)),
            Err(e) => Err(e),
        },
        Property::Position => match value.as_position() {
            Ok(v) => Ok(ValueView::Position(v)),
            Err(e) => Err(e),
        },
        Property::Left
        | Property::Right
        | Property::Top
        | Property::Bottom
        | Property::Width
        | Property::Height
        | Property::MinWidth
        | Property::MinHeight
        | Property::MaxWidth
        | Property::MaxHeight
        | Property::MarginLeft
        | Property::MarginRight
        | Property::MarginTop
        | Property::MarginBottom
        | Property::PaddingLeft
        | Property::PaddingRight
        | Property::PaddingTop
        | Property::PaddingBottom
        | Property::BorderLeft
        | Property::BorderRight
        | Property::BorderTop
        | Property::BorderBottom
        | Property::FlexBasis
        | Property::RowGap
        | Property::ColumnGap
        | Property::Gap => match value.as_length() {
            Ok(v) => Ok(ValueView::Length(v)),
            Err(e) => Err(e),
        },
        Property::Margin
        | Property::Padding
        | Property::Border => match value.as_rect() {
            Ok(v) => Ok(ValueView::Rect(v)),
            Err(e) => Err(e),
        },
        Property::FlexDirection => match value.as_flex_direction() {
            Ok(v) => Ok(ValueView::FlexDirection(v)),
            Err(e) => Err(e),
        },
        Property::AlignItems => match value.as_align_items() {
            Ok(v) => Ok(ValueView::AlignItems(v)),
            Err(e) => Err(e),
        },
        Property::AlignSelf => match value.as_align_self() {
            Ok(v) => Ok(ValueView::AlignSelf(v)),
            Err(e) => Err(e),
        },
        Property::AlignContent => match value.as_align_content() {
            Ok(v) => Ok(ValueView::AlignContent(v)),
            Err(e) => Err(e),
        },
        Property::JustifyItems => match value.as_justify_items() {
            Ok(v) => Ok(ValueView::JustifyItems(v)),
            Err(e) => Err(e),
        },
        Property::JustifySelf => match value.as_justify_self() {
            Ok(v) => Ok(ValueView::JustifySelf(v)),
            Err(e) => Err(e),
        },
        Property::JustifyContent => match value.as_justify_content() {
            Ok(v) => Ok(ValueView::JustifyContent(v)),
            Err(e) => Err(e),
        },
        _ => Err(value.wrong_value()),
    }
}

/// What a declaration means: the property that `name` names, set to
/// `value` as the property takes it.
pub open spec fn declared(name: Seq<char>, value: PropValueView) -> Result<
    StylePropView,
    StyleParsingErrorView,
> {
    match property_named(name) {
        Some(property) => match value_for(property, value) {
            Ok(v) => Ok(StylePropView { property, value: v }),
            Err(e) => Err(e),
        },
        None => Err(StyleParsingErrorView::InvalidPropertyName(name)),
    }
}

/// `id` between double quotes.
pub fn quote(id: &str) -> (r: String)
    ensures
        r@ == quoted(id@),
{
    let mut out = String::new();
    out.push('"');
    out.append(id);
    out.push('"');
    assert(out@ =~= quoted(id@));
    out
}

impl PropValue {
    /// The name of the kind of value.
    pub fn kind_name(&self) -> (r: String)
        ensures
            r@ == self@.kind_name(),
    {
        match self {
            PropValue::Ident(_) => String::from_str("ident"),
            PropValue::Number(_) => String::from_str("number"),
            PropValue::String(_) => String::from_str("string"),
            PropValue::Length(_) => String::from_str("length"),
            PropValue::List(_) => String::from_str("list"),
            PropValue::Color(_) => String::from_str("color"),
        }
    }

    /// The error for a value that is not of a kind that the property
    /// takes.
    pub fn wrong_type(&self) -> (r: StyleParsingError)
        ensures
            r@ == self@.wrong_type(),
    {
        match self {
            PropValue::Ident(id) => StyleParsingError::InvalidPropertyType(quote(id.as_str())),
            _ => StyleParsingError::InvalidPropertyType(self.kind_name()),
        }
    }

    /// The error for a value that the property does not take.
    pub fn wrong_value(&self) -> (r: StyleParsingError)
        ensures
            r@ == self@.wrong_value(),
    {
        match self {
            PropValue::Ident(id) => StyleParsingError::InvalidPropertyValue(quote(id.as_str())),
            _ => StyleParsingError::InvalidPropertyType(self.kind_name()),
        }
    }

    /// Whether the value is the word `word`.
    pub fn is_word(&self, word: &str) -> (r: bool)
        ensures
            r == (self@ == PropValueView::Ident(word@)),
    {
        match self {
            PropValue::Ident(id) => {
                let chars = to_chars(id.as_str());
                is_text(chars.as_slice(), word)
            },
            _ => false,
        }
    }

    /// The value as a colour that may be absent.
    pub fn coerce_color(&self) -> (r: Result<Option<Color>, StyleParsingError>)
        ensures
            match r {
                Ok(c) => self@.as_color() == Ok::<Option<ColorView>, StyleParsingErrorView>(
                    crate::style::color_view(c),
                ),
                Err(e) => self@.as_color() == Err::<Option<ColorView>, StyleParsingErrorView>(e@),
            },
    {
        match self {
            PropValue::Color(c) => Ok(Some(c.clone())),
            _ => {
                if self.is_word("transparent") {
                    Ok(None)
                } else {
                    Err(self.wrong_type())
                }
            },
        }
    }

    /// The value as a length.
    pub fn coerce_length(&self) -> (r: Result<Val, StyleParsingError>)
        ensures
            match r {
                Ok(v) => self@.as_length() == Ok::<ValView, StyleParsingErrorView>(v@),
                Err(e) => self@.as_length() == Err::<ValView, StyleParsingErrorView>(e@),
            },
    {
        match self {
            PropValue::Number(n) => Ok(Val::Px(n.clone())),
            PropValue::Length(l) => Ok(l.clone()),
            _ => {
                if self.is_word("auto") {
                    Ok(Val::Auto)
                } else {
                    Err(self.wrong_value())
                }
            },
        }
    }

    /// The value as a length for each side of a box.
    pub fn coerce_rect(&self) -> (r: Result<UiRect, StyleParsingError>)
        requires
            self@.is_well_formed(),
        ensures
            match r {
                Ok(v) => self@.as_rect() == Ok::<UiRectView, StyleParsingErrorView>(v@),
                Err(e) => self@.as_rect() == Err::<UiRectView, StyleParsingErrorView>(e@),
            },
    {
        match self {
            PropValue::Number(n) => Ok(UiRect::all(Val::Px(n.clone()))),
            PropValue::Length(l) => Ok(UiRect::all(l.clone())),
            PropValue::List(vals) => {
                if vals.len() == 2 {
                    Ok(UiRect::axes(vals[1].clone(), vals[0].clone()))
                } else if vals.len() == 3 {
                    Ok(
                        UiRect::new(
                            vals[1].clone(),
                            vals[1].clone(),
                            vals[0].clone(),
                            vals[2].clone(),
                        ),
                    )
                } else {
                    Ok(
                        UiRect::new(
                            vals[3].clone(),
                            vals[1].clone(),
                            vals[0].clone(),
                            vals[2].clone(),
                        ),
                    )
                }
            },
            _ => {
                if self.is_word("auto") {
                    Ok(UiRect::all(Val::Auto))
                } else {
                    Err(self.wrong_value())
                }
            },
        }
    }

    /// The value as a choice of `Display`.
    pub fn coerce_display(&self) -> (r: Result<Display, StyleParsingError>)
        ensures
            match r {
                Ok(v) => self@.as_display() == Ok::<Display, StyleParsingErrorView>(v),
                Err(e) => self@.as_display() == Err::<Display, StyleParsingErrorView>(e@),
            },
    {
        if self.is_word("flex") {
            Ok(Display::Flex)
        } else if self.is_word("grid") {
            Ok(Display::Grid)
        } else if self.is_word("none") {
            Ok(Display::Hidden)
        } else {
            Err(self.wrong_value())
        }
    }

    /// The value as a choice of `PositionType`.
    pub fn coerce_position(&self) -> (r: Result<PositionType, StyleParsingError>)
        ensures
            match r {
                Ok(v) => self@.as_position() == Ok::<PositionType, StyleParsingErrorView>(v),
                Err(e) => self@.as_position() == Err::<PositionType, StyleParsingErrorView>(e@),
            },
    {
        if self.is_word("relative") {
            Ok(PositionType::Relative)
        } else if self.is_word("absolute") {
            Ok(PositionType::Absolute)
        } else {
            Err(self.wrong_value())
        }
    }

    /// The value as a choice of `FlexDirection`.
    pub fn coerce_flex_direction(&self) -> (r: Result<FlexDirection, StyleParsingError>)
        ensures
            match r {
                Ok(v) => self@.as_flex_direction() == Ok::<FlexDirection, StyleParsingErrorView>(v),
                Err(e) => self@.as_flex_direction() == Err::<FlexDirection, StyleParsingErrorView>(e@),
            },
    {
        if self.is_word("row") {
            Ok(FlexDirection::Row)
        } else if self.is_word("row_reverse") {
            Ok(FlexDirection::RowReverse)
        } else if self.is_word("column") {
            Ok(FlexDirection::Column)
        } else if self.is_word("column_reverse") {
            Ok(FlexDirection::ColumnReverse)
        } else {
            Err(self.wrong_value())
        }
    }

    /// The value as a choice of `AlignItems`.
    pub fn coerce_align_items(&self) -> (r: Result<AlignItems, StyleParsingError>)
        ensures
            match r {
                Ok(v) => self@.as_align_items() == Ok::<AlignItems, StyleParsingErrorView>(v),
                Err(e) => self@.as_align_items() == Err::<AlignItems, StyleParsingErrorView>(e@),
            },
    {
        if self.is_word("default") {
            Ok(AlignItems::Default)
        } else if self.is_word("start") {
            Ok(AlignItems::Start)
        } else if self.is_word("end") {
            Ok(AlignItems::End)
        } else if self.is_word("flex_start") {
            Ok(AlignItems::FlexStart)
        } else if self.is_word("flex_end") {
            Ok(AlignItems::FlexEnd)
        } else if self.is_word("center") {
            Ok(AlignItems::Center)
        } else if self.is_word("baseline") {
            Ok(AlignItems::Baseline)
        } else if self.is_word("stretch") {
            Ok(AlignItems::Stretch)
        } else {
            Err(self.wrong_value())
        }
    }

    /// The value as a choice of `AlignContent`.
    pub fn coerce_align_content(&self) -> (r: Result<AlignContent, StyleParsingError>)
        ensures
            match r {
                Ok(v) => self@.as_align_content() == Ok::<AlignContent, StyleParsingErrorView>(v),
                Err(e) => self@.as_align_content() == Err::<AlignContent, StyleParsingErrorView>(e@),
            },
    {
        if self.is_word("default") {
            Ok(AlignContent::Default)
        } else if self.is_word("start") {
            Ok(AlignContent::Start)
        } else if self.is_word("end") {
            Ok(AlignContent::End)
        } else if self.is_word("flex_start") {
            Ok(AlignContent::FlexStart)
        } else if self.is_word("flex_end") {
            Ok(AlignContent::FlexEnd)
        } else if self.is_word("center") {
            Ok(AlignContent::Center)
        } else if self.is_word("stretch") {
            Ok(AlignContent::Stretch)
        } else if self.is_word("space_between") {
            Ok(AlignContent::SpaceBetween)
        } else if self.is_word("space_evenly") {
            Ok(AlignContent::SpaceEvenly)
        } else if self.is_word("space_around") {
            Ok(AlignContent::SpaceAround)
        } else {
            Err(self.wrong_value())
        }
    }

    /// The value as a choice of `AlignSelf`.
    pub fn coerce_align_self(&self) -> (r: Result<AlignSelf, StyleParsingError>)
        ensures
            match r {
                Ok(v) => self@.as_align_self() == Ok::<AlignSelf, StyleParsingErrorView>(v),
                Err(e) => self@.as_align_self() == Err::<AlignSelf, StyleParsingErrorView>(e@),
            },
    {
        if self.is_word("auto") {
            Ok(AlignSelf::Auto)
        } else if self.is_word("start") {
            Ok(AlignSelf::Start)
        } else if self.is_word("end") {
            Ok(AlignSelf::End)
        } else if self.is_word("flex_start") {
            Ok(AlignSelf::FlexStart)
        } else if self.is_word("flex_end") {
            Ok(AlignSelf::FlexEnd)
        } else if self.is_word("center") {
            Ok(AlignSelf::Center)
        } else if self.is_word("baseline") {
            Ok(AlignSelf::Baseline)
        } else if self.is_word("stretch") {
            Ok(AlignSelf::Stretch)
        } else {
            Err(self.wrong_value())
        }
    }

    /// The value as a choice of `JustifyItems`.
    pub fn coerce_justify_items(&self) -> (r: Result<JustifyItems, StyleParsingError>)
        ensures
            match r {
                Ok(v) => self@.as_justify_items() == Ok::<JustifyItems, StyleParsingErrorView>(v),
                Err(e) => self@.as_justify_items() == Err::<JustifyItems, StyleParsingErrorView>(e@),
            },
    {
        if self.is_word("default") {
            Ok(JustifyItems::Default)
        } else if self.is_word("start") {
            Ok(JustifyItems::Start)
        } else if self.is_word("end") {
            Ok(JustifyItems::End)
        } else if self.is_word("center") {
            Ok(JustifyItems::Center)
        } else if self.is_word("baseline") {
            Ok(JustifyItems::Baseline)
        } else if self.is_word("stretch") {
            Ok(JustifyItems::Stretch)
        } else {
            Err(self.wrong_value())
        }
    }

    /// The value as a choice of `JustifyContent`.
    pub fn coerce_justify_content(&self) -> (r: Result<JustifyContent, StyleParsingError>)
        ensures
            match r {
                Ok(v) => self@.as_justify_content() == Ok::<JustifyContent, StyleParsingErrorView>(v),
                Err(e) => self@.as_justify_content() == Err::<JustifyContent, StyleParsingErrorView>(e@),
            },
    {
        if self.is_word("default") {
            Ok(JustifyContent::Default)
        } else if self.is_word("start") {
            Ok(JustifyContent::Start)
        } else if self.is_word("end") {
            Ok(JustifyContent::End)
        } else if self.is_word("flex_start") {
            Ok(JustifyContent::FlexStart)
        } else if self.is_word("flex_end") {
            Ok(JustifyContent::FlexEnd)
        } else if self.is_word("center") {
            Ok(JustifyContent::Center)
        } else if self.is_word("stretch") {
            Ok(JustifyContent::Stretch)
        } else if self.is_word("space_between") {
            Ok(JustifyContent::SpaceBetween)
        } else if self.is_word("space_evenly") {
            Ok(JustifyContent::SpaceEvenly)
        } else if self.is_word("space_around") {
            Ok(JustifyContent::SpaceAround)
        } else {
            Err(self.wrong_value())
        }
    }

    /// The value as a choice of `JustifySelf`.
    pub fn coerce_justify_self(&self) -> (r: Result<JustifySelf, StyleParsingError>)
        ensures
            match r {
                Ok(v) => self@.as_justify_self() == Ok::<JustifySelf, StyleParsingErrorView>(v),
                Err(e) => self@.as_justify_self() == Err::<JustifySelf, StyleParsingErrorView>(e@),
            },
    {
        if self.is_word("auto") {
            Ok(JustifySelf::Auto)
        } else if self.is_word("start") {
            Ok(JustifySelf::Start)
        } else if self.is_word("end") {
            Ok(JustifySelf::End)
        } else if self.is_word("center") {
            Ok(JustifySelf::Center)
        } else if self.is_word("baseline") {
            Ok(JustifySelf::Baseline)
        } else if self.is_word("stretch") {
            Ok(JustifySelf::Stretch)
        } else {
            Err(self.wrong_value())
        }
    }
}

/// The style property that a declaration stands for: `name` is the name
/// before the colon, `value` the value after it.
pub fn create_prop(name: &str, value: &PropValue) -> (r: Result<StyleProp, StyleParsingError>)
    requires
        value@.is_well_formed(),
    ensures
        match r {
            Ok(prop) => declared(name@, value@) == Ok::<StylePropView, StyleParsingErrorView>(
                prop@,
            ),
            Err(e) => declared(name@, value@) == Err::<StylePropView, StyleParsingErrorView>(e@),
        },
{
    let chars = to_chars(name);
    let word = chars.as_slice();
    if is_text(word, "background_color") {
        match value.coerce_color() {
            Ok(v) => Ok(StyleProp::BackgroundColor(v)),
            Err(e) => Err(e),
        }
    } else if is_text(word, "border_color") {
        match value.coerce_color() {
            Ok(v) => Ok(StyleProp::BorderColor(v)),
            Err(e) => Err(e),
        }
    } else if is_text(word, "color") {
        match value.coerce_color() {
            Ok(v) => Ok(StyleProp::Color(v)),
            Err(e) => Err(e),
        }
    } else if is_text(word, "display") {
        match value.coerce_display() {
            Ok(v) => Ok(StyleProp::Display(v)),
            Err(e) => Err(e),
        }
    } else if is_text(word, "position_type") {
        match value.coerce_position() {
            Ok(v) => Ok(StyleProp::Position(v)),
            Err(e) => Err(e),
        }
    } else if is_text(word, "left") {
        match value.coerce_length() {
            Ok(v) => Ok(StyleProp::Left(v)),
            Err(e) => Err(e),
        }
    } else if is_text(word, "right") {
        match value.coerce_length() {
            Ok(v) => Ok(StyleProp::Right(v)),
            Err(e) => Err(e),
        }
    } else if is_text(word, "top") {
        match value.coerce_length() {
            Ok(v) => Ok(StyleProp::Top(v)),
            Err(e) => Err(e),
        }
    } else if is_text(word, "bottom") {
        match value.coerce_length() {
            Ok(v) => Ok(StyleProp::Bottom(v)),
            Err(e) => Err(e),
        }
    } else if is_text(word, "width") {
        match value.coerce_length() {
            Ok(v) => Ok(StyleProp::Width(v)),
            Err(e) => Err(e),
        }
    } else if is_text(word, "height") {
        match value.coerce_length() {
            Ok(v) => Ok(StyleProp::Height(v)),
            Err(e) => Err(e),
        }
    } else if is_text(word, "min_width") {
        match value.coerce_length() {
            Ok(v) => Ok(StyleProp::MinWidth(v)),
            Err(e) => Err(e),
        }
    } else if is_text(word, "min_height") {
        match value.coerce_length() {
            Ok(v) => Ok(StyleProp::MinHeight(v)),
            Err(e) => Err(e),
        }
    } else if is_text(word, "max_width") {
        match value.coerce_length() {
            Ok(v) => Ok(StyleProp::MaxWidth(v)),
            Err(e) => Err(e),
        }
    } else if is_text(word, "max_height") {
        match value.coerce_length() {
            Ok(v) => Ok(StyleProp::MaxHeight(v)),
            Err(e) => Err(e),
        }
    } else if is_text(word, "margin") {
        match value.coerce_rect() {
            Ok(v) => Ok(StyleProp::Margin(v)),
            Err(e) => Err(e),
        }
    } else if is_text(word, "margin_left") {
        match value.coerce_length() {
            Ok(v) => Ok(StyleProp::MarginLeft(v)),
            Err(e) => Err(e),
        }
    } else if is_text(word, "margin_right") {
        match value.coerce_length() {
            Ok(v) => Ok(StyleProp::MarginRight(v)),
            Err(e) => Err(e),
        }
    } else if is_text(word, "margin_top") {
        match value.coerce_length() {
            Ok(v) => Ok(StyleProp::MarginTop(v)),
            Err(e) => Err(e),
        }
    } else if is_text(word, "margin_bottom") {
        match value.coerce_length() {
            Ok(v) => Ok(StyleProp::MarginBottom(v)),
            Err(e) => Err(e),
        }
    } else if is_text(word, "padding") {
        match value.coerce_rect() {
            Ok(v) => Ok(StyleProp::Padding(v)),
            Err(e) => Err(e),
        }
    } else if is_text(word, "padding_left") {
        match value.coerce_length() {
            Ok(v) => Ok(StyleProp::PaddingLeft(v)),
            Err(e) => Err(e),
        }
    } else if is_text(word, "padding_right") {
        match value.coerce_length() {
            Ok(v) => Ok(StyleProp::PaddingRight(v)),
            Err(e) => Err(e),
        }
    } else if is_text(word, "padding_top") {
        match value.coerce_length() {
            Ok(v) => Ok(StyleProp::PaddingTop(v)),
            Err(e) => Err(e),
        }
    } else if is_text(word, "padding_bottom") {
        match value.coerce_length() {
            Ok(v) => Ok(StyleProp::PaddingBottom(v)),
            Err(e) => Err(e),
        }
    } else if is_text(word, "border") {
        match value.coerce_rect() {
            Ok(v) => Ok(StyleProp::Border(v)),
            Err(e) => Err(e),
        }
    } else if is_text(word, "border_left") {
        match value.coerce_length() {
            Ok(v) => Ok(StyleProp::BorderLeft(v)),
            Err(e) => Err(e),
        }
    } else if is_text(word, "border_right") {
        match value.coerce_length() {
            Ok(v) => Ok(StyleProp::BorderRight(v)),
            Err(e) => Err(e),
        }
    } else if is_text(word, "border_top") {
        match value.coerce_length() {
            Ok(v) => Ok(StyleProp::BorderTop(v)),
            Err(e) => Err(e),
        }
    } else if is_text(word, "border_bottom") {
        match value.coerce_length() {
            Ok(v) => Ok(StyleProp::BorderBottom(v)),
            Err(e) => Err(e),
        }
    } else if is_text(word, "flex_direction") {
        match value.coerce_flex_direction() {
            Ok(v) => Ok(StyleProp::FlexDirection(v)),
            Err(e) => Err(e),
        }
    } else if is_text(word, "flex_basis") {
        match value.coerce_length() {
            Ok(v) => Ok(StyleProp::FlexBasis(v)),
            Err(e) => Err(e),
        }
    } else if is_text(word, "row_gap") {
        match value.coerce_length() {
            Ok(v) => Ok(StyleProp::RowGap(v)),
            Err(e) => Err(e),
        }
    } else if is_text(word, "column_gap") {
        match value.coerce_length() {
            Ok(v) => Ok(StyleProp::ColumnGap(v)),
            Err(e) => Err(e),
        }
    } else if is_text(word, "gap") {
        match value.coerce_length() {
            Ok(v) => Ok(StyleProp::Gap(v)),
            Err(e) => Err(e),
        }
    } else if is_text(word, "align_items") {
        match value.coerce_align_items() {
            Ok(v) => Ok(StyleProp::AlignItems(v)),
            Err(e) => Err(e),
        }
    } else if is_text(word, "align_self") {
        match value.coerce_align_self() {
            Ok(v) => Ok(StyleProp::AlignSelf(v)),
            Err(e) => Err(e),
        }
    } else if is_text(word, "align_content") {
        match value.coerce_align_content() {
            Ok(v) => Ok(StyleProp::AlignContent(v)),
            Err(e) => Err(e),
        }
    } else if is_text(word, "justify_items") {
        match value.coerce_justify_items() {
            Ok(v) => Ok(StyleProp::JustifyItems(v)),
            Err(e) => Err(e),
        }
    } else if is_text(word, "justify_self") {
        match value.coerce_justify_self() {
            Ok(v) => Ok(StyleProp::JustifySelf(v)),
            Err(e) => Err(e),
        }
    } else if is_text(word, "justify_content") {
        match value.coerce_justify_content() {
            Ok(v) => Ok(StyleProp::JustifyContent(v)),
            Err(e) => Err(e),
        }
    } else {
        Err(StyleParsingError::InvalidPropertyName(name.to_owned()))
    }
}

} // verus!

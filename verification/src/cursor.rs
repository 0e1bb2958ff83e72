//! Cursor shapes.

use vstd::prelude::*;

verus! {

/// The shape of the pointer over an element: a subset of the cursors of
/// CSS. Where a cursor in the scene is wanted instead, set this one to
/// `Hidden`.
#[derive(Debug, Clone, Copy, PartialEq, Eq, Structural)]
pub enum Cursor {
    /// No cursor.
    Hidden,
    /// An image of the stylesheet's choice.
    CustomImage,
    /// A pointing arrow.
    Default,
    /// A hand with a pointing finger.
    Pointer,
    /// An hourglass.
    Wait,
    /// A crosshair.
    Crosshair,
    /// An I-beam.
    Text,
    /// A vertical I-beam.
    VerticalText,
    /// A four-way arrow.
    Move,
    /// A sign that forbids.
    NotAllowed,
    /// A grabbing hand.
    Grab,
    /// Resizing of a column.
    ColResize,
    /// Resizing of a row.
    RowResize,
    /// A magnifying glass with a plus.
    ZoomIn,
    /// A magnifying glass with a minus.
    ZoomOut,
}

} // verus!

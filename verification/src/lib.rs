//! A CSS-like styling engine for trees of UI elements.
//!
//! A stylesheet is compiled into named styles: lists of properties, some of
//! which apply only where a selector matches. The styles of an element are
//! merged, in their order, into its computed style, and the host is told
//! what to change on the element to show it.
//!
//! * [`selector`], [`selector_parser`]: selectors, their grammar and their
//!   text; [`selector_laws`] holds what is proved of the two together.
//! * [`number`], [`values`], [`prop_value`], [`style`], [`style_parser`]:
//!   the values of properties and the grammar of stylesheets.
//! * [`classes`], [`selector_matcher`]: the tree of elements and the
//!   matching of selectors against it.
//! * [`style_handle`], [`computed`], [`update`], [`update_computed`]: the
//!   cascade and what it asks the host to do.
//! * [`transition`], [`animate`]: transitions of properties.
//!
//! Numbers are kept as they are written in the stylesheet. What a number is
//! worth as a machine number, and all arithmetic on such numbers, is left to
//! the host.

pub mod animate;
pub mod chars;
pub mod classes;
pub mod computed;
pub mod cursor;
pub mod error;
pub mod number;
pub mod prop_value;
pub mod selector;
pub mod selector_laws;
pub mod selector_matcher;
pub mod selector_parser;
pub mod style;
pub mod style_handle;
pub mod style_parser;
pub mod transition;
pub mod update;
pub mod update_computed;
pub mod values;

pub use animate::AnimatedLayoutProp;
pub use classes::{ClassNames, ConditionalClassNames, ElementClasses};
pub use computed::ComputedStyle;
pub use cursor::Cursor;
pub use error::{ParseError, StyleParsingError};
pub use number::Number;
pub use selector::Selector;
pub use selector_matcher::SelectorMatcher;
pub use selector_parser::selector_parser;
pub use style::{SelectorEntry, StyleProp, StylePropList};
pub use style_handle::{ElementStyles, StyleHandle};
pub use style_parser::parse_stylesheet;
pub use transition::{Transition, TransitionProperty};
pub use update::UpdateComputedStyle;
pub use values::PointerEvents;

//! The styles of an element.

use std::sync::Arc;
use vstd::prelude::*;
use crate::chars::clip;
use crate::style::{entry_views, SelectorEntryView, StylePropList, StylePropListView};

verus! {

/// A style that elements share.
pub type StyleHandle = Arc<StylePropList>;

/// The values of a list of styles.
pub open spec fn style_views(styles: Seq<StyleHandle>) -> Seq<StylePropListView> {
    styles.map_values(|s: StyleHandle| s@)
}

/// The largest depth among the selectors of `entries`, 0 where there is
/// none.
pub open spec fn entries_depth(entries: Seq<SelectorEntryView>) -> nat
    decreases entries.len(),
{
    if entries.len() == 0 {
        0
    } else {
        let rest = entries_depth(entries.drop_last());
        let last = entries.last().selector.depth();
        if last > rest {
            last
        } else {
            rest
        }
    }
}

/// The largest depth among the selectors of `styles`, 0 where there is
/// none.
pub open spec fn styles_depth(styles: Seq<StylePropListView>) -> nat
    decreases styles.len(),
{
    if styles.len() == 0 {
        0
    } else {
        let rest = styles_depth(styles.drop_last());
        let last = entries_depth(styles.last().selectors);
        if last > rest {
            last
        } else {
            rest
        }
    }
}

/// Whether `styles` hold a selector at all.
pub open spec fn styles_have_selectors(styles: Seq<StylePropListView>) -> bool {
    exists|i: int| 0 <= i < styles.len() && (#[trigger] styles[i]).selectors.len() > 0
}

/// Whether a selector of `styles` uses the hover pseudo-class.
pub open spec fn styles_use_hover(styles: Seq<StylePropListView>) -> bool {
    exists|i: int, j: int|
        0 <= i < styles.len() && 0 <= j < styles[i].selectors.len() && (
        #[trigger] styles[i].selectors[j]).selector.uses_hover()
}

/// Whether a selector of `styles` uses the focus-within pseudo-class.
pub open spec fn styles_use_focus_within(styles: Seq<StylePropListView>) -> bool {
    exists|i: int, j: int|
        0 <= i < styles.len() && 0 <= j < styles[i].selectors.len() && (
        #[trigger] styles[i].selectors[j]).selector.uses_focus_within()
}

/// The styles of an element, in the order in which they apply, and what
/// their selectors ask for.
pub struct ElementStyles {
    /// The styles. A later one overrides an earlier one.
    pub styles: Vec<StyleHandle>,
    /// How many ancestors of the element, besides the element itself, the
    /// selectors may look at.
    pub selector_depth: usize,
    /// Whether a selector uses the hover pseudo-class.
    pub uses_hover: bool,
    /// Whether a selector uses the focus-within pseudo-class.
    pub uses_focus_within: bool,
}

impl ElementStyles {
    /// What is noted of the selectors is true of them.
    pub open spec fn is_consistent(&self) -> bool {
        &&& self.selector_depth == clip(styles_depth(style_views(self.styles@)))
        &&& self.uses_hover == styles_use_hover(style_views(self.styles@))
        &&& self.uses_focus_within == styles_use_focus_within(style_views(self.styles@))
    }

    /// Whether the styles hold a selector at all.
    pub fn has_selectors(&self) -> (r: bool)
        ensures
            r == styles_have_selectors(style_views(self.styles@)),
    {
        let ghost views = style_views(self.styles@);
        let mut i: usize = 0;
        while i < self.styles.len()
            invariant
                i <= self.styles.len(),
                views == style_views(self.styles@),
                forall|j: int| 0 <= j < i ==> (#[trigger] views[j]).selectors.len() == 0,
            decreases self.styles.len() - i,
        {
            assert(views[i as int].selectors == entry_views(self.styles@[i as int].selectors@));
            if self.styles[i].selectors.len() > 0 {
                return true;
            }
            i += 1;
        }
        false
    }

    /// The styles `styles` as the styles of an element.
    pub fn new(styles: Vec<StyleHandle>) -> (r: ElementStyles)
        ensures
            r.styles == styles,
            r.is_consistent(),
    {
        let ghost views = style_views(styles@);
        let mut depth: usize = 0;
        let mut uses_hover = false;
        let mut uses_focus_within = false;
        let mut i: usize = 0;
        while i < styles.len()
            invariant
                i <= styles.len(),
                views == style_views(styles@),
                depth == clip(styles_depth(views.take(i as int))),
                uses_hover == styles_use_hover(views.take(i as int)),
                uses_focus_within == styles_use_focus_within(views.take(i as int)),
            decreases styles.len() - i,
        {
            let list = &styles[i];
            let ghost entries = entry_views(list.selectors@);
            let mut list_depth: usize = 0;
            let mut list_hover = false;
            let mut list_focus_within = false;
            let mut j: usize = 0;
            while j < list.selectors.len()
                invariant
                    j <= list.selectors.len(),
                    entries == entry_views(list.selectors@),
                    list_depth == clip(entries_depth(entries.take(j as int))),
                    list_hover == (exists|k: int|
                        0 <= k < j && (#[trigger] entries[k]).selector.uses_hover()),
                    list_focus_within == (exists|k: int|
                        0 <= k < j && (#[trigger] entries[k]).selector.uses_focus_within()),
                decreases list.selectors.len() - j,
            {
                let selector = &list.selectors[j].0;
                let d = selector.depth();
                proof {
                    assert(entries.take(j + 1).drop_last() == entries.take(j as int));
                    assert(entries.take(j + 1).last() == entries[j as int]);
                    assert(entries[j as int].selector == selector@);
                }
                if d > list_depth {
                    list_depth = d;
                }
                if selector.uses_hover() {
                    list_hover = true;
                }
                if selector.uses_focus_within() {
                    list_focus_within = true;
                }
                j += 1;
            }
            proof {
                assert(entries.take(list.selectors.len() as int) == entries);
                let before = views.take(i as int);
                let after = views.take(i + 1);
                assert(after.drop_last() == before);
                assert(after.last() == views[i as int]);
                assert(views[i as int].selectors == entries);
                assert(styles_use_hover(after) == (styles_use_hover(before) || list_hover)) by {
                    if styles_use_hover(before) {
                        let (a, b) = choose|a: int, b: int|
                            0 <= a < before.len() && 0 <= b < before[a].selectors.len() && (
                            #[trigger] before[a].selectors[b]).selector.uses_hover();
                        assert(after[a].selectors[b].selector.uses_hover());
                    }
                    if list_hover {
                        let k = choose|k: int|
                            0 <= k < entries.len() && (#[trigger] entries[k]).selector.uses_hover();
                        assert(after[i as int].selectors[k].selector.uses_hover());
                    }
                    if styles_use_hover(after) {
                        let (a, b) = choose|a: int, b: int|
                            0 <= a < after.len() && 0 <= b < after[a].selectors.len() && (
                            #[trigger] after[a].selectors[b]).selector.uses_hover();
                        if a < i {
                            assert(before[a].selectors[b].selector.uses_hover());
                        } else {
                            assert(entries[b].selector.uses_hover());
                        }
                    }
                }
                assert(styles_use_focus_within(after) == (styles_use_focus_within(before)
                    || list_focus_within)) by {
                    if styles_use_focus_within(before) {
                        let (a, b) = choose|a: int, b: int|
                            0 <= a < before.len() && 0 <= b < before[a].selectors.len() && (
                            #[trigger] before[a].selectors[b]).selector.uses_focus_within();
                        assert(after[a].selectors[b].selector.uses_focus_within());
                    }
                    if list_focus_within {
                        let k = choose|k: int|
                            0 <= k < entries.len() && (
                            #[trigger] entries[k]).selector.uses_focus_within();
                        assert(after[i as int].selectors[k].selector.uses_focus_within());
                    }
                    if styles_use_focus_within(after) {
                        let (a, b) = choose|a: int, b: int|
                            0 <= a < after.len() && 0 <= b < after[a].selectors.len() && (
                            #[trigger] after[a].selectors[b]).selector.uses_focus_within();
                        if a < i {
                            assert(before[a].selectors[b].selector.uses_focus_within());
                        } else {
                            assert(entries[b].selector.uses_focus_within());
                        }
                    }
                }
            }
            if list_depth > depth {
                depth = list_depth;
            }
            if list_hover {
                uses_hover = true;
            }
            if list_focus_within {
                uses_focus_within = true;
            }
            i += 1;
        }
        proof {
            assert(views.take(styles.len() as int) == views);
        }
        ElementStyles { styles, selector_depth: depth, uses_hover, uses_focus_within }
    }
}

} // verus!

//! Matching selectors against a tree of elements.
//!
//! The matcher works on a picture of the tree as it stands in one frame:
//! for every element its parent, its children, its class names and whether
//! these changed since the frame before; the elements under the pointer and
//! the element with keyboard focus, in this frame and in the one before.
//! Elements are numbered in the order in which they are added, and an
//! element is added after its parent.

use vstd::prelude::*;
use crate::classes::ElementClasses;
use crate::style_handle::{style_views, styles_have_selectors, ElementStyles};
use crate::selector::{Entity, Selector, SelectorView};

verus! {

/// What the matcher knows of one element.
pub struct Element {
    /// The parent, if the element has one.
    pub parent: Option<Entity>,
    /// The children, in their order.
    pub children: Vec<Entity>,
    /// The class names, if the element has any.
    pub classes: Option<ElementClasses>,
    /// Whether the class names changed since the frame before.
    pub classes_changed: bool,
}

/// The mathematical value of an [`Element`].
pub ghost struct ElementView {
    pub parent: Option<Entity>,
    pub children: Seq<Entity>,
    pub classes: Option<Set<Seq<char>>>,
    pub classes_changed: bool,
}

impl View for Element {
    type V = ElementView;

    open spec fn view(&self) -> ElementView {
        ElementView {
            parent: self.parent,
            children: self.children@,
            classes: match self.classes {
                Some(c) => Some(c@),
                None => None,
            },
            classes_changed: self.classes_changed,
        }
    }
}

/// The mathematical value of a [`SelectorMatcher`]: a tree of elements and
/// the state of pointer and focus.
pub ghost struct TreeView {
    /// The elements, each at the place of its number.
    pub elements: Seq<ElementView>,
    /// The elements under the pointer.
    pub hover: Seq<Entity>,
    /// The elements that were under the pointer in the frame before.
    pub hover_prev: Seq<Entity>,
    /// The element with keyboard focus.
    pub focus: Option<Entity>,
    /// The element that had keyboard focus in the frame before.
    pub focus_prev: Option<Entity>,
}

impl TreeView {
    /// Whether an element has the number `e`.
    pub open spec fn has_element(self, e: Entity) -> bool {
        e < self.elements.len()
    }

    /// The parent of `e`.
    pub open spec fn parent_of(self, e: Entity) -> Option<Entity> {
        if e < self.elements.len() {
            self.elements[e as int].parent
        } else {
            None
        }
    }

    /// The children of `e`.
    pub open spec fn children_of(self, e: Entity) -> Seq<Entity> {
        if e < self.elements.len() {
            self.elements[e as int].children
        } else {
            Seq::empty()
        }
    }

    /// Parents come before their children, and the children of an element
    /// are elements that come after it.
    pub open spec fn is_ordered(self) -> bool {
        forall|e: int|
            0 <= e < self.elements.len() ==> {
                &&& (#[trigger] self.elements[e]).parent matches Some(p) ==> p < e
                &&& forall|i: int|
                    0 <= i < self.elements[e].children.len() ==> e
                        < #[trigger] self.elements[e].children[i] < self.elements.len()
            }
    }

    /// Whether `e` is `ancestor` or has it among its ancestors.
    pub open spec fn is_descendant(self, e: Entity, ancestor: Entity) -> bool
        decreases e,
    {
        if e == ancestor {
            true
        } else {
            match self.parent_of(e) {
                Some(p) => p < e && self.is_descendant(p, ancestor),
                None => false,
            }
        }
    }

    /// Whether one of `list` is `e` or has it among its ancestors.
    pub open spec fn any_within(self, list: Seq<Entity>, e: Entity) -> bool {
        exists|i: int| 0 <= i < list.len() && self.is_descendant(#[trigger] list[i], e)
    }

    /// Whether the pointer is over `e` or over one of its descendants.
    pub open spec fn is_hovering(self, e: Entity) -> bool {
        self.any_within(self.hover, e)
    }

    /// Whether the pointer was over `e` or over one of its descendants in
    /// the frame before.
    pub open spec fn was_hovering(self, e: Entity) -> bool {
        self.any_within(self.hover_prev, e)
    }

    /// Whether `e` has keyboard focus.
    pub open spec fn is_focused(self, e: Entity) -> bool {
        self.focus == Some(e)
    }

    /// Whether `e` had keyboard focus in the frame before.
    pub open spec fn was_focused(self, e: Entity) -> bool {
        self.focus_prev == Some(e)
    }

    /// Whether `e` has keyboard focus and focus is shown. Focus is always
    /// shown.
    pub open spec fn is_focus_visible(self, e: Entity) -> bool {
        self.focus == Some(e)
    }

    /// Whether `e` had keyboard focus, shown, in the frame before.
    pub open spec fn was_focus_visible(self, e: Entity) -> bool {
        self.focus_prev == Some(e)
    }

    /// Whether `e` or one of its descendants has keyboard focus.
    pub open spec fn is_focus_within(self, e: Entity) -> bool {
        match self.focus {
            Some(f) => self.is_descendant(f, e),
            None => false,
        }
    }

    /// Whether `e` or one of its descendants had keyboard focus in the
    /// frame before.
    pub open spec fn was_focus_within(self, e: Entity) -> bool {
        match self.focus_prev {
            Some(f) => self.is_descendant(f, e),
            None => false,
        }
    }

    /// Whether `e` is the first child of its parent.
    pub open spec fn is_first_child(self, e: Entity) -> bool {
        match self.parent_of(e) {
            Some(p) => self.children_of(p).len() > 0 && self.children_of(p).first() == e,
            None => false,
        }
    }

    /// Whether `e` is the last child of its parent.
    pub open spec fn is_last_child(self, e: Entity) -> bool {
        match self.parent_of(e) {
            Some(p) => self.children_of(p).len() > 0 && self.children_of(p).last() == e,
            None => false,
        }
    }

    /// Whether `e` carries the class `name`.
    pub open spec fn has_class(self, e: Entity, name: Seq<char>) -> bool {
        e < self.elements.len() && match self.elements[e as int].classes {
            Some(classes) => classes.contains(name),
            None => false,
        }
    }

    /// Whether `selector` matches `e`. The conditions of a chain must all
    /// hold, from the outermost inward; `Parent` goes on with the parent of
    /// the element and fails where there is none; of the alternatives of an
    /// `Either` one must match; `Current` asks for nothing.
    pub open spec fn matches(self, selector: SelectorView, e: Entity) -> bool
        decreases selector,
    {
        match selector {
            SelectorView::Accept => true,
            SelectorView::Class(name, next) => self.has_class(e, name) && self.matches(*next, e),
            SelectorView::Hover(next) => self.is_hovering(e) && self.matches(*next, e),
            SelectorView::Focus(next) => self.is_focused(e) && self.matches(*next, e),
            SelectorView::FocusWithin(next) => self.is_focus_within(e) && self.matches(*next, e),
            SelectorView::FocusVisible(next) => self.is_focus_visible(e) && self.matches(
                *next,
                e,
            ),
            SelectorView::FirstChild(next) => self.is_first_child(e) && self.matches(*next, e),
            SelectorView::LastChild(next) => self.is_last_child(e) && self.matches(*next, e),
            SelectorView::Current(next) => self.matches(*next, e),
            SelectorView::Parent(next) => match self.parent_of(e) {
                Some(p) => self.matches(*next, p),
                None => false,
            },
            SelectorView::Either(opts) => exists|i: int|
                0 <= i < opts.len() && self.matches(#[trigger] opts[i], e),
        }
    }

    /// Whether something changed at `e` that a style may depend on: the
    /// class names, the focus, or, where the styles ask for them, hovering
    /// and the focus within.
    pub open spec fn changed_at(self, e: Entity, uses_hover: bool, uses_focus_within: bool) -> bool {
        ||| (uses_hover && self.is_hovering(e) != self.was_hovering(e))
        ||| self.is_focused(e) != self.was_focused(e)
        ||| self.is_focus_visible(e) != self.was_focus_visible(e)
        ||| (uses_focus_within && self.is_focus_within(e) != self.was_focus_within(e))
        ||| (e < self.elements.len() && self.elements[e as int].classes_changed)
    }

    /// Whether something changed at `e` or at one of the `depth` ancestors
    /// next to it.
    pub open spec fn changed_within(
        self,
        e: Entity,
        depth: nat,
        uses_hover: bool,
        uses_focus_within: bool,
    ) -> bool
        decreases depth,
    {
        self.changed_at(e, uses_hover, uses_focus_within) || (depth > 0 && match self.parent_of(
            e,
        ) {
            Some(p) => self.changed_within(p, (depth - 1) as nat, uses_hover, uses_focus_within),
            None => false,
        })
    }
}

/// Answers whether a selector matches an element, from a picture of the
/// tree of elements and of the state of pointer and focus.
pub struct SelectorMatcher {
    elements: Vec<Element>,
    hover: Vec<Entity>,
    hover_prev: Vec<Entity>,
    focus: Option<Entity>,
    focus_prev: Option<Entity>,
}

/// The values of a list of elements.
pub open spec fn element_views(elements: Seq<Element>) -> Seq<ElementView> {
    elements.map_values(|e: Element| e@)
}

impl View for SelectorMatcher {
    type V = TreeView;

    closed spec fn view(&self) -> TreeView {
        TreeView {
            elements: element_views(self.elements@),
            hover: self.hover@,
            hover_prev: self.hover_prev@,
            focus: self.focus,
            focus_prev: self.focus_prev,
        }
    }
}

impl SelectorMatcher {
    /// A matcher for a tree without elements, with nothing under the
    /// pointer and no focus.
    pub fn new() -> (r: SelectorMatcher)
        ensures
            r@ == (TreeView {
                elements: Seq::empty(),
                hover: Seq::empty(),
                hover_prev: Seq::empty(),
                focus: None,
                focus_prev: None,
            }),
    {
        let r = SelectorMatcher {
            elements: Vec::new(),
            hover: Vec::new(),
            hover_prev: Vec::new(),
            focus: None,
            focus_prev: None,
        };
        assert(element_views(r.elements@) =~= Seq::<ElementView>::empty());
        r
    }

    /// The number of elements.
    pub fn len(&self) -> (r: usize)
        ensures
            r == self@.elements.len(),
    {
        self.elements.len()
    }

    /// Whether an element has the number `e`.
    pub fn has_element(&self, e: Entity) -> (r: bool)
        ensures
            r == self@.has_element(e),
    {
        e < self.elements.len()
    }

    /// The parent of `e`.
    pub fn parent_of(&self, e: Entity) -> (r: Option<Entity>)
        ensures
            r == self@.parent_of(e),
    {
        if e < self.elements.len() {
            assert(self@.elements[e as int] == self.elements@[e as int]@);
            self.elements[e].parent
        } else {
            None
        }
    }

    /// The children of `e`.
    pub fn children_of(&self, e: Entity) -> (r: &[Entity])
        ensures
            r@ == self@.children_of(e),
    {
        if e < self.elements.len() {
            assert(self@.elements[e as int] == self.elements@[e as int]@);
            self.elements[e].children.as_slice()
        } else {
            let none: &[Entity] = &[];
            none
        }
    }

    /// Adds an element with the given parent and class names, and returns
    /// its number, the number of elements that there were. Nothing is
    /// added where `parent` names no element.
    pub fn add_element(
        &mut self,
        parent: Option<Entity>,
        classes: Option<ElementClasses>,
        classes_changed: bool,
    ) -> (r: Option<Entity>)
        ensures
            match r {
                Some(e) => {
                    &&& e == old(self)@.elements.len()
                    &&& final(self)@.elements.len() == e + 1
                    &&& final(self)@.elements[e as int] == (ElementView {
                        parent,
                        children: Seq::empty(),
                        classes: match classes {
                            Some(c) => Some(c@),
                            None => None,
                        },
                        classes_changed,
                    })
                    &&& forall|i: int|
                        0 <= i < e ==> #[trigger] final(self)@.elements[i] == if parent == Some(
                            i as usize,
                        ) {
                            ElementView {
                                children: old(self)@.elements[i].children.push(e),
                                ..old(self)@.elements[i]
                            }
                        } else {
                            old(self)@.elements[i]
                        }
                    &&& final(self)@.hover == old(self)@.hover
                    &&& final(self)@.hover_prev == old(self)@.hover_prev
                    &&& final(self)@.focus == old(self)@.focus
                    &&& final(self)@.focus_prev == old(self)@.focus_prev
                    &&& old(self)@.is_ordered() ==> final(self)@.is_ordered()
                },
                None => {
                    &&& parent matches Some(p) && p >= old(self)@.elements.len()
                    &&& final(self)@ == old(self)@
                },
            },
    {
        let e = self.elements.len();
        let ghost before = self@;
        match parent {
            Some(p) => {
                if p >= e {
                    return None;
                }
                self.elements[p].children.push(e);
            },
            None => {},
        }
        self.elements.push(Element { parent, children: Vec::new(), classes, classes_changed });
        proof {
            let after = self@;
            assert forall|i: int| 0 <= i < e implies #[trigger] after.elements[i] == if parent
                == Some(i as usize) {
                ElementView {
                    children: before.elements[i].children.push(e),
                    ..before.elements[i]
                }
            } else {
                before.elements[i]
            } by {}
            if before.is_ordered() {
                assert forall|x: int| 0 <= x < after.elements.len() implies {
                    &&& (#[trigger] after.elements[x]).parent matches Some(q) ==> q < x
                    &&& forall|i: int|
                        0 <= i < after.elements[x].children.len() ==> x
                            < #[trigger] after.elements[x].children[i] < after.elements.len()
                } by {
                    if x < e {
                        assert(before.elements[x].parent == after.elements[x].parent);
                    }
                }
            }
        }
        Some(e)
    }

    /// Sets the elements under the pointer.
    pub fn set_hover(&mut self, hover: Vec<Entity>)
        ensures
            final(self)@ == (TreeView { hover: hover@, ..old(self)@ }),
    {
        self.hover = hover;
    }

    /// Sets the elements that were under the pointer in the frame before.
    pub fn set_hover_prev(&mut self, hover: Vec<Entity>)
        ensures
            final(self)@ == (TreeView { hover_prev: hover@, ..old(self)@ }),
    {
        self.hover_prev = hover;
    }

    /// Sets the element with keyboard focus.
    pub fn set_focus(&mut self, focus: Option<Entity>)
        ensures
            final(self)@ == (TreeView { focus, ..old(self)@ }),
    {
        self.focus = focus;
    }

    /// Sets the element that had keyboard focus in the frame before.
    pub fn set_focus_prev(&mut self, focus: Option<Entity>)
        ensures
            final(self)@ == (TreeView { focus_prev: focus, ..old(self)@ }),
    {
        self.focus_prev = focus;
    }
}

impl SelectorMatcher {
    /// Whether `e` is `ancestor` or has it among its ancestors.
    pub fn is_descendant(&self, e: &Entity, ancestor: &Entity) -> (r: bool)
        ensures
            r == self@.is_descendant(*e, *ancestor),
    {
        let mut ha = *e;
        loop
            invariant
                self@.is_descendant(*e, *ancestor) == self@.is_descendant(ha, *ancestor),
            decreases ha,
        {
            if ha == *ancestor {
                return true;
            }
            match self.parent_of(ha) {
                Some(p) => {
                    if p < ha {
                        ha = p;
                    } else {
                        return false;
                    }
                },
                None => {
                    return false;
                },
            }
        }
    }

    /// Whether one of `list` is `e` or has it among its ancestors.
    fn any_within(&self, list: &Vec<Entity>, e: &Entity) -> (r: bool)
        ensures
            r == self@.any_within(list@, *e),
    {
        let mut i: usize = 0;
        while i < list.len()
            invariant
                i <= list.len(),
                forall|j: int| 0 <= j < i ==> !self@.is_descendant(#[trigger] list@[j], *e),
            decreases list.len() - i,
        {
            if self.is_descendant(&list[i], e) {
                return true;
            }
            i += 1;
        }
        false
    }

    /// Whether the pointer is over `e` or over one of its descendants.
    pub fn is_hovering(&self, e: &Entity) -> (r: bool)
        ensures
            r == self@.is_hovering(*e),
    {
        self.any_within(&self.hover, e)
    }

    /// Whether the pointer was over `e` or over one of its descendants in
    /// the frame before.
    pub fn was_hovering(&self, e: &Entity) -> (r: bool)
        ensures
            r == self@.was_hovering(*e),
    {
        self.any_within(&self.hover_prev, e)
    }

    /// Whether `e` has keyboard focus.
    pub fn is_focused(&self, e: &Entity) -> (r: bool)
        ensures
            r == self@.is_focused(*e),
    {
        match self.focus {
            Some(f) => f == *e,
            None => false,
        }
    }

    /// Whether `e` or one of its descendants has keyboard focus.
    pub fn is_focus_within(&self, e: &Entity) -> (r: bool)
        ensures
            r == self@.is_focus_within(*e),
    {
        match self.focus {
            Some(focus) => self.is_descendant(&focus, e),
            None => false,
        }
    }

    /// Whether `e` has keyboard focus and focus is shown.
    pub fn is_focus_visible(&self, e: &Entity) -> (r: bool)
        ensures
            r == self@.is_focus_visible(*e),
    {
        match self.focus {
            Some(f) => f == *e,
            None => false,
        }
    }

    /// Whether `e` had keyboard focus in the frame before.
    pub fn was_focused(&self, e: &Entity) -> (r: bool)
        ensures
            r == self@.was_focused(*e),
    {
        match self.focus_prev {
            Some(f) => f == *e,
            None => false,
        }
    }

    /// Whether `e` or one of its descendants had keyboard focus in the
    /// frame before.
    pub fn was_focus_within(&self, e: &Entity) -> (r: bool)
        ensures
            r == self@.was_focus_within(*e),
    {
        match self.focus_prev {
            Some(focus) => self.is_descendant(&focus, e),
            None => false,
        }
    }

    /// Whether `e` had keyboard focus, shown, in the frame before.
    pub fn was_focus_visible(&self, e: &Entity) -> (r: bool)
        ensures
            r == self@.was_focus_visible(*e),
    {
        match self.focus_prev {
            Some(f) => f == *e,
            None => false,
        }
    }

    /// Whether `entity` is the first child of its parent.
    pub fn is_first_child(&self, entity: &Entity) -> (r: bool)
        ensures
            r == self@.is_first_child(*entity),
    {
        match self.parent_of(*entity) {
            Some(parent) => {
                let children = self.children_of(parent);
                children.len() > 0 && children[0] == *entity
            },
            None => false,
        }
    }

    /// Whether `entity` is the last child of its parent.
    pub fn is_last_child(&self, entity: &Entity) -> (r: bool)
        ensures
            r == self@.is_last_child(*entity),
    {
        match self.parent_of(*entity) {
            Some(parent) => {
                let children = self.children_of(parent);
                children.len() > 0 && children[children.len() - 1] == *entity
            },
            None => false,
        }
    }

    /// Whether `entity` carries the class `cls`.
    pub fn has_class(&self, entity: &Entity, cls: &str) -> (r: bool)
        ensures
            r == self@.has_class(*entity, cls@),
    {
        if *entity < self.elements.len() {
            assert(self@.elements[*entity as int] == self.elements@[*entity as int]@);
            match &self.elements[*entity].classes {
                Some(classes) => classes.contains(cls),
                None => false,
            }
        } else {
            false
        }
    }

    /// Whether the class names of `entity` changed since the frame before.
    pub fn classes_changed(&self, entity: &Entity) -> (r: bool)
        ensures
            r == (*entity < self@.elements.len() && self@.elements[*entity as int].classes_changed),
    {
        if *entity < self.elements.len() {
            assert(self@.elements[*entity as int] == self.elements@[*entity as int]@);
            self.elements[*entity].classes_changed
        } else {
            false
        }
    }

    /// Whether `selector` matches `entity`.
    pub fn selector_match(&self, selector: &Selector, entity: &Entity) -> (r: bool)
        ensures
            r == self@.matches(selector@, *entity),
        decreases selector,
    {
        match selector {
            Selector::Accept => true,
            Selector::Class(cls, next) => self.has_class(entity, cls.as_str())
                && self.selector_match(next, entity),
            Selector::Hover(next) => self.is_hovering(entity) && self.selector_match(next, entity),
            Selector::Focus(next) => self.is_focused(entity) && self.selector_match(next, entity),
            Selector::FocusWithin(next) => self.is_focus_within(entity) && self.selector_match(
                next,
                entity,
            ),
            Selector::FocusVisible(next) => self.is_focus_visible(entity) && self.selector_match(
                next,
                entity,
            ),
            Selector::FirstChild(next) => self.is_first_child(entity) && self.selector_match(
                next,
                entity,
            ),
            Selector::LastChild(next) => self.is_last_child(entity) && self.selector_match(
                next,
                entity,
            ),
            Selector::Current(next) => self.selector_match(next, entity),
            Selector::Parent(next) => match self.parent_of(*entity) {
                Some(parent) => self.selector_match(next, &parent),
                None => false,
            },
            Selector::Either(opts) => {
                let ghost models = selector@->Either_0;
                proof {
                    Selector::lemma_models(opts@);
                    assert(models == Selector::models(opts@));
                }
                let mut i: usize = 0;
                while i < opts.len()
                    invariant
                        i <= opts.len(),
                        *selector == Selector::Either(*opts),
                        models == selector@->Either_0,
                        models.len() == opts.len(),
                        forall|j: int|
                            0 <= j < opts.len() ==> (#[trigger] models[j]) == opts@[j].model(),
                        forall|j: int| 0 <= j < i ==> !self@.matches(#[trigger] models[j], *entity),
                    decreases opts.len() - i,
                {
                    proof {
                        assert(selector->Either_0 == *opts);
                    }
                    if self.selector_match(&opts[i], entity) {
                        assert(models[i as int] == opts@[i as int]@);
                        return true;
                    }
                    assert(models[i as int] == opts@[i as int]@);
                    i += 1;
                }
                false
            },
        }
    }

    /// Whether something changed at `e` that a style may depend on.
    pub fn changed_at(&self, e: &Entity, uses_hover: bool, uses_focus_within: bool) -> (r: bool)
        ensures
            r == self@.changed_at(*e, uses_hover, uses_focus_within),
    {
        if uses_hover && self.is_hovering(e) != self.was_hovering(e) {
            return true;
        }
        if self.is_focused(e) != self.was_focused(e) {
            return true;
        }
        if self.is_focus_visible(e) != self.was_focus_visible(e) {
            return true;
        }
        if uses_focus_within && self.is_focus_within(e) != self.was_focus_within(e) {
            return true;
        }
        self.classes_changed(e)
    }

    /// Whether the styles of `entity` have to be worked out again: because
    /// they were set anew, as `styles_changed` says, or because they hold
    /// selectors and something changed that these may depend on, at the
    /// element itself or at one of the ancestors that they may look at.
    pub fn is_changed(
        &self,
        entity: Entity,
        element_styles: &ElementStyles,
        styles_changed: bool,
    ) -> (r: bool)
        ensures
            r == (styles_changed || (styles_have_selectors(style_views(element_styles.styles@))
                && self@.changed_within(
                entity,
                element_styles.selector_depth as nat,
                element_styles.uses_hover,
                element_styles.uses_focus_within,
            ))),
    {
        if styles_changed {
            return true;
        }
        if !element_styles.has_selectors() {
            return false;
        }
        let mut e = entity;
        let mut left = element_styles.selector_depth;
        loop
            invariant
                !styles_changed,
                styles_have_selectors(style_views(element_styles.styles@)),
                self@.changed_within(
                    entity,
                    element_styles.selector_depth as nat,
                    element_styles.uses_hover,
                    element_styles.uses_focus_within,
                ) == self@.changed_within(
                    e,
                    left as nat,
                    element_styles.uses_hover,
                    element_styles.uses_focus_within,
                ),
            decreases left,
        {
            if self.changed_at(&e, element_styles.uses_hover, element_styles.uses_focus_within) {
                return true;
            }
            if left == 0 {
                return false;
            }
            match self.parent_of(e) {
                Some(parent) => {
                    e = parent;
                },
                None => {
                    return false;
                },
            }
            left -= 1;
        }
    }
}

impl crate::selector::SelectorMatcher for SelectorMatcher {
    open spec fn matches(&self, selector: SelectorView, entity: Entity) -> bool {
        self@.matches(selector, entity)
    }

    fn selector_match(&self, selector: &Selector, entity: &Entity) -> (r: bool) {
        SelectorMatcher::selector_match(self, selector, entity)
    }
}

/// Where nothing changed since the frame before, and the styles of an
/// element were not set anew, the styles need not be worked out again:
/// `is_changed` answers no.
pub proof fn lemma_unchanged(
    tree: TreeView,
    entity: Entity,
    depth: nat,
    uses_hover: bool,
    uses_focus_within: bool,
)
    requires
        tree.hover == tree.hover_prev,
        tree.focus == tree.focus_prev,
        forall|e: int| 0 <= e < tree.elements.len() ==> !(#[trigger] tree.elements[e]).classes_changed,
    ensures
        !tree.changed_within(entity, depth, uses_hover, uses_focus_within),
    decreases depth,
{
    if depth > 0 {
        match tree.parent_of(entity) {
            Some(p) => {
                lemma_unchanged(tree, p, (depth - 1) as nat, uses_hover, uses_focus_within);
            },
            None => {},
        }
    }
}

/// What a selector can see of one element.
pub ghost struct Observed {
    pub classes: Option<Set<Seq<char>>>,
    pub hovering: bool,
    pub focused: bool,
    pub focus_within: bool,
    pub focus_visible: bool,
    pub first_child: bool,
    pub last_child: bool,
}

impl TreeView {
    /// What a selector can see of `e`.
    pub open spec fn observed(self, e: Entity) -> Observed {
        Observed {
            classes: if e < self.elements.len() {
                self.elements[e as int].classes
            } else {
                None
            },
            hovering: self.is_hovering(e),
            focused: self.is_focused(e),
            focus_within: self.is_focus_within(e),
            focus_visible: self.is_focus_visible(e),
            first_child: self.is_first_child(e),
            last_child: self.is_last_child(e),
        }
    }

    /// Whether this tree and `other` look alike from `e` upward, as far
    /// as `depth` ancestors: the elements on the way are the same, and a
    /// selector sees the same of each.
    pub open spec fn alike_from(self, other: TreeView, e: Entity, depth: nat) -> bool
        decreases depth,
    {
        &&& self.observed(e) == other.observed(e)
        &&& depth > 0 ==> {
            &&& self.parent_of(e) == other.parent_of(e)
            &&& self.parent_of(e) matches Some(p) ==> self.alike_from(
                other,
                p,
                (depth - 1) as nat,
            )
        }
    }
}

/// Trees that look alike up to some ancestor look alike up to a nearer
/// one.
pub proof fn lemma_alike_for_fewer(a: TreeView, b: TreeView, e: Entity, depth: nat, fewer: nat)
    requires
        a.alike_from(b, e, depth),
        fewer <= depth,
    ensures
        a.alike_from(b, e, fewer),
    decreases depth,
{
    if fewer > 0 {
        match a.parent_of(e) {
            Some(p) => {
                lemma_alike_for_fewer(a, b, p, (depth - 1) as nat, (fewer - 1) as nat);
            },
            None => {},
        }
    }
}

/// The depth of alternatives is at least the depth of each.
pub proof fn lemma_max_depth(opts: Seq<SelectorView>, i: int)
    requires
        0 <= i < opts.len(),
    ensures
        opts[i].depth() <= SelectorView::max_depth(opts),
    decreases opts.len(),
{
    if i < opts.len() - 1 {
        lemma_max_depth(opts.drop_last(), i);
    }
}

/// A selector looks no further up the tree than its depth says: in two
/// trees that look alike from an element upward, as far as the ancestor
/// that is as many steps away as the depth of the selector, it matches the
/// element in both or in neither.
pub proof fn lemma_match_is_local(a: TreeView, b: TreeView, selector: SelectorView, e: Entity)
    requires
        a.alike_from(b, e, selector.depth()),
    ensures
        a.matches(selector, e) == b.matches(selector, e),
    decreases selector,
{
    assert(a.observed(e) == b.observed(e));
    match selector {
        SelectorView::Accept => {},
        SelectorView::Class(name, next) => {
            lemma_match_is_local(a, b, *next, e);
            assert(a.observed(e).classes == b.observed(e).classes);
            assert(a.has_class(e, name) == b.has_class(e, name));
        },
        SelectorView::Hover(next) => lemma_match_is_local(a, b, *next, e),
        SelectorView::Focus(next) => lemma_match_is_local(a, b, *next, e),
        SelectorView::FocusWithin(next) => lemma_match_is_local(a, b, *next, e),
        SelectorView::FocusVisible(next) => lemma_match_is_local(a, b, *next, e),
        SelectorView::FirstChild(next) => lemma_match_is_local(a, b, *next, e),
        SelectorView::LastChild(next) => lemma_match_is_local(a, b, *next, e),
        SelectorView::Current(next) => lemma_match_is_local(a, b, *next, e),
        SelectorView::Parent(next) => {
            assert(selector.depth() == next.depth() + 1);
            assert(a.parent_of(e) == b.parent_of(e));
            match a.parent_of(e) {
                Some(p) => {
                    assert(a.alike_from(b, p, (selector.depth() - 1) as nat));
                    lemma_match_is_local(a, b, *next, p);
                },
                None => {},
            }
        },
        SelectorView::Either(opts) => {
            assert forall|i: int| 0 <= i < opts.len() implies a.matches(#[trigger] opts[i], e)
                == b.matches(opts[i], e) by {
                lemma_max_depth(opts, i);
                lemma_alike_for_fewer(a, b, e, selector.depth(), opts[i].depth());
                lemma_match_is_local(a, b, opts[i], e);
            }
        },
    }
}

} // verus!

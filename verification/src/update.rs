//! The cascade: working out the computed styles of the elements of a tree.
//!
//! The styles of an element apply in their order. Of each, the properties
//! that always apply come first, then those of every selector block whose
//! selector matches, block by block. What is applied later overrides what
//! was applied before. Font, size and colour of text pass from an element
//! to its children, unless a style sets them.

use vstd::prelude::*;
use crate::computed::{apply_props, ComputedStyle, ComputedStyleView, Style, StyleView};
use crate::number::{same_number, Number};
use crate::selector::{Entity, SelectorMatcher, SelectorView};
use crate::selector_matcher::{lemma_unchanged, TreeView};
use crate::style::{
    clone_color, clone_number, clone_text, color_view, number_view, text_view, SelectorEntryView,
    StylePropList, StylePropListView,
};
use crate::style_handle::{style_views, styles_have_selectors, ElementStyles, StyleHandle};
use crate::values::{Color, ColorView};

verus! {

impl ComputedStyleView {
    /// The computed style once the selector blocks `entries` have been
    /// applied to it: those whose selector matches, in their order.
    pub open spec fn apply_entries(
        self,
        entries: Seq<SelectorEntryView>,
        matches: spec_fn(SelectorView) -> bool,
    ) -> ComputedStyleView
        decreases entries.len(),
    {
        if entries.len() == 0 {
            self
        } else {
            let before = self.apply_entries(entries.drop_last(), matches);
            if matches(entries.last().selector) {
                before.apply_all(entries.last().props)
            } else {
                before
            }
        }
    }

    /// The computed style once the style `list` has been applied to it:
    /// the properties that always apply, then the selector blocks.
    pub open spec fn apply_list(
        self,
        list: StylePropListView,
        matches: spec_fn(SelectorView) -> bool,
    ) -> ComputedStyleView {
        self.apply_all(list.props).apply_entries(list.selectors, matches)
    }

    /// The computed style once the styles `lists` have been applied to it,
    /// in their order.
    pub open spec fn apply_lists(
        self,
        lists: Seq<StylePropListView>,
        matches: spec_fn(SelectorView) -> bool,
    ) -> ComputedStyleView
        decreases lists.len(),
    {
        if lists.len() == 0 {
            self
        } else {
            self.apply_lists(lists.drop_last(), matches).apply_list(lists.last(), matches)
        }
    }
}

impl StylePropList {
    /// Applies the style to `computed`, for the element `entity`.
    pub fn apply_to<M: SelectorMatcher>(
        &self,
        computed: &mut ComputedStyle,
        matcher: &M,
        entity: &Entity,
    )
        ensures
            final(computed)@ == old(computed)@.apply_list(
                self@,
                |s: SelectorView| matcher.matches(s, *entity),
            ),
    {
        let ghost matches = |s: SelectorView| matcher.matches(s, *entity);
        apply_props(&self.props, computed);
        let ghost start = computed@;
        let ghost entries = self@.selectors;
        let mut i: usize = 0;
        while i < self.selectors.len()
            invariant
                i <= self.selectors.len(),
                entries == self@.selectors,
                matches == (|s: SelectorView| matcher.matches(s, *entity)),
                computed@ == start.apply_entries(entries.take(i as int), matches),
            decreases self.selectors.len() - i,
        {
            let entry = &self.selectors[i];
            proof {
                assert(entries.take(i + 1).drop_last() == entries.take(i as int));
                assert(entries.take(i + 1).last() == entries[i as int]);
                assert(entries[i as int] == crate::style::entry_view(*entry));
            }
            if matcher.selector_match(&entry.0, entity) {
                apply_props(&entry.1, computed);
            }
            i += 1;
        }
        proof {
            assert(entries.take(self.selectors.len() as int) == entries);
        }
    }
}

/// Applies the styles `styles` to `computed`, in their order, for the
/// element `entity`.
pub fn apply_styles<M: SelectorMatcher>(
    styles: &Vec<StyleHandle>,
    computed: &mut ComputedStyle,
    matcher: &M,
    entity: &Entity,
)
    ensures
        final(computed)@ == old(computed)@.apply_lists(
            style_views(styles@),
            |s: SelectorView| matcher.matches(s, *entity),
        ),
{
    let ghost matches = |s: SelectorView| matcher.matches(s, *entity);
    let ghost start = computed@;
    let ghost lists = style_views(styles@);
    let mut i: usize = 0;
    while i < styles.len()
        invariant
            i <= styles.len(),
            lists == style_views(styles@),
            matches == (|s: SelectorView| matcher.matches(s, *entity)),
            computed@ == start.apply_lists(lists.take(i as int), matches),
        decreases styles.len() - i,
    {
        proof {
            assert(lists.take(i + 1).drop_last() == lists.take(i as int));
            assert(lists.take(i + 1).last() == styles@[i as int]@);
        }
        styles[i].apply_to(computed, matcher, entity);
        i += 1;
    }
    proof {
        assert(lists.take(styles.len() as int) == lists);
    }
}

/// The properties of text that pass from an element to its children.
#[derive(Debug, PartialEq, Eq)]
pub struct TextStyles {
    /// The font, by the path of its asset.
    pub font: Option<String>,
    /// The size of text.
    pub font_size: Option<Number>,
    /// The colour of text.
    pub color: Option<Color>,
}

/// The mathematical value of a [`TextStyles`].
pub ghost struct TextStylesView {
    pub font: Option<Seq<char>>,
    pub font_size: Option<Seq<char>>,
    pub color: Option<ColorView>,
}

impl View for TextStyles {
    type V = TextStylesView;

    open spec fn view(&self) -> TextStylesView {
        TextStylesView {
            font: text_view(self.font),
            font_size: number_view(self.font_size),
            color: color_view(self.color),
        }
    }
}

impl Clone for TextStyles {
    fn clone(&self) -> (r: TextStyles)
        ensures
            r@ == self@,
    {
        TextStyles {
            font: clone_text(&self.font),
            font_size: clone_number(&self.font_size),
            color: clone_color(&self.color),
        }
    }
}

impl Default for TextStyles {
    /// Nothing is set.
    fn default() -> (r: TextStyles)
        ensures
            r@ == (TextStylesView { font: None, font_size: None, color: None }),
    {
        TextStyles { font: None, font_size: None, color: None }
    }
}

impl TextStylesView {
    /// Whether the two are worth the same: the same font, a size that is
    /// worth the same and a colour that is worth the same, or none of it on
    /// either side.
    pub open spec fn same(self, other: TextStylesView) -> bool {
        &&& self.font == other.font
        &&& match (self.font_size, other.font_size) {
            (Some(a), Some(b)) => same_number(a, b),
            (None, None) => true,
            _ => false,
        }
        &&& match (self.color, other.color) {
            (Some(a), Some(b)) => a.same(b),
            (None, None) => true,
            _ => false,
        }
    }
}

impl TextStyles {
    /// Whether the two are worth the same, however their numbers are
    /// written.
    pub fn same(&self, other: &TextStyles) -> (r: bool)
        ensures
            r == self@.same(other@),
    {
        let fonts = match (&self.font, &other.font) {
            (Some(a), Some(b)) => *a == *b,
            (None, None) => true,
            _ => false,
        };
        let sizes = match (&self.font_size, &other.font_size) {
            (Some(a), Some(b)) => a.same(b),
            (None, None) => true,
            _ => false,
        };
        let colors = match (&self.color, &other.color) {
            (Some(a), Some(b)) => a.same(b),
            (None, None) => true,
            _ => false,
        };
        fonts && sizes && colors
    }
}

impl ComputedStyleView {
    /// The computed style that the cascade of an element starts from: its
    /// layout as it stands, and the properties of text that it inherits.
    pub open spec fn start(style: StyleView, inherited: TextStylesView) -> ComputedStyleView {
        ComputedStyleView {
            style,
            font_handle: inherited.font,
            font_size: inherited.font_size,
            color: inherited.color,
            ..ComputedStyleView::initial()
        }
    }

    /// The computed style with the font in effect: the font that the
    /// styles ask for, where they ask for one.
    pub open spec fn with_font(self) -> ComputedStyleView {
        if self.font is Some {
            ComputedStyleView { font_handle: self.font, ..self }
        } else {
            self
        }
    }

    /// What the styles `lists` come to for an element with the layout
    /// `style` that inherits `inherited`.
    pub open spec fn computed(
        style: StyleView,
        lists: Option<Seq<StylePropListView>>,
        inherited: TextStylesView,
        matches: spec_fn(SelectorView) -> bool,
    ) -> ComputedStyleView {
        match lists {
            Some(lists) => Self::start(style, inherited).apply_lists(lists, matches).with_font(),
            None => Self::start(style, inherited),
        }
    }

    /// The properties of text that the children of the element inherit.
    pub open spec fn text_styles(self) -> TextStylesView {
        TextStylesView { font: self.font_handle, font_size: self.font_size, color: self.color }
    }
}

/// Works out the computed style of the element `entity`: from its layout
/// as it stands and the properties of text that it inherits, by its styles
/// in their order.
pub fn compute<M: SelectorMatcher>(
    entity: &Entity,
    style: &Style,
    element_styles: Option<&ElementStyles>,
    inherited: &TextStyles,
    matcher: &M,
) -> (r: ComputedStyle)
    ensures
        r@ == ComputedStyleView::computed(
            style@,
            match element_styles {
                Some(es) => Some(style_views(es.styles@)),
                None => None,
            },
            inherited@,
            |s: SelectorView| matcher.matches(s, *entity),
        ),
{
    let mut computed = ComputedStyle::new();
    computed.style = style.clone();
    computed.font_handle = clone_text(&inherited.font);
    computed.font_size = clone_number(&inherited.font_size);
    computed.color = clone_color(&inherited.color);
    match element_styles {
        Some(es) => {
            apply_styles(&es.styles, &mut computed, matcher, entity);
            if computed.font.is_some() {
                computed.font_handle = clone_text(&computed.font);
            }
        },
        None => {},
    }
    computed
}

/// What the cascade needs to know of one element, besides its place in
/// the tree.
pub struct StyledElement {
    /// The layout as it stands.
    pub style: Style,
    /// The styles, if the element has any.
    pub styles: Option<ElementStyles>,
    /// Whether the styles were set anew since the frame before.
    pub styles_changed: bool,
    /// The properties of text that were noted for the children of the
    /// element, if any were: they are, where they differ from what the
    /// element inherits, and for every element that holds text.
    pub text_styles: Option<TextStyles>,
    /// Whether the element holds text.
    pub is_text: bool,
    /// Whether the text changed since the frame before.
    pub text_changed: bool,
}

/// The mathematical value of an [`ElementStyles`].
pub ghost struct ElementStylesView {
    pub lists: Seq<StylePropListView>,
    pub selector_depth: nat,
    pub uses_hover: bool,
    pub uses_focus_within: bool,
}

/// The mathematical value of a [`StyledElement`].
pub ghost struct StyledElementView {
    pub style: StyleView,
    pub styles: Option<ElementStylesView>,
    pub styles_changed: bool,
    pub text_styles: Option<TextStylesView>,
    pub is_text: bool,
    pub text_changed: bool,
}

impl View for ElementStyles {
    type V = ElementStylesView;

    open spec fn view(&self) -> ElementStylesView {
        ElementStylesView {
            lists: style_views(self.styles@),
            selector_depth: self.selector_depth as nat,
            uses_hover: self.uses_hover,
            uses_focus_within: self.uses_focus_within,
        }
    }
}

impl View for StyledElement {
    type V = StyledElementView;

    open spec fn view(&self) -> StyledElementView {
        StyledElementView {
            style: self.style@,
            styles: match self.styles {
                Some(es) => Some(es@),
                None => None,
            },
            styles_changed: self.styles_changed,
            text_styles: match self.text_styles {
                Some(ts) => Some(ts@),
                None => None,
            },
            is_text: self.is_text,
            text_changed: self.text_changed,
        }
    }
}

/// The value of an element that may be absent.
pub open spec fn node_view(node: Option<StyledElement>) -> Option<StyledElementView> {
    match node {
        Some(n) => Some(n@),
        None => None,
    }
}

/// The values of a list of elements that may be absent.
pub open spec fn node_views(nodes: Seq<Option<StyledElement>>) -> Seq<Option<StyledElementView>> {
    nodes.map_values(|n: Option<StyledElement>| node_view(n))
}

/// The command that sets the computed style of an element.
#[derive(Debug, PartialEq, Eq)]
pub struct UpdateComputedStyle {
    pub entity: Entity,
    pub computed: ComputedStyle,
}

/// What the cascade asks to be done to an element.
#[derive(Debug, PartialEq, Eq)]
pub enum StyleCommand {
    /// Forget the properties of text that were noted for its children.
    RemoveTextStyles(Entity),
    /// Note these properties of text for its children.
    InsertTextStyles(Entity, TextStyles),
    /// Set its computed style.
    Update(UpdateComputedStyle),
}

/// The mathematical value of a [`StyleCommand`].
pub ghost enum StyleCommandView {
    RemoveTextStyles(Entity),
    InsertTextStyles(Entity, TextStylesView),
    Update(Entity, ComputedStyleView),
}

impl View for StyleCommand {
    type V = StyleCommandView;

    open spec fn view(&self) -> StyleCommandView {
        match self {
            StyleCommand::RemoveTextStyles(e) => StyleCommandView::RemoveTextStyles(*e),
            StyleCommand::InsertTextStyles(e, ts) => StyleCommandView::InsertTextStyles(*e, ts@),
            StyleCommand::Update(u) => StyleCommandView::Update(u.entity, u.computed@),
        }
    }
}

/// The values of a list of commands.
pub open spec fn command_views(commands: Seq<StyleCommand>) -> Seq<StyleCommandView> {
    commands.map_values(|c: StyleCommand| c@)
}

/// What the cascade makes of one element.
pub ghost struct NodeOutcome {
    /// What is to be done to the element.
    pub commands: Seq<StyleCommandView>,
    /// The properties of text that its children inherit.
    pub text_styles: TextStylesView,
    /// Whether these differ from what was noted for the children before.
    pub inherited_changed: bool,
}

impl StyledElementView {
    /// Whether the element itself gives reason to work out its styles
    /// again: its styles were set anew, something changed that they may
    /// depend on, or its text changed.
    pub open spec fn is_changed(self, tree: TreeView, entity: Entity) -> bool {
        ||| (self.styles matches Some(es) && (self.styles_changed || (styles_have_selectors(
            es.lists,
        ) && tree.changed_within(
            entity,
            es.selector_depth,
            es.uses_hover,
            es.uses_focus_within,
        ))))
        ||| (self.is_text && self.text_changed)
    }

    /// The computed style of the element.
    pub open spec fn computed(
        self,
        tree: TreeView,
        entity: Entity,
        inherited: TextStylesView,
    ) -> ComputedStyleView {
        ComputedStyleView::computed(
            self.style,
            match self.styles {
                Some(es) => Some(es.lists),
                None => None,
            },
            inherited,
            |s: SelectorView| tree.matches(s, entity),
        )
    }
}

/// What the cascade makes of the element `entity`, which inherits
/// `inherited`; `inherited_changed` says whether that differs from what it
/// inherited before.
///
/// Where neither the element nor what it inherits changed, nothing is
/// done, and the children inherit what was noted for them, or what the
/// element inherits. Else the styles are worked out. The properties of
/// text that they come to are noted for the children where they differ
/// from what the element inherits, and for every element that holds text;
/// else what was noted is forgotten, and the children inherit what the
/// element does. The computed style is set where the element changed or
/// what is noted for its children did.
#[verifier::opaque]
pub open spec fn node_outcome(
    tree: TreeView,
    node: Option<StyledElementView>,
    entity: Entity,
    inherited: TextStylesView,
    inherited_changed: bool,
) -> NodeOutcome {
    match node {
        None => NodeOutcome { commands: Seq::empty(), text_styles: inherited, inherited_changed },
        Some(n) => {
            let changed = n.is_changed(tree, entity);
            if changed || inherited_changed {
                let computed = n.computed(tree, entity, inherited);
                let text_styles = computed.text_styles();
                let update = StyleCommandView::Update(entity, computed);
                if text_styles.same(inherited) && !n.is_text {
                    if n.text_styles is Some {
                        NodeOutcome {
                            commands: seq![StyleCommandView::RemoveTextStyles(entity), update],
                            text_styles,
                            inherited_changed: true,
                        }
                    } else {
                        NodeOutcome {
                            commands: if changed {
                                seq![update]
                            } else {
                                Seq::empty()
                            },
                            text_styles,
                            inherited_changed,
                        }
                    }
                } else {
                    let noted = match n.text_styles {
                        Some(prev) => prev.same(text_styles),
                        None => false,
                    };
                    if !noted {
                        NodeOutcome {
                            commands: seq![
                                StyleCommandView::InsertTextStyles(entity, text_styles),
                                update,
                            ],
                            text_styles,
                            inherited_changed: true,
                        }
                    } else {
                        NodeOutcome {
                            commands: if changed {
                                seq![update]
                            } else {
                                Seq::empty()
                            },
                            text_styles,
                            inherited_changed: false,
                        }
                    }
                }
            } else {
                NodeOutcome {
                    commands: Seq::empty(),
                    text_styles: match n.text_styles {
                        Some(prev) => prev,
                        None => inherited,
                    },
                    inherited_changed,
                }
            }
        },
    }
}

/// The element with the number `entity`, if there is one.
pub open spec fn node_at(nodes: Seq<Option<StyledElementView>>, entity: Entity) -> Option<
    StyledElementView,
> {
    if entity < nodes.len() {
        nodes[entity as int]
    } else {
        None
    }
}

/// What the cascade asks to be done to the element `entity` and to its
/// descendants: to an element before its children, and to the children in
/// their order.
pub open spec fn subtree_updates(
    tree: TreeView,
    nodes: Seq<Option<StyledElementView>>,
    entity: Entity,
    inherited: TextStylesView,
    inherited_changed: bool,
) -> Seq<StyleCommandView>
    decreases tree.elements.len() - entity, 1nat, 0nat,
{
    let outcome = node_outcome(tree, node_at(nodes, entity), entity, inherited, inherited_changed);
    outcome.commands + children_updates(
        tree,
        nodes,
        entity,
        tree.children_of(entity),
        outcome.text_styles,
        outcome.inherited_changed,
    )
}

/// What the cascade asks to be done to the children `children` of
/// `parent` and to their descendants. A child that does not come after its
/// parent is no child.
pub open spec fn children_updates(
    tree: TreeView,
    nodes: Seq<Option<StyledElementView>>,
    parent: Entity,
    children: Seq<Entity>,
    inherited: TextStylesView,
    inherited_changed: bool,
) -> Seq<StyleCommandView>
    decreases tree.elements.len() - parent, 0nat, children.len(),
{
    if children.len() == 0 {
        Seq::empty()
    } else {
        let child = children.last();
        children_updates(
            tree,
            nodes,
            parent,
            children.drop_last(),
            inherited,
            inherited_changed,
        ) + if parent < child < tree.elements.len() {
            subtree_updates(tree, nodes, child, inherited, inherited_changed)
        } else {
            Seq::empty()
        }
    }
}

/// What the cascade makes of the element `entity`: the commands are added
/// to `commands`, and what its children inherit is returned, with the
/// answer to whether that changed.
pub fn update_element(
    commands: &mut Vec<StyleCommand>,
    matcher: &crate::selector_matcher::SelectorMatcher,
    node: Option<&StyledElement>,
    entity: Entity,
    inherited: &TextStyles,
    inherited_changed: bool,
) -> (r: (TextStyles, bool))
    ensures
        ({
            let outcome = node_outcome(
                matcher@,
                match node {
                    Some(n) => Some(n@),
                    None => None,
                },
                entity,
                inherited@,
                inherited_changed,
            );
            &&& command_views(final(commands)@) == command_views(old(commands)@) + outcome.commands
            &&& r.0@ == outcome.text_styles
            &&& r.1 == outcome.inherited_changed
        }),
{
    let ghost before = command_views(commands@);
    proof {
        reveal(node_outcome);
        assert(before + Seq::<StyleCommandView>::empty() == before);
    }
    let n = match node {
        Some(n) => n,
        None => {
            return (inherited.clone(), inherited_changed);
        },
    };
    let mut changed = match &n.styles {
        Some(element_styles) => matcher.is_changed(entity, element_styles, n.styles_changed),
        None => false,
    };
    if n.is_text && n.text_changed {
        changed = true;
    }
    if !(changed || inherited_changed) {
        let text_styles = match &n.text_styles {
            Some(prev) => prev.clone(),
            None => inherited.clone(),
        };
        return (text_styles, inherited_changed);
    }
    let computed = compute(&entity, &n.style, n.styles.as_ref(), inherited, matcher);
    proof {
        let tree = matcher@;
        let by_matcher = |s: SelectorView| matcher.matches(s, entity);
        let by_tree = |s: SelectorView| tree.matches(s, entity);
        assert(by_matcher =~= by_tree);
        assert(computed@ == n@.computed(tree, entity, inherited@));
    }
    let text_styles = TextStyles {
        font: clone_text(&computed.font_handle),
        font_size: clone_number(&computed.font_size),
        color: clone_color(&computed.color),
    };
    let ghost update = StyleCommandView::Update(entity, computed@);
    let now_changed;
    let mut passed_on = false;
    if text_styles.same(inherited) && !n.is_text {
        now_changed = n.text_styles.is_some();
        passed_on = inherited_changed;
        if now_changed {
            commands.push(StyleCommand::RemoveTextStyles(entity));
            proof {
                assert(command_views(commands@) =~= before.push(
                    StyleCommandView::RemoveTextStyles(entity),
                ));
            }
        }
    } else {
        now_changed = match &n.text_styles {
            Some(prev) => !prev.same(&text_styles),
            None => true,
        };
        if now_changed {
            commands.push(StyleCommand::InsertTextStyles(entity, text_styles.clone()));
            proof {
                assert(command_views(commands@) =~= before.push(
                    StyleCommandView::InsertTextStyles(entity, text_styles@),
                ));
            }
        }
    }
    if changed || now_changed {
        let ghost so_far = command_views(commands@);
        commands.push(StyleCommand::Update(UpdateComputedStyle { entity, computed }));
        proof {
            assert(command_views(commands@) =~= so_far.push(update));
            if now_changed {
                assert(so_far.push(update) =~= before + seq![so_far.last(), update]);
            } else {
                assert(so_far.push(update) =~= before + seq![update]);
            }
        }
    }
    (text_styles, now_changed || passed_on)
}

/// Works out the styles of the element `entity` and of its descendants,
/// an element before its children, and adds to `commands` what is to be
/// done. `nodes` holds the elements by their numbers; `inherited` is what
/// the element inherits, and `inherited_changed` says whether that differs
/// from what it inherited before.
pub fn update_element_styles(
    commands: &mut Vec<StyleCommand>,
    matcher: &crate::selector_matcher::SelectorMatcher,
    nodes: &Vec<Option<StyledElement>>,
    entity: Entity,
    inherited: &TextStyles,
    inherited_changed: bool,
)
    ensures
        command_views(final(commands)@) == command_views(old(commands)@) + subtree_updates(
            matcher@,
            node_views(nodes@),
            entity,
            inherited@,
            inherited_changed,
        ),
    decreases matcher@.elements.len() - entity,
{
    let ghost before = command_views(commands@);
    let ghost tree = matcher@;
    let ghost views = node_views(nodes@);
    let node = if entity < nodes.len() {
        nodes[entity].as_ref()
    } else {
        None
    };
    proof {
        if entity < nodes.len() {
            assert(views[entity as int] == node_view(nodes@[entity as int]));
        }
    }
    let (text_styles, changed) = update_element(
        commands,
        matcher,
        node,
        entity,
        inherited,
        inherited_changed,
    );
    let ghost outcome = node_outcome(
        tree,
        node_at(views, entity),
        entity,
        inherited@,
        inherited_changed,
    );
    let children = matcher.children_of(entity);
    let n = matcher.len();
    let ghost after_node = command_views(commands@);
    let mut i: usize = 0;
    proof {
        assert(children@.take(0) == Seq::<Entity>::empty());
        assert(after_node + Seq::<StyleCommandView>::empty() == after_node);
    }
    while i < children.len()
        invariant
            i <= children.len(),
            tree == matcher@,
            views == node_views(nodes@),
            n == tree.elements.len(),
            children@ == tree.children_of(entity),
            command_views(commands@) == after_node + children_updates(
                tree,
                views,
                entity,
                children@.take(i as int),
                text_styles@,
                changed,
            ),
        decreases children.len() - i,
    {
        let child = children[i];
        let ghost so_far = command_views(commands@);
        proof {
            assert(children@.take(i + 1).drop_last() == children@.take(i as int));
            assert(children@.take(i + 1).last() == child);
            assert(so_far + Seq::<StyleCommandView>::empty() == so_far);
        }
        if entity < child && child < n {
            update_element_styles(commands, matcher, nodes, child, &text_styles, changed);
        }
        proof {
            let done = children_updates(
                tree,
                views,
                entity,
                children@.take(i as int),
                text_styles@,
                changed,
            );
            let more = if entity < child < n {
                subtree_updates(tree, views, child, text_styles@, changed)
            } else {
                Seq::<StyleCommandView>::empty()
            };
            assert(after_node + done + more =~= after_node + (done + more));
        }
        i += 1;
    }
    proof {
        assert(children@.take(children.len() as int) == children@);
        let rest = children_updates(tree, views, entity, children@, text_styles@, changed);
        assert(before + outcome.commands + rest =~= before + (outcome.commands + rest));
    }
}

/// Works out the styles of all elements, tree by tree in the order of
/// their roots, and returns what is to be done. A root inherits nothing.
pub fn update_styles(
    matcher: &crate::selector_matcher::SelectorMatcher,
    nodes: &Vec<Option<StyledElement>>,
) -> (commands: Vec<StyleCommand>)
    ensures
        command_views(commands@) == roots_updates(
            matcher@,
            node_views(nodes@),
            matcher@.elements.len(),
        ),
{
    let mut commands: Vec<StyleCommand> = Vec::new();
    let inherited = TextStyles::default();
    let n = matcher.len();
    let mut root: usize = 0;
    proof {
        assert(command_views(commands@) =~= Seq::<StyleCommandView>::empty());
    }
    while root < n
        invariant
            root <= n,
            n == matcher@.elements.len(),
            inherited@ == (TextStylesView { font: None, font_size: None, color: None }),
            command_views(commands@) == roots_updates(matcher@, node_views(nodes@), root as nat),
        decreases n - root,
    {
        proof {
            let so_far = command_views(commands@);
            assert(so_far + Seq::<StyleCommandView>::empty() == so_far);
        }
        if matcher.parent_of(root).is_none() {
            update_element_styles(&mut commands, matcher, nodes, root, &inherited, false);
        }
        root += 1;
    }
    commands
}

/// What the cascade asks to be done to the trees whose roots are among the
/// first `count` elements.
pub open spec fn roots_updates(
    tree: TreeView,
    nodes: Seq<Option<StyledElementView>>,
    count: nat,
) -> Seq<StyleCommandView>
    decreases count,
{
    if count == 0 {
        Seq::empty()
    } else {
        let root = (count - 1) as usize;
        roots_updates(tree, nodes, (count - 1) as nat) + if tree.parent_of(root) is None {
            subtree_updates(
                tree,
                nodes,
                root,
                TextStylesView { font: None, font_size: None, color: None },
                false,
            )
        } else {
            Seq::empty()
        }
    }
}

/// Nothing changed since the frame before: not what is under the pointer,
/// not the focus, no class names, no styles and no text.
pub open spec fn is_unchanged(tree: TreeView, nodes: Seq<Option<StyledElementView>>) -> bool {
    &&& tree.hover == tree.hover_prev
    &&& tree.focus == tree.focus_prev
    &&& forall|e: int|
        0 <= e < tree.elements.len() ==> !(#[trigger] tree.elements[e]).classes_changed
    &&& forall|e: int|
        0 <= e < nodes.len() ==> ((#[trigger] nodes[e]) matches Some(n) ==> !n.styles_changed && !(
        n.is_text && n.text_changed))
}

/// Where nothing changed since the frame before, the cascade asks for
/// nothing to be done to an element that inherits what it did before, nor
/// to its descendants: no computed style is worked out again.
pub proof fn lemma_nothing_to_update(
    tree: TreeView,
    nodes: Seq<Option<StyledElementView>>,
    entity: Entity,
    inherited: TextStylesView,
)
    requires
        is_unchanged(tree, nodes),
    ensures
        subtree_updates(tree, nodes, entity, inherited, false) == Seq::<StyleCommandView>::empty(),
    decreases tree.elements.len() - entity, 1nat, 0nat,
{
    reveal(node_outcome);
    let node = node_at(nodes, entity);
    match node {
        Some(n) => {
            match n.styles {
                Some(es) => {
                    lemma_unchanged(
                        tree,
                        entity,
                        es.selector_depth,
                        es.uses_hover,
                        es.uses_focus_within,
                    );
                },
                None => {},
            }
            assert(!n.is_changed(tree, entity));
        },
        None => {},
    }
    let outcome = node_outcome(tree, node, entity, inherited, false);
    assert(outcome.commands == Seq::<StyleCommandView>::empty());
    assert(!outcome.inherited_changed);
    lemma_nothing_to_update_children(
        tree,
        nodes,
        entity,
        tree.children_of(entity),
        outcome.text_styles,
    );
    assert(Seq::<StyleCommandView>::empty() + Seq::<StyleCommandView>::empty() =~= Seq::<
        StyleCommandView,
    >::empty());
}

/// Where nothing changed since the frame before, the cascade asks for
/// nothing to be done to children that inherit what they did before.
pub proof fn lemma_nothing_to_update_children(
    tree: TreeView,
    nodes: Seq<Option<StyledElementView>>,
    parent: Entity,
    children: Seq<Entity>,
    inherited: TextStylesView,
)
    requires
        is_unchanged(tree, nodes),
    ensures
        children_updates(tree, nodes, parent, children, inherited, false) == Seq::<
            StyleCommandView,
        >::empty(),
    decreases tree.elements.len() - parent, 0nat, children.len(),
{
    if children.len() > 0 {
        let child = children.last();
        lemma_nothing_to_update_children(tree, nodes, parent, children.drop_last(), inherited);
        if parent < child < tree.elements.len() {
            lemma_nothing_to_update(tree, nodes, child, inherited);
        }
        assert(Seq::<StyleCommandView>::empty() + Seq::<StyleCommandView>::empty() =~= Seq::<
            StyleCommandView,
        >::empty());
    }
}

/// Where nothing changed since the frame before, the cascade asks for
/// nothing to be done at all.
pub proof fn lemma_idempotent(tree: TreeView, nodes: Seq<Option<StyledElementView>>, count: nat)
    requires
        is_unchanged(tree, nodes),
    ensures
        roots_updates(tree, nodes, count) == Seq::<StyleCommandView>::empty(),
    decreases count,
{
    if count > 0 {
        lemma_idempotent(tree, nodes, (count - 1) as nat);
        lemma_nothing_to_update(
            tree,
            nodes,
            (count - 1) as usize,
            TextStylesView { font: None, font_size: None, color: None },
        );
        assert(Seq::<StyleCommandView>::empty() + Seq::<StyleCommandView>::empty() =~= Seq::<
            StyleCommandView,
        >::empty());
    }
}

} // verus!

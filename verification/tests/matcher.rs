use bevy_peacock::classes::ElementClasses;
use bevy_peacock::selector_matcher::SelectorMatcher;
use bevy_peacock::style_handle::ElementStyles;
use bevy_peacock::style_parser::parse_stylesheet;
use bevy_peacock::Selector;
use std::sync::Arc;

fn sel(text: &str) -> Selector {
    text.parse().unwrap()
}

/// A tree of five elements:
///
/// ```text
/// 0 .root
/// ├─ 1 .item.first
/// │   └─ 3 (no classes)
/// └─ 2 .item
///     └─ 4 .leaf
/// ```
fn tree() -> SelectorMatcher {
    let mut m = SelectorMatcher::new();
    assert_eq!(m.add_element(None, Some(ElementClasses::new("root")), false), Some(0));
    assert_eq!(
        m.add_element(Some(0), Some(ElementClasses::new(("item", "first"))), false),
        Some(1)
    );
    assert_eq!(m.add_element(Some(0), Some(ElementClasses::new("item")), false), Some(2));
    assert_eq!(m.add_element(Some(1), None, false), Some(3));
    assert_eq!(m.add_element(Some(2), Some(ElementClasses::new("leaf")), false), Some(4));
    m
}

#[test]
fn the_tree_is_built_in_order() {
    let mut m = tree();
    assert_eq!(m.len(), 5);
    assert!(m.has_element(4));
    assert!(!m.has_element(5));
    assert_eq!(m.parent_of(0), None);
    assert_eq!(m.parent_of(4), Some(2));
    assert_eq!(m.parent_of(9), None);
    assert_eq!(m.children_of(0), &[1, 2]);
    assert_eq!(m.children_of(3), &[] as &[usize]);
    assert_eq!(m.children_of(9), &[] as &[usize]);
    // An element cannot be added under one that is not there yet.
    assert_eq!(m.add_element(Some(5), None, false), None);
    assert_eq!(m.add_element(Some(7), None, false), None);
    assert_eq!(m.len(), 5);
}

#[test]
fn classes_and_chains() {
    let m = tree();
    assert!(m.selector_match(&sel(""), &3));
    assert!(m.selector_match(&sel("&"), &3));
    assert!(m.selector_match(&sel(".item"), &1));
    assert!(m.selector_match(&sel(".item.first"), &1));
    assert!(!m.selector_match(&sel(".item.first"), &2));
    assert!(!m.selector_match(&sel(".item"), &3));
    assert!(!m.selector_match(&sel(".item"), &9));
}

#[test]
fn parents() {
    let m = tree();
    assert!(m.selector_match(&sel(".root > &.item"), &1));
    assert!(m.selector_match(&sel(".root > * > .leaf"), &4));
    assert!(m.selector_match(&sel(".item > &"), &3));
    assert!(!m.selector_match(&sel(".root > &"), &3));
    // The root has no parent.
    assert!(!m.selector_match(&sel(" > &"), &0));
    assert!(m.selector_match(&sel(" > &"), &1));
}

#[test]
fn first_and_last_child() {
    let m = tree();
    assert!(m.is_first_child(&1));
    assert!(!m.is_last_child(&1));
    assert!(m.is_last_child(&2));
    assert!(m.is_first_child(&3) && m.is_last_child(&3));
    assert!(!m.is_first_child(&0));
    assert!(m.selector_match(&sel(".item:first-child"), &1));
    assert!(!m.selector_match(&sel(".item:first-child"), &2));
    assert!(m.selector_match(&sel(".item:last-child"), &2));
}

#[test]
fn alternatives() {
    let m = tree();
    assert!(m.selector_match(&sel(".none, .leaf"), &4));
    assert!(m.selector_match(&sel(".leaf, .none"), &4));
    assert!(!m.selector_match(&sel(".none, .other"), &4));
    assert!(!m.selector_match(&Selector::Either(vec![]), &4));
}

#[test]
fn hovering_reaches_up_from_what_is_under_the_pointer() {
    let mut m = tree();
    m.set_hover(vec![4]);
    assert!(m.is_hovering(&4));
    assert!(m.is_hovering(&2));
    assert!(m.is_hovering(&0));
    assert!(!m.is_hovering(&1));
    assert!(!m.is_hovering(&3));
    assert!(!m.was_hovering(&4));
    assert!(m.selector_match(&sel(".item:hover > &.leaf"), &4));
    assert!(m.selector_match(&sel(":hover"), &0));
    assert!(!m.selector_match(&sel(":hover"), &1));
    assert!(m.is_descendant(&4, &0));
    assert!(m.is_descendant(&4, &4));
    assert!(!m.is_descendant(&0, &4));
    assert!(!m.is_descendant(&4, &1));
}

#[test]
fn focus() {
    let mut m = tree();
    m.set_focus(Some(3));
    assert!(m.is_focused(&3));
    assert!(m.is_focus_visible(&3));
    assert!(!m.is_focused(&1));
    assert!(m.is_focus_within(&3));
    assert!(m.is_focus_within(&1));
    assert!(m.is_focus_within(&0));
    assert!(!m.is_focus_within(&2));
    assert!(!m.was_focused(&3));
    assert!(!m.was_focus_within(&1));
    assert!(!m.was_focus_visible(&3));
    assert!(m.selector_match(&sel(":focus"), &3));
    assert!(m.selector_match(&sel(":focus-visible"), &3));
    assert!(m.selector_match(&sel(".item:focus-within"), &1));
    assert!(!m.selector_match(&sel(".item:focus"), &1));
    m.set_focus_prev(Some(3));
    assert!(m.was_focused(&3) && m.was_focus_within(&0) && m.was_focus_visible(&3));
}

fn styles(sheet: &str) -> ElementStyles {
    let rules = parse_stylesheet(sheet).unwrap();
    ElementStyles::new(rules.into_iter().map(|(_, list)| Arc::new(list)).collect())
}

#[test]
fn element_styles_note_what_their_selectors_ask_for() {
    let plain = styles("A { width: 1px; }");
    assert_eq!(plain.selector_depth, 0);
    assert!(!plain.uses_hover);
    assert!(!plain.uses_focus_within);

    let deep = styles(
        "A { &.x { width: 1px; } }
         B { .a:hover > * > &.b { width: 2px; } .c > & { width: 3px; } }",
    );
    assert_eq!(deep.styles.len(), 2);
    assert!(deep.has_selectors());
    assert!(!plain.has_selectors());
    assert_eq!(deep.selector_depth, 2);
    assert!(deep.uses_hover);
    assert!(!deep.uses_focus_within);

    let within = styles("A { :focus-within { width: 1px; } }");
    assert_eq!(within.selector_depth, 0);
    assert!(within.uses_focus_within);
}

#[test]
fn nothing_changed_means_no_change() {
    let mut m = tree();
    m.set_hover(vec![4]);
    m.set_hover_prev(vec![4]);
    m.set_focus(Some(3));
    m.set_focus_prev(Some(3));
    let es = styles("A { .root:hover > * > &:focus-within { width: 1px; } }");
    for e in 0..6 {
        assert!(!m.is_changed(e, &es, false));
    }
    // Styles that were set anew always count.
    assert!(m.is_changed(4, &es, true));
}

#[test]
fn changes_count_as_far_up_as_the_selectors_look() {
    let es = |sheet: &str| styles(sheet);
    let one = es("A { &.x { width: 1px; } }");
    let two = es("A { .x > & { width: 1px; } }");
    let three = es("A { .x > * > & { width: 1px; } }");
    let hover = es("A { :hover { width: 1px; } }");
    let within = es("A { .x > * > :focus-within { width: 1px; } }");
    let none = es("A { width: 1px; }");

    // The class names of the root changed.
    let mut m = SelectorMatcher::new();
    m.add_element(None, Some(ElementClasses::new("root")), true);
    m.add_element(Some(0), None, false);
    m.add_element(Some(1), None, false);
    assert!(m.is_changed(0, &one, false));
    assert!(!m.is_changed(1, &one, false));
    assert!(m.is_changed(1, &two, false));
    assert!(!m.is_changed(2, &two, false));
    assert!(m.is_changed(2, &three, false));
    assert!(!m.is_changed(0, &none, false));

    // The pointer moved onto element 4.
    let mut m = tree();
    m.set_hover(vec![4]);
    assert!(m.is_changed(4, &hover, false));
    assert!(m.is_changed(2, &hover, false));
    assert!(!m.is_changed(1, &hover, false));
    // Styles that do not use hovering do not care.
    assert!(!m.is_changed(4, &three, false));

    // The focus moved from element 3 to element 4.
    let mut m = tree();
    m.set_focus(Some(4));
    m.set_focus_prev(Some(3));
    assert!(m.is_changed(4, &one, false));
    assert!(m.is_changed(3, &one, false));
    assert!(!m.is_changed(2, &one, false));
    assert!(m.is_changed(2, &within, false));
    assert!(m.is_changed(1, &within, false));
    // The focus stayed within the root.
    assert!(!m.is_changed(0, &within, false));
}

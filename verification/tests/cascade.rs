use bevy_peacock::animate::AnimatedLayoutProp;
use bevy_peacock::classes::ElementClasses;
use bevy_peacock::computed::{ComputedStyle, GridPlacement, Style};
use bevy_peacock::selector_matcher::SelectorMatcher;
use bevy_peacock::style::{StyleProp, Translation};
use bevy_peacock::style_handle::{ElementStyles, StyleHandle};
use bevy_peacock::style_parser::parse_stylesheet;
use bevy_peacock::transition::{
    animated_kinds, AnimatedKinds, Timing, Transition, TransitionKind, TransitionProperty,
};
use bevy_peacock::update::{
    compute, update_styles, StyleCommand, StyledElement, TextStyles, UpdateComputedStyle,
};
use bevy_peacock::update_computed::{
    BackgroundChange, BorderChange, ElementFacts, ImageChange, ImageSetting, OutlineChange,
    OutlineSetting, PickableChange, ZIndexChange,
};
use bevy_peacock::values::{Color, Display, OverflowAxis, PointerEvents, UiRect, Val, ZIndex};
use bevy_peacock::Number;
use std::sync::Arc;

fn num(text: &str) -> Number {
    Number::parse(text).unwrap()
}

fn px(text: &str) -> Val {
    Val::Px(num(text))
}

fn handles(sheet: &str) -> Vec<StyleHandle> {
    parse_stylesheet(sheet)
        .unwrap()
        .into_iter()
        .map(|(_, list)| Arc::new(list))
        .collect()
}

fn styles(sheet: &str) -> ElementStyles {
    ElementStyles::new(handles(sheet))
}

fn red() -> Color {
    Color::Rgba8 { red: 255, green: 0, blue: 0, alpha: 255 }
}

fn blue() -> Color {
    Color::Rgba8 { red: 0, green: 0, blue: 255, alpha: 255 }
}

#[test]
fn a_property_takes_the_value_that_is_applied_last() {
    let mut computed = ComputedStyle::new();
    assert_eq!(computed.style, Style::default());
    StyleProp::Width(px("1")).apply(&mut computed);
    StyleProp::Height(px("2")).apply(&mut computed);
    StyleProp::Width(px("3")).apply(&mut computed);
    assert_eq!(computed.style.width, px("3"));
    assert_eq!(computed.style.height, px("2"));
    assert_eq!(computed.style.left, Val::Auto);
}

#[test]
fn properties_that_stand_for_several() {
    let mut computed = ComputedStyle::new();
    StyleProp::Gap(px("4")).apply(&mut computed);
    assert_eq!(computed.style.row_gap, px("4"));
    assert_eq!(computed.style.column_gap, px("4"));
    StyleProp::RowGap(px("5")).apply(&mut computed);
    assert_eq!(computed.style.row_gap, px("5"));
    assert_eq!(computed.style.column_gap, px("4"));

    StyleProp::Overflow(OverflowAxis::Clip).apply(&mut computed);
    StyleProp::OverflowY(OverflowAxis::Visible).apply(&mut computed);
    assert_eq!(computed.style.overflow_x, OverflowAxis::Clip);
    assert_eq!(computed.style.overflow_y, OverflowAxis::Visible);

    StyleProp::Scale(num("2")).apply(&mut computed);
    StyleProp::ScaleY(num("3")).apply(&mut computed);
    assert_eq!(computed.scale_x, Some(num("2")));
    assert_eq!(computed.scale_y, Some(num("3")));

    StyleProp::Margin(UiRect::all(px("1"))).apply(&mut computed);
    StyleProp::MarginLeft(px("9")).apply(&mut computed);
    assert_eq!(
        computed.style.margin,
        UiRect { left: px("9"), right: px("1"), top: px("1"), bottom: px("1") }
    );
    StyleProp::BorderBottom(px("2")).apply(&mut computed);
    assert_eq!(computed.style.border.bottom, px("2"));
    assert_eq!(computed.style.border.top, px("0"));
}

#[test]
fn properties_that_are_no_layout() {
    let mut computed = ComputedStyle::new();
    StyleProp::BackgroundColor(Some(red())).apply(&mut computed);
    StyleProp::BorderColor(Some(blue())).apply(&mut computed);
    StyleProp::Color(Some(red())).apply(&mut computed);
    StyleProp::OutlineColor(Some(blue())).apply(&mut computed);
    StyleProp::OutlineWidth(px("1")).apply(&mut computed);
    StyleProp::OutlineOffset(px("2")).apply(&mut computed);
    StyleProp::ZIndex(ZIndex::Global(3)).apply(&mut computed);
    StyleProp::BackgroundImage(Some("a.png".into())).apply(&mut computed);
    StyleProp::Font(Some("a.ttf".into())).apply(&mut computed);
    StyleProp::FontSize(num("12")).apply(&mut computed);
    StyleProp::PointerEvents(PointerEvents::Ignore).apply(&mut computed);
    StyleProp::Rotation(num("1.5")).apply(&mut computed);
    StyleProp::Translation(Translation { x: num("1"), y: num("2"), z: num("3") })
        .apply(&mut computed);
    StyleProp::GridRowStart(2).apply(&mut computed);
    StyleProp::GridRowSpan(3).apply(&mut computed);
    StyleProp::GridColumnEnd(-1).apply(&mut computed);
    StyleProp::Cursor(bevy_peacock::Cursor::Pointer).apply(&mut computed);
    StyleProp::Transition(vec![Transition::default()]).apply(&mut computed);
    assert_eq!(computed.background_color, Some(red()));
    assert_eq!(computed.border_color, Some(blue()));
    assert_eq!(computed.color, Some(red()));
    assert_eq!(computed.outline_color, Some(blue()));
    assert_eq!(computed.outline_width, px("1"));
    assert_eq!(computed.outline_offset, px("2"));
    assert_eq!(computed.z_index, ZIndex::Global(3));
    assert_eq!(computed.image, Some("a.png".into()));
    assert_eq!(computed.font, Some("a.ttf".into()));
    assert_eq!(computed.font_handle, None);
    assert_eq!(computed.font_size, Some(num("12")));
    assert_eq!(computed.pickable, Some(PointerEvents::Ignore));
    assert_eq!(computed.rotation, Some(num("1.5")));
    assert_eq!(
        computed.translation,
        Some(Translation { x: num("1"), y: num("2"), z: num("3") })
    );
    assert_eq!(
        computed.style.grid_row,
        GridPlacement { start: Some(2), span: Some(3), end: None }
    );
    assert_eq!(
        computed.style.grid_column,
        GridPlacement { start: None, span: None, end: Some(-1) }
    );
    assert_eq!(computed.transitions, vec![Transition::default()]);
    assert_eq!(computed.style, {
        let mut style = Style::default();
        style.grid_row = GridPlacement { start: Some(2), span: Some(3), end: None };
        style.grid_column = GridPlacement { start: None, span: None, end: Some(-1) };
        style
    });
}

fn tree() -> SelectorMatcher {
    let mut m = SelectorMatcher::new();
    m.add_element(None, Some(ElementClasses::new("root")), false);
    m.add_element(Some(0), Some(ElementClasses::new(("item", "on"))), false);
    m.add_element(Some(0), Some(ElementClasses::new("item")), false);
    m
}

const SHEET: &str = "
    BASE {
        width: 1px;
        height: 1px;
        color: #f00;
        .on { width: 2px; }
        .root > & { height: 3px; left: 3px; }
    }
    MORE {
        width: 4px;
        .off { width: 5px; }
        .item { top: 6px; }
    }";

#[test]
fn styles_apply_in_their_order_and_blocks_after_what_always_applies() {
    let m = tree();
    let es = styles(SHEET);
    let inherited = TextStyles::default();

    let computed = compute(&1, &Style::default(), Some(&es), &inherited, &m);
    // `.on` of BASE gave 2px, but MORE comes later.
    assert_eq!(computed.style.width, px("4"));
    assert_eq!(computed.style.height, px("3"));
    assert_eq!(computed.style.left, px("3"));
    assert_eq!(computed.style.top, px("6"));
    assert_eq!(computed.color, Some(red()));

    let only_base = ElementStyles::new(handles(SHEET)[..1].to_vec());
    let computed = compute(&1, &Style::default(), Some(&only_base), &inherited, &m);
    assert_eq!(computed.style.width, px("2"));
    let computed = compute(&2, &Style::default(), Some(&only_base), &inherited, &m);
    assert_eq!(computed.style.width, px("1"));
    assert_eq!(computed.style.height, px("3"));

    // The root matches no block.
    let computed = compute(&0, &Style::default(), Some(&es), &inherited, &m);
    assert_eq!(computed.style.width, px("4"));
    assert_eq!(computed.style.height, px("1"));
    assert_eq!(computed.style.left, Val::Auto);
    assert_eq!(computed.style.top, Val::Auto);
}

#[test]
fn the_cascade_starts_from_the_layout_as_it_stands_and_from_what_is_inherited() {
    let m = tree();
    let mut style = Style::default();
    style.display = Display::Grid;
    style.width = px("7");
    let inherited = TextStyles {
        font: Some("old.ttf".into()),
        font_size: Some(num("10")),
        color: Some(blue()),
    };

    let computed = compute(&1, &style, None, &inherited, &m);
    assert_eq!(computed.style, style);
    assert_eq!(computed.font_handle, Some("old.ttf".into()));
    assert_eq!(computed.font_size, Some(num("10")));
    assert_eq!(computed.color, Some(blue()));
    assert_eq!(computed.font, None);

    let es = styles("A { height: 1px; color: #f00; }");
    let computed = compute(&1, &style, Some(&es), &inherited, &m);
    assert_eq!(computed.style.display, Display::Grid);
    assert_eq!(computed.style.width, px("7"));
    assert_eq!(computed.style.height, px("1"));
    assert_eq!(computed.color, Some(red()));
    assert_eq!(computed.font_size, Some(num("10")));
    assert_eq!(computed.font_handle, Some("old.ttf".into()));

    // A font that a style asks for is the font in effect.
    let mut list = (*handles("A { height: 1px; }")[0]).clone();
    list.props.push(StyleProp::Font(Some("new.ttf".into())));
    let es = ElementStyles::new(vec![Arc::new(list)]);
    let computed = compute(&1, &style, Some(&es), &inherited, &m);
    assert_eq!(computed.font, Some("new.ttf".into()));
    assert_eq!(computed.font_handle, Some("new.ttf".into()));
}

fn node(styles: Option<ElementStyles>, styles_changed: bool) -> Option<StyledElement> {
    Some(StyledElement {
        style: Style::default(),
        styles,
        styles_changed,
        text_styles: None,
        is_text: false,
        text_changed: false,
    })
}

#[test]
fn nothing_is_worked_out_where_nothing_changed() {
    let mut m = tree();
    m.set_hover(vec![1]);
    m.set_hover_prev(vec![1]);
    m.set_focus(Some(2));
    m.set_focus_prev(Some(2));
    let nodes = vec![
        node(Some(styles(SHEET)), false),
        node(Some(styles("A { :hover { width: 1px; } }")), false),
        node(Some(styles("A { :focus-within { color: #00f; } }")), false),
    ];
    assert_eq!(update_styles(&m, &nodes), vec![]);
}

#[test]
fn styles_that_were_set_anew_are_worked_out() {
    let m = tree();
    let nodes = vec![node(None, false), node(Some(styles(SHEET)), true), node(None, false)];
    let commands = update_styles(&m, &nodes);
    let computed = compute(&1, &Style::default(), Some(&styles(SHEET)), &TextStyles::default(), &m);
    let text_styles = TextStyles { font: None, font_size: None, color: Some(red()) };
    assert_eq!(
        commands,
        vec![
            StyleCommand::InsertTextStyles(1, text_styles),
            StyleCommand::Update(UpdateComputedStyle { entity: 1, computed }),
        ]
    );
}

#[test]
fn text_styles_that_are_worth_the_same_are_the_same() {
    let written = |size: &str, color: Color| TextStyles {
        font: Some("a.ttf".into()),
        font_size: Some(num(size)),
        color: Some(color),
    };
    let one = Number::one;
    let decimal = Color::Rgba { red: num("1.0"), green: num("0"), blue: num("0e0"), alpha: one() };
    assert!(written("12", red()).same(&written("12.0", red())));
    assert!(written("12", red()).same(&written("1.2e1", decimal)));
    assert!(!written("12", red()).same(&written("12.5", red())));
    assert!(!written("12", red()).same(&written("12", blue())));
    let mut other = written("12", red());
    other.font = Some("b.ttf".into());
    assert!(!written("12", red()).same(&other));
    other.font = None;
    assert!(!written("12", red()).same(&other));
    assert!(TextStyles::default().same(&TextStyles::default()));
    assert!(!TextStyles::default().same(&written("12", red())));

    // A colour that is written anew and worth what it was is not noted again.
    let mut m = SelectorMatcher::new();
    m.add_element(None, None, false);
    let sheet = "A { color: rgb(1, 0, 0); }";
    let mut root = node(Some(styles(sheet)), true).unwrap();
    root.text_styles = Some(TextStyles { font: None, font_size: None, color: Some(red()) });
    let computed = compute(&0, &Style::default(), Some(&styles(sheet)), &TextStyles::default(), &m);
    assert_eq!(
        update_styles(&m, &vec![Some(root)]),
        vec![StyleCommand::Update(UpdateComputedStyle { entity: 0, computed })]
    );
    // One that is worth something else is.
    let mut root = node(Some(styles(sheet)), true).unwrap();
    root.text_styles = Some(TextStyles { font: None, font_size: None, color: Some(blue()) });
    assert_eq!(update_styles(&m, &vec![Some(root)]).len(), 2);
}

#[test]
fn text_styles_pass_down_the_tree() {
    // 0 sets a colour; 1 is its child, 2 and 3 are children of 1; 3 holds text.
    let mut m = SelectorMatcher::new();
    m.add_element(None, None, false);
    m.add_element(Some(0), None, false);
    m.add_element(Some(1), None, false);
    m.add_element(Some(1), None, false);
    let mut text = node(None, false).unwrap();
    text.is_text = true;
    text.text_changed = true;
    let nodes = vec![
        node(Some(styles("A { color: #f00; }")), true),
        node(None, false),
        None,
        Some(text),
    ];
    let commands = update_styles(&m, &nodes);
    let colored = TextStyles { font: None, font_size: None, color: Some(red()) };
    let computed = |entity: usize, es: Option<&ElementStyles>, inherited: &TextStyles| {
        UpdateComputedStyle {
            entity,
            computed: compute(&entity, &Style::default(), es, inherited, &m),
        }
    };
    assert_eq!(
        commands,
        vec![
            // The root differs from what it inherits, which is nothing.
            StyleCommand::InsertTextStyles(0, colored.clone()),
            StyleCommand::Update(computed(
                0,
                Some(&styles("A { color: #f00; }")),
                &TextStyles::default()
            )),
            // Element 1 inherits the colour and adds nothing, and nothing was
            // noted for its children before: nothing is to be done. Element 2
            // is not styled. Element 3 holds new text: what it inherits is
            // noted.
            StyleCommand::InsertTextStyles(3, colored.clone()),
            StyleCommand::Update(computed(3, None, &colored)),
        ]
    );

    // In the next frame the root has its text styles and the text its own.
    let mut root = node(Some(styles("A { color: #f00; }")), false).unwrap();
    root.text_styles = Some(colored.clone());
    let mut text = node(None, false).unwrap();
    text.is_text = true;
    text.text_styles = Some(colored.clone());
    let nodes = vec![Some(root), node(None, false), None, Some(text)];
    assert_eq!(update_styles(&m, &nodes), vec![]);

    // Then the text changes.
    let mut root = node(Some(styles("A { color: #f00; }")), false).unwrap();
    root.text_styles = Some(colored.clone());
    let mut text = node(None, false).unwrap();
    text.is_text = true;
    text.text_changed = true;
    text.text_styles = Some(colored.clone());
    let nodes = vec![Some(root), node(None, false), None, Some(text)];
    assert_eq!(
        update_styles(&m, &nodes),
        vec![StyleCommand::Update(computed(3, None, &colored))]
    );

    // Then the root loses its colour: what was noted for its children goes,
    // and the text, two levels down, inherits no colour any more.
    let mut root = node(Some(styles("A { width: 1px; }")), true).unwrap();
    root.text_styles = Some(colored.clone());
    let mut text = node(None, false).unwrap();
    text.is_text = true;
    text.text_styles = Some(colored.clone());
    let nodes = vec![Some(root), node(None, false), None, Some(text)];
    assert_eq!(
        update_styles(&m, &nodes),
        vec![
            StyleCommand::RemoveTextStyles(0),
            StyleCommand::Update(computed(
                0,
                Some(&styles("A { width: 1px; }")),
                &TextStyles::default()
            )),
            StyleCommand::InsertTextStyles(3, TextStyles::default()),
            StyleCommand::Update(computed(3, None, &TextStyles::default())),
        ]
    );
}

fn update(computed: ComputedStyle) -> UpdateComputedStyle {
    UpdateComputedStyle { entity: 0, computed }
}

const NOTHING: ElementFacts = ElementFacts {
    has_background: false,
    has_border_color: false,
    has_image: false,
    has_outline: false,
    z_index: None,
    has_pickable: false,
};

const EVERYTHING: ElementFacts = ElementFacts {
    has_background: true,
    has_border_color: true,
    has_image: true,
    has_outline: true,
    z_index: Some(ZIndex::Local(1)),
    has_pickable: true,
};

#[test]
fn an_empty_computed_style_takes_everything_away() {
    let u = update(ComputedStyle::new());
    let plan = u.plan(&NOTHING);
    assert_eq!(plan.background, BackgroundChange::Keep);
    assert_eq!(plan.border, BorderChange::Keep);
    assert_eq!(plan.image, ImageChange::Keep);
    assert_eq!(plan.outline, OutlineChange::Keep);
    assert_eq!(plan.z_index, ZIndexChange::Keep);
    assert_eq!(plan.pickable, PickableChange::Keep);
    assert_eq!(
        plan.animated,
        AnimatedKinds { transform: false, background_color: false, border_color: false, layout: false }
    );
    let plan = u.plan(&EVERYTHING);
    assert_eq!(plan.background, BackgroundChange::Remove);
    assert_eq!(plan.border, BorderChange::Remove);
    assert_eq!(plan.image, ImageChange::Remove);
    assert_eq!(plan.outline, OutlineChange::Remove);
    assert_eq!(plan.z_index, ZIndexChange::Remove);
    assert_eq!(plan.pickable, PickableChange::Remove);
}

#[test]
fn a_full_computed_style_gives_everything() {
    let mut computed = ComputedStyle::new();
    computed.background_color = Some(red());
    computed.border_color = Some(blue());
    computed.image = Some("a.png".into());
    computed.flip_y = true;
    computed.outline_color = Some(red());
    computed.outline_width = px("1");
    computed.outline_offset = px("2");
    computed.z_index = ZIndex::Global(2);
    computed.pickable = Some(PointerEvents::All);
    let u = update(computed);
    let image = || ImageSetting { path: "a.png".into(), flip_x: false, flip_y: true };
    let outline = || OutlineSetting { width: px("1"), offset: px("2"), color: red() };

    let plan = u.plan(&NOTHING);
    assert_eq!(plan.background, BackgroundChange::Insert(red()));
    assert_eq!(plan.border, BorderChange::Insert(blue()));
    assert_eq!(plan.image, ImageChange::Insert(image()));
    assert_eq!(plan.outline, OutlineChange::Insert(outline()));
    // An element without a place in the stacking order keeps none.
    assert_eq!(plan.z_index, ZIndexChange::Keep);
    assert_eq!(plan.pickable, PickableChange::Insert(true));

    let plan = u.plan(&EVERYTHING);
    assert_eq!(plan.background, BackgroundChange::Change(red()));
    assert_eq!(plan.border, BorderChange::Change(blue()));
    assert_eq!(plan.image, ImageChange::Change(image()));
    assert_eq!(plan.outline, OutlineChange::Change(outline()));
    assert_eq!(plan.z_index, ZIndexChange::Insert(ZIndex::Global(2)));
    assert_eq!(plan.pickable, PickableChange::Change(true));
}

#[test]
fn an_image_needs_a_background() {
    let mut computed = ComputedStyle::new();
    computed.image = Some("a.png".into());
    let u = update(computed);
    assert_eq!(u.background_change(false), BackgroundChange::InsertDefault);
    assert_eq!(u.background_change(true), BackgroundChange::Keep);
}

#[test]
fn places_in_the_stacking_order() {
    let with = |z: ZIndex| {
        let mut computed = ComputedStyle::new();
        computed.z_index = z;
        update(computed)
    };
    let local = |n: i32| Some(ZIndex::Local(n));
    let global = |n: i32| Some(ZIndex::Global(n));
    assert_eq!(with(ZIndex::Local(1)).z_index_change(local(1)), ZIndexChange::Keep);
    assert_eq!(
        with(ZIndex::Local(1)).z_index_change(local(2)),
        ZIndexChange::Insert(ZIndex::Local(1))
    );
    assert_eq!(
        with(ZIndex::Local(1)).z_index_change(global(1)),
        ZIndexChange::Insert(ZIndex::Local(1))
    );
    assert_eq!(with(ZIndex::Local(0)).z_index_change(local(0)), ZIndexChange::Remove);
    assert_eq!(with(ZIndex::Local(0)).z_index_change(global(3)), ZIndexChange::Remove);
    assert_eq!(with(ZIndex::Global(0)).z_index_change(global(0)), ZIndexChange::Keep);
    assert_eq!(
        with(ZIndex::Global(0)).z_index_change(local(0)),
        ZIndexChange::Insert(ZIndex::Global(0))
    );
    assert_eq!(with(ZIndex::Local(5)).z_index_change(None), ZIndexChange::Keep);
    assert_eq!(with(ZIndex::Global(5)).z_index_change(None), ZIndexChange::Keep);
}

#[test]
fn pointer_events() {
    let mut computed = ComputedStyle::new();
    computed.pickable = Some(PointerEvents::Ignore);
    let u = update(computed);
    assert_eq!(u.update_picking(true), PickableChange::Change(false));
    assert_eq!(u.update_picking(false), PickableChange::Insert(false));
}

fn transition(property: TransitionProperty) -> Transition {
    Transition { property, delay: num("0"), duration: num("1"), timing: Timing::EaseIn }
}

#[test]
fn kinds_of_transition() {
    assert_eq!(TransitionProperty::Transform.kind(), TransitionKind::Transform);
    assert_eq!(TransitionProperty::BackgroundColor.kind(), TransitionKind::BackgroundColor);
    assert_eq!(TransitionProperty::BorderColor.kind(), TransitionKind::BorderColor);
    for property in [
        TransitionProperty::Left,
        TransitionProperty::Top,
        TransitionProperty::Bottom,
        TransitionProperty::Right,
        TransitionProperty::Height,
        TransitionProperty::Width,
        TransitionProperty::BorderLeft,
        TransitionProperty::BorderTop,
        TransitionProperty::BorderRight,
        TransitionProperty::BorderBottom,
    ] {
        assert_eq!(property.kind(), TransitionKind::Layout);
    }
    let list = vec![
        transition(TransitionProperty::Width),
        transition(TransitionProperty::BorderColor),
        transition(TransitionProperty::Left),
    ];
    assert_eq!(
        animated_kinds(&list),
        AnimatedKinds { transform: false, background_color: false, border_color: true, layout: true }
    );
    let mut computed = ComputedStyle::new();
    computed.transitions = list;
    let u = update(computed);
    assert_eq!(
        u.layout_transitions(),
        vec![transition(TransitionProperty::Width), transition(TransitionProperty::Left)]
    );
    assert_eq!(u.transform_transition(), None);
    assert!(u.plan(&NOTHING).animated.layout);

    let mut computed = ComputedStyle::new();
    let mut second = transition(TransitionProperty::Transform);
    second.timing = Timing::Linear;
    computed.transitions = vec![
        transition(TransitionProperty::Top),
        transition(TransitionProperty::Transform),
        second,
    ];
    assert_eq!(
        update(computed).transform_transition(),
        Some(transition(TransitionProperty::Transform))
    );
    assert_eq!(Timing::EaseInOut.name(), "ease-in-out");
    assert_eq!(Timing::Linear.name(), "linear");
    assert_eq!(
        Transition::default(),
        Transition {
            property: TransitionProperty::Transform,
            delay: num("0"),
            duration: num("0"),
            timing: Timing::Linear
        }
    );
}

#[test]
fn an_animation_starts_anew_from_where_it_is_when_its_target_changes() {
    let mut anim = AnimatedLayoutProp::new(transition(TransitionProperty::Width));
    assert_eq!(anim.origin, num("0"));
    assert_eq!(anim.target, num("0"));

    let at = |width: Val| {
        let mut style = Style::default();
        style.width = width;
        style
    };
    // The width is to go from 0 to 100.
    assert!(anim.restart_if_changed(TransitionProperty::Width, &at(px("0")), &at(px("100"))));
    assert_eq!((anim.origin.as_str(), anim.target.as_str()), ("0", "100"));
    // Half way there, the target is the same: the animation goes on.
    assert!(!anim.restart_if_changed(TransitionProperty::Width, &at(px("50")), &at(px("100"))));
    assert_eq!((anim.origin.as_str(), anim.target.as_str()), ("0", "100"));
    // So it is where it is written otherwise.
    for same in ["100.0", "1e2", "+100", "0.1E3"] {
        assert!(!anim.restart_if_changed(TransitionProperty::Width, &at(px("50")), &at(px(same))));
        assert_eq!((anim.origin.as_str(), anim.target.as_str()), ("0", "100"));
    }
    // The target changes: the animation starts anew from where it is, not from
    // where it was before it started.
    assert!(anim.restart_if_changed(TransitionProperty::Width, &at(px("50")), &at(px("20"))));
    assert_eq!((anim.origin.as_str(), anim.target.as_str()), ("50", "20"));
    // Only pixels are animated.
    assert!(!anim.restart_if_changed(TransitionProperty::Width, &at(px("40")), &at(Val::Auto)));
    assert!(!anim.restart_if_changed(
        TransitionProperty::Width,
        &at(Val::Percent(num("40"))),
        &at(px("30"))
    ));
    // Another property is not looked at.
    assert!(!anim.restart_if_changed(TransitionProperty::Height, &at(px("1")), &at(px("2"))));
    assert_eq!((anim.origin.as_str(), anim.target.as_str()), ("50", "20"));

    let mut style = Style::default();
    style.set_layout_value(TransitionProperty::BorderTop, num("3"));
    style.set_layout_value(TransitionProperty::Right, num("4"));
    assert_eq!(style.border.top, px("3"));
    assert_eq!(style.right, px("4"));
    assert_eq!(style.layout_value(TransitionProperty::BorderTop), &px("3"));
    assert_eq!(style.layout_value(TransitionProperty::Bottom), &Val::Auto);
}

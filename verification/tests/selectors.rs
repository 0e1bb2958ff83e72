use bevy_peacock::error::{Expected, ParseErrorKind};
use bevy_peacock::selector_parser::parse_selector;
use bevy_peacock::Selector;

fn class(name: &str, next: Selector) -> Selector {
    Selector::Class(name.into(), Box::new(next))
}

#[test]
fn focus_pseudo_classes_take_the_longest_name() {
    assert_eq!(
        ":focus".parse::<Selector>().unwrap(),
        Selector::Focus(Box::new(Selector::Accept))
    );
    assert_eq!(
        ":focus-within".parse::<Selector>().unwrap(),
        Selector::FocusWithin(Box::new(Selector::Accept))
    );
    assert_eq!(
        ":focus-visible.a".parse::<Selector>().unwrap(),
        class("a", Selector::FocusVisible(Box::new(Selector::Accept)))
    );
}

#[test]
fn star_adds_nothing() {
    assert_eq!("*".parse::<Selector>().unwrap(), Selector::Accept);
    assert_eq!(
        "*.foo".parse::<Selector>().unwrap(),
        class("foo", Selector::Accept)
    );
    assert_eq!(
        ".foo > * > .bar".parse::<Selector>().unwrap(),
        class(
            "bar",
            Selector::Parent(Box::new(Selector::Parent(Box::new(class(
                "foo",
                Selector::Accept
            )))))
        )
    );
}

#[test]
fn whitespace_around_a_selector_does_not_count() {
    assert_eq!(
        "  .foo\n".parse::<Selector>().unwrap(),
        class("foo", Selector::Accept)
    );
    assert_eq!(
        ".foo >".parse::<Selector>().unwrap(),
        Selector::Parent(Box::new(class("foo", Selector::Accept)))
    );
    assert_eq!("".parse::<Selector>().unwrap(), Selector::Accept);
}

#[test]
fn class_names_take_letters_digits_dash_and_underscore() {
    assert_eq!(
        ".a-b_c9".parse::<Selector>().unwrap(),
        class("a-b_c9", Selector::Accept)
    );
    assert!(".9a".parse::<Selector>().is_err());
    assert!(".".parse::<Selector>().is_err());
}

#[test]
fn trailing_text_is_an_error_at_its_byte_offset() {
    let err = parse_selector(".foo bar").unwrap_err();
    assert_eq!(err.offset, 4);
    assert_eq!(err.kind, ParseErrorKind::Expected(Expected::End));
    assert_eq!(err.to_string(), "expected end of input");

    // Two characters of two bytes each stand before the selector.
    let err = parse_selector("\u{a0}\u{a0}.a:hovering").unwrap_err();
    assert_eq!(err.offset, 4 + 2 + 6);

    let err = ".foo:unknown".parse::<Selector>().unwrap_err();
    assert_eq!(err, "expected end of input");
}

#[test]
fn depth_counts_the_steps_to_a_parent() {
    let depth = |s: &str| s.parse::<Selector>().unwrap().depth();
    assert_eq!(depth(""), 0);
    assert_eq!(depth("&.foo:hover"), 0);
    assert_eq!(depth(".a > &"), 1);
    assert_eq!(depth(".a > * > &.b"), 2);
    assert_eq!(depth(".a, .b > .c > .d, .e > .f"), 2);
    assert_eq!(Selector::Either(vec![]).depth(), 0);
    assert_eq!(
        Selector::Parent(Box::new(Selector::Parent(Box::new(Selector::Accept)))).depth(),
        2
    );
}

#[test]
fn uses_hover_and_focus_within() {
    let sel = |s: &str| s.parse::<Selector>().unwrap();
    assert!(!sel(".a > &.b:focus").uses_hover());
    assert!(sel(".a:hover > &.b").uses_hover());
    assert!(sel(".a, .b:hover").uses_hover());
    assert!(!sel(".a:hover").uses_focus_within());
    assert!(sel(":focus-within.a > .b").uses_focus_within());
    assert!(sel(".a, .b > :focus-within").uses_focus_within());
    assert!(!Selector::Either(vec![]).uses_hover());
}

#[test]
fn written_selectors_parse_to_themselves() {
    for text in [
        "",
        "&",
        ".a",
        ":hover.a:first-child",
        "&.a.b",
        ".a > &.b",
        " > .a",
        ".a > ",
        ".a > * > &",
        "&:hover",
        "&.a:hover.b",
        "&:first-child:last-child",
        ".a:focus > &:focus-within.b:focus-visible",
        ".a, &.b, :focus > .c",
        ", .a",
        ":focus:focus-within:focus-visible:last-child",
    ] {
        let parsed = text.parse::<Selector>().unwrap();
        let written = parsed.to_string();
        assert_eq!(written.parse::<Selector>().unwrap(), parsed, "{text:?}");
    }
}

#[test]
fn the_mark_is_written_before_the_classes_and_pseudo_classes_of_its_compound() {
    let parsed = "&:hover".parse::<Selector>().unwrap();
    assert_eq!(
        parsed,
        Selector::Current(Box::new(Selector::Hover(Box::new(Selector::Accept))))
    );
    assert_eq!(parsed.to_string(), "&:hover");
    assert_eq!(parsed.to_string().parse::<Selector>().unwrap(), parsed);

    let parsed = ".x > &.a:hover.b".parse::<Selector>().unwrap();
    assert_eq!(parsed.to_string(), ".x > &.a:hover.b");
    assert_eq!(parsed.to_string().parse::<Selector>().unwrap(), parsed);
}

#[test]
fn clone_gives_an_equal_selector() {
    let parsed = ".a > &.b, :hover".parse::<Selector>().unwrap();
    assert_eq!(parsed.clone(), parsed);
}

#[test]
fn the_mark_of_the_current_element_belongs_outermost() {
    let sel = |s: &str| s.parse::<Selector>().unwrap();
    for text in ["", ".a", ".a > .b:hover", "&", "&.a", ".a > * > &.b", "&.a, .b > &, .c"] {
        assert!(sel(text).is_well_formed(), "{text:?}");
    }
    for text in ["&.a > .b", "& > &", ".a, &.b > .c"] {
        assert!(!sel(text).is_well_formed(), "{text:?}");
    }
    assert!(sel(".a > &").has_current());
    assert!(sel(".a, .b > & > .c").has_current());
    assert!(!sel(".a, .b > .c").has_current());
    assert!(!Selector::Current(Box::new(Selector::Current(Box::new(Selector::Accept))))
        .is_well_formed());
}

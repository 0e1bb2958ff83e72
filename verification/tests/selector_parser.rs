use bevy_peacock::Selector;

#[test]
fn test_parse_current() {
    assert_eq!(
        "&".parse::<Selector>().unwrap(),
        Selector::Current(Box::new(Selector::Accept))
    );
}

#[test]
fn test_serialize() {
    assert_eq!(
        Selector::Current(Box::new(Selector::Accept)).to_string(),
        "&",
    );
    assert_eq!(
        Selector::Class("x".into(), Box::new(Selector::Accept)).to_string(),
        ".x",
    );
    assert_eq!(
        ".foo > &.bar".parse::<Selector>().unwrap().to_string(),
        ".foo > &.bar",
    );
    assert_eq!(
        ".foo > .bar.baz".parse::<Selector>().unwrap().to_string(),
        ".foo > .bar.baz",
    );
    assert_eq!(
        ".foo > * > .bar".parse::<Selector>().unwrap().to_string(),
        ".foo > * > .bar",
    );
    assert_eq!(
        ".foo > &.bar.baz".parse::<Selector>().unwrap().to_string(),
        ".foo > &.bar.baz",
    );
    assert_eq!(
        ".a.b.c > .d.e.f > &.g.h.i"
            .parse::<Selector>()
            .unwrap()
            .to_string(),
        ".a.b.c > .d.e.f > &.g.h.i",
    );
    assert_eq!(
        ".foo, .bar".parse::<Selector>().unwrap().to_string(),
        ".foo, .bar",
    );
}

#[test]
fn test_parse_current_class() {
    assert_eq!(
        "&.foo".parse::<Selector>().unwrap(),
        Selector::Current(Box::new(Selector::Class(
            "foo".into(),
            Box::new(Selector::Accept)
        )))
    );
}

#[test]
fn test_parse_class() {
    assert_eq!(
        ".foo".parse::<Selector>().unwrap(),
        Selector::Class("foo".into(), Box::new(Selector::Accept))
    );
}

#[test]
fn test_parse_hover() {
    assert_eq!(
        ":hover".parse::<Selector>().unwrap(),
        Selector::Hover(Box::new(Selector::Accept))
    );
    assert_eq!(
        ".foo:hover".parse::<Selector>().unwrap(),
        Selector::Hover(Box::new(Selector::Class(
            "foo".into(),
            Box::new(Selector::Accept)
        )))
    );
}

#[test]
fn test_parse_first_last_child() {
    assert_eq!(
        ":first-child".parse::<Selector>().unwrap(),
        Selector::FirstChild(Box::new(Selector::Accept))
    );
    assert_eq!(
        ".foo:first-child".parse::<Selector>().unwrap(),
        Selector::FirstChild(Box::new(Selector::Class(
            "foo".into(),
            Box::new(Selector::Accept)
        )))
    );
    assert_eq!(
        ":last-child".parse::<Selector>().unwrap(),
        Selector::LastChild(Box::new(Selector::Accept))
    );
    assert_eq!(
        ".foo:last-child".parse::<Selector>().unwrap(),
        Selector::LastChild(Box::new(Selector::Class(
            "foo".into(),
            Box::new(Selector::Accept)
        )))
    );
}

#[test]
fn test_parse_parent() {
    assert_eq!(
        "&.foo > .bar".parse::<Selector>().unwrap(),
        Selector::Class(
            "bar".into(),
            Box::new(Selector::Parent(Box::new(Selector::Current(Box::new(
                Selector::Class("foo".into(), Box::new(Selector::Accept))
            )))))
        )
    );

    assert_eq!(
        ".foo > &.bar".parse::<Selector>().unwrap(),
        Selector::Current(Box::new(Selector::Class(
            "bar".into(),
            Box::new(Selector::Parent(Box::new(Selector::Class(
                "foo".into(),
                Box::new(Selector::Accept)
            ))))
        )))
    );
}

#[test]
fn test_either() {
    assert_eq!(
        "&.foo, .bar".parse::<Selector>().unwrap(),
        Selector::Either(vec!(
            Box::new(Selector::Current(Box::new(Selector::Class(
                "foo".into(),
                Box::new(Selector::Accept)
            )))),
            Box::new(Selector::Class("bar".into(), Box::new(Selector::Accept)))
        ))
    );
}

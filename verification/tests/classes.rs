use bevy_peacock::classes::{ClassNames, ElementClasses};

fn get_names<'a, CN: ClassNames<'a>>(class_names: CN) -> ElementClasses {
    let mut classes = ElementClasses::default();
    class_names.add_classes(&mut classes);
    classes
}

/// Whether `classes` holds the names `expected`, and no others.
fn holds(classes: &ElementClasses, expected: &[&str]) -> bool {
    classes.len() == expected.len() && expected.iter().all(|name| classes.contains(name))
}

#[test]
fn test_class_names() {
    let cl = get_names(());
    assert!(holds(&cl, &[]));

    let cl = get_names("test");
    assert!(holds(&cl, &["test"]));

    let cl = get_names(("one", "two"));
    assert!(holds(&cl, &["one", "two"]));

    let cl = get_names(("one".if_true(true), "two"));
    assert!(holds(&cl, &["one", "two"]));

    let cl = get_names(("one".if_true(false), "two"));
    assert!(holds(&cl, &["two"]));

    let cl = get_names(("one".if_true(true).if_true(false), "two"));
    assert!(holds(&cl, &["two"]));
}

#[test]
fn class_names_count_and_emptiness() {
    assert_eq!(().len(), 0);
    assert!(().is_empty());
    assert_eq!("a".len(), 1);
    assert!(!ClassNames::is_empty(&"a"));
    assert_eq!(ClassNames::len(&("a", ("b", "c"), "d".if_true(false))), 3);
    assert!(!ClassNames::is_empty(&("a".if_true(false),)));
    assert!(ClassNames::is_empty(&"a".if_true(false)));
}

#[test]
fn add_and_remove_class() {
    let mut cl = ElementClasses::new(("one", "two"));
    cl.add_class("three");
    cl.add_class("one");
    assert!(holds(&cl, &["one", "two", "three"]));
    cl.remove_class("two");
    cl.remove_class("none");
    assert!(holds(&cl, &["one", "three"]));
}

#[test]
fn a_copy_holds_the_same_names_and_goes_its_own_way() {
    let original = ElementClasses::new(("one", "two"));
    let mut copy = original.clone();
    assert!(holds(&copy, &["one", "two"]));
    copy.add_class("three");
    copy.remove_class("one");
    assert!(holds(&copy, &["two", "three"]));
    assert!(holds(&original, &["one", "two"]));
    assert!(holds(&ElementClasses::default(), &[]));
}

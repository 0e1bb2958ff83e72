use bevy_peacock::chars::to_chars;
use bevy_peacock::error::{Expected, ParseErrorKind, StyleParsingError};
use bevy_peacock::number::{number_at, Decimal, NumberToken};
use bevy_peacock::prop_value::{create_prop, PropValue};
use bevy_peacock::style::StyleProp;
use bevy_peacock::style_parser::{prop_value, style_prop, Outcome};
use bevy_peacock::values::{
    AlignContent, AlignItems, AlignSelf, Color, Display, FlexDirection, JustifyContent,
    JustifyItems, JustifySelf, PositionType, UiRect, Val,
};
use bevy_peacock::Number;
use winnow::Parser;

fn num(text: &str) -> Number {
    Number::parse(text).unwrap()
}

fn px(text: &str) -> Val {
    Val::Px(num(text))
}

/// The style property that the declaration `input` stands for.
fn prop(input: &str) -> StyleProp {
    let chars = to_chars(input);
    match style_prop(&chars, 0) {
        Outcome::Done(p, end) if end == chars.len() => p,
        other => panic!("{input:?}: {other:?}"),
    }
}

/// The failure that the declaration `input` ends in.
fn prop_err(input: &str) -> (usize, ParseErrorKind) {
    let chars = to_chars(input);
    match style_prop(&chars, 0) {
        Outcome::Fail(f) => (f.at, f.kind),
        other => panic!("{input:?}: {other:?}"),
    }
}

#[test]
fn numbers_are_kept_as_written() {
    for text in [
        "0", "10", "-1.5", "+.5", "5.", "1e3", "1E-3", "2.5e+10", "nan", "NaN", "inf", "-inf",
        "+Infinity", "INFINITY",
    ] {
        assert_eq!(num(text).as_str(), text);
    }
    for text in ["", ".", "-", "e5", "1e", "1e+", "1 ", " 1", "1px", "+nan", "in", "0x10"] {
        assert!(Number::parse(text).is_none(), "{text:?}");
    }
    assert_eq!(Number::zero().as_str(), "0");
    assert_eq!(Number::one().as_str(), "1");
    assert!(num("1").same(&Number::one()));
    // The text is kept, and tells two numbers apart that are worth the same.
    assert!(num("1.0").same(&Number::one()));
    assert_ne!(num("1.0"), Number::one());
}

fn finite(negative: bool, digits: &str, exponent: i64) -> Decimal {
    Decimal::Finite { negative, digits: digits.chars().collect(), exponent }
}

#[test]
fn what_a_number_is_worth() {
    assert_eq!(num("1").value(), finite(false, "1", 1));
    assert_eq!(num("+1.0").value(), finite(false, "1", 1));
    assert_eq!(num("10e-1").value(), finite(false, "1", 1));
    assert_eq!(num("0.001e3").value(), finite(false, "1", 1));
    assert_eq!(num("-12.50").value(), finite(true, "125", 2));
    assert_eq!(num(".5").value(), finite(false, "5", 0));
    assert_eq!(num("5.").value(), finite(false, "5", 1));
    assert_eq!(num("0.05").value(), finite(false, "5", -1));
    assert_eq!(num("00100").value(), finite(false, "1", 3));
    assert_eq!(num("1020.0304").value(), finite(false, "10200304", 4));
    assert_eq!(num("2.5E+10").value(), finite(false, "25", 11));
    assert_eq!(num("1e-3").value(), finite(false, "1", -2));
    assert_eq!(num("1e0007").value(), finite(false, "1", 8));
    for zero in ["0", "-0", "+0.000", ".0", "0e99", "0.0E-5", "000"] {
        assert_eq!(num(zero).value(), Decimal::Zero, "{zero:?}");
    }
    for nan in ["nan", "NaN", "NAN"] {
        assert_eq!(num(nan).value(), Decimal::NaN);
    }
    for inf in ["inf", "+inf", "Infinity", "+INFINITY"] {
        assert_eq!(num(inf).value(), Decimal::Infinite { negative: false });
    }
    for inf in ["-inf", "-Infinity"] {
        assert_eq!(num(inf).value(), Decimal::Infinite { negative: true });
    }
    // The largest and the smallest power of ten that is told apart.
    assert_eq!(num("0.1e1000000000").value(), finite(false, "1", 1_000_000_000));
    assert_eq!(num("1e1000000000").value(), Decimal::Infinite { negative: false });
    assert_eq!(num("-1e1000000000").value(), Decimal::Infinite { negative: true });
    assert_eq!(num("0.1e-1000000000").value(), finite(false, "1", -1_000_000_000));
    assert_eq!(num("0.01e-1000000000").value(), Decimal::Zero);
    assert_eq!(
        num("7e99999999999999999999999999999999999999999999").value(),
        Decimal::Infinite { negative: false }
    );
    assert_eq!(
        num("-7e-99999999999999999999999999999999999999999999").value(),
        Decimal::Zero
    );
}

#[test]
fn numbers_are_the_same_where_they_are_worth_the_same() {
    let literals = [
        "0", "-0", "0.0", "1", "1.0", "+1", "10e-1", "0.1e1", "-1", "-1.00", "100", "1e2",
        "100.", "100.0", "100.00", "0100", "1e02",
        "1.0E+2", "0.5", ".5", "5e-1", "0.50", "5", "50", "0.05", "12.5", "125e-1", "-12.5",
        "inf", "Infinity", "-inf", "1e-3", "0.001", "3", "3.0000", "16", "1.6e1", "256", "25.6",
    ];
    for a in literals {
        for b in literals {
            let floats = a.parse::<f32>().unwrap() == b.parse::<f32>().unwrap();
            assert_eq!(num(a).same(&num(b)), floats, "{a:?} {b:?}");
            assert_eq!(num(a).value() == num(b).value(), floats, "{a:?} {b:?}");
        }
    }
    assert!(num("nan").same(&num("NaN")));
    assert!(!num("nan").same(&num("0")));
    assert!(!num("nan").same(&num("inf")));
}

#[test]
fn a_number_is_worth_a_channel_of_eight_bits() {
    for (text, byte) in [
        ("0", 0), ("-0.0", 0), ("0.2", 51), ("2e-1", 51), ("0.4", 102), (".60", 153),
        ("0.8", 204), ("1", 255), ("1.0", 255), ("10e-1", 255),
    ] {
        for other in 0..=255u8 {
            assert_eq!(num(text).same_as_byte(other), other == byte, "{text:?} {other}");
        }
        assert_eq!(text.parse::<f32>().unwrap(), byte as f32 / 255.0, "{text:?}");
    }
    for text in ["0.5", "-0.2", "-1", "2", "0.02", "0.25", "20", "nan", "inf", "0.1", "255", "51"] {
        for other in 0..=255u8 {
            assert!(!num(text).same_as_byte(other), "{text:?} {other}");
        }
    }
}

fn color(input: &str) -> Color {
    match prop(&format!("color: {input};")) {
        StyleProp::Color(Some(c)) => c,
        other => panic!("{input:?}: {other:?}"),
    }
}

#[test]
fn colors_are_the_same_where_their_channels_are_worth_the_same() {
    let same = [
        ("#336699", "#369"),
        ("#336699", "#336699ff"),
        ("#336699", "rgb(0.2, 0.4, 0.6)"),
        ("#fff", "rgb(1, 1, 1)"),
        ("#000", "rgba(0, 0.0, -0, 1e0)"),
        ("rgb(0.20, 4e-1, .6)", "#336699"),
        ("rgba(1, 0, 0, 0.8)", "#ff0000cc"),
        ("rgba(1, 0, 0, 0.5)", "rgba(1.0, 0.0, 0, 5e-1)"),
        ("rgb(1, 0, 0)", "rgba(1, 0, 0, 1.0)"),
        ("hsl(120, 0.5, 0.5)", "hsla(120.0, .5, 0.50, 1)"),
    ];
    for (a, b) in same {
        assert!(color(a).same(&color(b)), "{a:?} {b:?}");
        assert!(color(b).same(&color(a)), "{a:?} {b:?}");
        assert!(color(a).same(&color(a)));
    }
    let different = [
        ("#336699", "#336698"),
        ("#336699", "rgb(0.2, 0.4, 0.8)"),
        ("#336699", "rgba(0.2, 0.4, 0.6, 0.8)"),
        ("#808080", "rgb(0.5, 0.5, 0.5)"),
        ("rgb(1, 0, 0)", "rgb(1, 0, 0.1)"),
        ("rgb(0, 0, 0)", "hsl(0, 0, 0)"),
        ("#000000", "hsl(0, 0, 0)"),
        ("hsl(120, 0.5, 0.5)", "hsl(121, 0.5, 0.5)"),
    ];
    for (a, b) in different {
        assert!(!color(a).same(&color(b)), "{a:?} {b:?}");
        assert!(!color(b).same(&color(a)), "{a:?} {b:?}");
    }
}

#[test]
fn numbers_end_where_the_float_grammar_ends() {
    for text in [
        "10px", "1.5.5", "1e5e5", "-.5x", "7", "12abc", "nanx", "infinity", "infinit", "inf",
        "+inf!", "abc", "", ".", "-", "+nan", "1.e5", "0.1e-2 ", "1e", "1e+", "5.e", "-1E-x",
    ] {
        let chars = to_chars(text);
        let mut rest = text;
        let theirs: Result<f32, _> =
            winnow::ascii::float::<_, f32, winnow::error::ContextError>.parse_next(&mut rest);
        match number_at(&chars, 0) {
            NumberToken::Found(end) => {
                let value = theirs.unwrap_or_else(|_| panic!("{text:?}"));
                assert_eq!(text.len() - rest.len(), end, "{text:?}");
                let ours = text[..end].parse::<f32>().unwrap();
                assert!(ours == value || (ours.is_nan() && value.is_nan()), "{text:?}");
            }
            NumberToken::Missing => {
                assert!(
                    matches!(theirs, Err(winnow::error::ErrMode::Backtrack(_))),
                    "{text:?}"
                );
            }
            NumberToken::Broken(_) => {
                assert!(
                    matches!(theirs, Err(winnow::error::ErrMode::Cut(_))),
                    "{text:?}"
                );
            }
        }
    }
}

#[test]
fn hexadecimal_colors_have_three_four_six_or_eight_digits() {
    let color = |input: &str| match prop(input) {
        StyleProp::Color(Some(c)) => c,
        other => panic!("{other:?}"),
    };
    assert_eq!(
        color("color: #1af;"),
        Color::Rgba8 { red: 0x11, green: 0xaa, blue: 0xff, alpha: 255 }
    );
    assert_eq!(
        color("color: #1AF8;"),
        Color::Rgba8 { red: 0x11, green: 0xaa, blue: 0xff, alpha: 0x88 }
    );
    assert_eq!(
        color("color: #102030;"),
        Color::Rgba8 { red: 0x10, green: 0x20, blue: 0x30, alpha: 255 }
    );
    assert_eq!(
        color("color: #10203040;"),
        Color::Rgba8 { red: 0x10, green: 0x20, blue: 0x30, alpha: 0x40 }
    );
    for input in ["color: #;", "color: #1;", "color: #12;", "color: #12345;", "color: #1234567;"] {
        let chars = to_chars(input);
        assert!(matches!(style_prop(&chars, 0), Outcome::Miss), "{input:?}");
    }
    assert_eq!(
        prop_err("color: #123456789;"),
        (16, ParseErrorKind::Expected(Expected::Semicolon))
    );
}

#[test]
fn color_functions() {
    let color = |input: &str| match prop(input) {
        StyleProp::BackgroundColor(Some(c)) => c,
        other => panic!("{other:?}"),
    };
    assert_eq!(
        color("background_color: rgb(1, 0.5, 0);"),
        Color::Rgba { red: num("1"), green: num("0.5"), blue: num("0"), alpha: num("1") }
    );
    assert_eq!(
        color("background_color: rgba( 1 0.5\n0 / .25 );"),
        Color::Rgba { red: num("1"), green: num("0.5"), blue: num("0"), alpha: num(".25") }
    );
    assert_eq!(
        color("background_color: rgb_linear(0,0,1,0.5);"),
        Color::RgbaLinear { red: num("0"), green: num("0"), blue: num("1"), alpha: num("0.5") }
    );
    assert_eq!(
        color("background_color: rgba_linear(0,0,1);"),
        Color::RgbaLinear { red: num("0"), green: num("0"), blue: num("1"), alpha: num("1") }
    );
    assert_eq!(
        color("background_color: hsl(120, 1, 0.5);"),
        Color::Hsla {
            hue: num("120"),
            saturation: num("1"),
            lightness: num("0.5"),
            alpha: num("1")
        }
    );
    assert_eq!(
        color("background_color: hsla (120 1 0.5 , 0);"),
        Color::Hsla {
            hue: num("120"),
            saturation: num("1"),
            lightness: num("0.5"),
            alpha: num("0")
        }
    );
    assert_eq!(prop("background_color: transparent;"), StyleProp::BackgroundColor(None));
}

#[test]
fn color_functions_fail_for_good_behind_the_parenthesis() {
    assert_eq!(
        prop_err("color: rgb(1, 2);"),
        (15, ParseErrorKind::Expected(Expected::Number))
    );
    assert_eq!(
        prop_err("color: rgb(1, 2, 3;"),
        (18, ParseErrorKind::Expected(Expected::CloseParen))
    );
    assert_eq!(
        prop_err("color: rgb(1e, 2, 3);"),
        (13, ParseErrorKind::Expected(Expected::Digits))
    );
    assert_eq!(
        prop_err("color: rgb();"),
        (11, ParseErrorKind::Expected(Expected::Number))
    );
    // Without a parenthesis the name is a word like any other.
    assert_eq!(
        prop_err("color: rgb;"),
        (
            11,
            ParseErrorKind::Invalid(StyleParsingError::InvalidPropertyType("\"rgb\"".into()))
        )
    );
}

#[test]
fn lengths_and_units() {
    let width = |input: &str| match prop(input) {
        StyleProp::Width(v) => v,
        other => panic!("{other:?}"),
    };
    assert_eq!(width("width: 10;"), px("10"));
    assert_eq!(width("width: 10px;"), px("10"));
    assert_eq!(width("width:-1.5e2px ;"), px("-1.5e2"));
    assert_eq!(width("width: 10%;"), Val::Percent(num("10")));
    assert_eq!(width("width: 10vw;"), Val::Vw(num("10")));
    assert_eq!(width("width: 10vh;"), Val::Vh(num("10")));
    assert_eq!(width("width: 10vmin;"), Val::VMin(num("10")));
    assert_eq!(width("width: 10vmax;"), Val::VMax(num("10")));
    assert_eq!(width("width: auto;"), Val::Auto);
    assert_eq!(
        prop_err("width: 10pt;"),
        (9, ParseErrorKind::Expected(Expected::Semicolon))
    );
    assert_eq!(
        prop_err("width: 1em;"),
        (9, ParseErrorKind::Expected(Expected::Digits))
    );
}

#[test]
fn rect_shorthand_follows_the_order_of_css() {
    let margin = |input: &str| match prop(input) {
        StyleProp::Margin(r) => r,
        other => panic!("{other:?}"),
    };
    assert_eq!(
        margin("margin: 1px;"),
        UiRect { left: px("1"), right: px("1"), top: px("1"), bottom: px("1") }
    );
    assert_eq!(
        margin("margin: 7;"),
        UiRect { left: px("7"), right: px("7"), top: px("7"), bottom: px("7") }
    );
    assert_eq!(
        margin("margin: 1px 2px;"),
        UiRect { left: px("2"), right: px("2"), top: px("1"), bottom: px("1") }
    );
    assert_eq!(
        margin("margin: 1px 2 3%;"),
        UiRect { left: px("2"), right: px("2"), top: px("1"), bottom: Val::Percent(num("3")) }
    );
    assert_eq!(
        margin("margin: 1px 2px 3px 4px;"),
        UiRect { left: px("4"), right: px("2"), top: px("1"), bottom: px("3") }
    );
    assert_eq!(
        margin("margin: 1px auto;"),
        UiRect { left: Val::Auto, right: Val::Auto, top: px("1"), bottom: px("1") }
    );
    assert_eq!(
        margin("margin: auto;"),
        UiRect { left: Val::Auto, right: Val::Auto, top: Val::Auto, bottom: Val::Auto }
    );
    assert_eq!(
        prop("padding: 1 2 3 4;"),
        StyleProp::Padding(UiRect { left: px("4"), right: px("2"), top: px("1"), bottom: px("3") })
    );
    assert_eq!(
        prop("border: 1 2;"),
        StyleProp::Border(UiRect { left: px("2"), right: px("2"), top: px("1"), bottom: px("1") })
    );
    assert_eq!(
        prop_err("margin: 1 2 3 4 5;"),
        (16, ParseErrorKind::Expected(Expected::Semicolon))
    );
}

#[test]
fn a_list_is_no_length() {
    assert_eq!(
        prop_err("width: 1px 2px;"),
        (
            15,
            ParseErrorKind::Invalid(StyleParsingError::InvalidPropertyType("list".into()))
        )
    );
}

#[test]
fn keywords() {
    assert_eq!(prop("display: flex;"), StyleProp::Display(Display::Flex));
    assert_eq!(prop("display: grid;"), StyleProp::Display(Display::Grid));
    assert_eq!(prop("display: none;"), StyleProp::Display(Display::Hidden));
    assert_eq!(
        prop("position_type: absolute;"),
        StyleProp::Position(PositionType::Absolute)
    );
    assert_eq!(
        prop("flex_direction: column_reverse;"),
        StyleProp::FlexDirection(FlexDirection::ColumnReverse)
    );
    assert_eq!(prop("align_items: flex_end;"), StyleProp::AlignItems(AlignItems::FlexEnd));
    assert_eq!(
        prop("align_content: space_evenly;"),
        StyleProp::AlignContent(AlignContent::SpaceEvenly)
    );
    assert_eq!(prop("align_self: auto;"), StyleProp::AlignSelf(AlignSelf::Auto));
    assert_eq!(
        prop("justify_items: baseline;"),
        StyleProp::JustifyItems(JustifyItems::Baseline)
    );
    assert_eq!(
        prop("justify_content: space_between;"),
        StyleProp::JustifyContent(JustifyContent::SpaceBetween)
    );
    assert_eq!(prop("justify_self: stretch;"), StyleProp::JustifySelf(JustifySelf::Stretch));
}

#[test]
fn error_kinds_of_declarations() {
    assert_eq!(
        create_prop("nope", &PropValue::Ident("x".into())),
        Err(StyleParsingError::InvalidPropertyName("nope".into()))
    );
    assert_eq!(
        create_prop("display", &PropValue::Ident("block".into())),
        Err(StyleParsingError::InvalidPropertyValue("\"block\"".into()))
    );
    assert_eq!(
        create_prop("display", &PropValue::Number(num("1"))),
        Err(StyleParsingError::InvalidPropertyType("number".into()))
    );
    assert_eq!(
        create_prop("width", &PropValue::Ident("wide".into())),
        Err(StyleParsingError::InvalidPropertyValue("\"wide\"".into()))
    );
    assert_eq!(
        create_prop("width", &PropValue::String("wide".into())),
        Err(StyleParsingError::InvalidPropertyType("string".into()))
    );
    assert_eq!(
        create_prop("color", &PropValue::Ident("red".into())),
        Err(StyleParsingError::InvalidPropertyType("\"red\"".into()))
    );
    assert_eq!(
        create_prop("color", &PropValue::Length(Val::Auto)),
        Err(StyleParsingError::InvalidPropertyType("length".into()))
    );
    assert_eq!(
        create_prop("margin", &PropValue::Color(Color::Rgba8 {
            red: 0,
            green: 0,
            blue: 0,
            alpha: 0
        })),
        Err(StyleParsingError::InvalidPropertyType("color".into()))
    );
    assert_eq!(
        StyleParsingError::InvalidPropertyName("nope".into()).to_string(),
        "invalid property name: 'nope'"
    );
    assert_eq!(
        StyleParsingError::InvalidPropertyValue("\"block\"".into()).to_string(),
        "invalid property value: \"block\""
    );
}

#[test]
fn strings_resolve_their_escapes() {
    let value = |input: &str| {
        let chars = to_chars(input);
        match prop_value(&chars, 0) {
            Outcome::Done(v, end) => (v, end),
            other => panic!("{input:?}: {other:?}"),
        }
    };
    assert_eq!(
        value(r#""a \"b\" \\ c\nd" rest"#),
        (PropValue::String("a \"b\" \\ c\nd".into()), 17)
    );
    assert_eq!(value(r#""""#), (PropValue::String("".into()), 2));
    for input in [r#""open"#, r#""bad \x escape""#, r#""ends in \"#] {
        let chars = to_chars(input);
        assert!(matches!(prop_value(&chars, 0), Outcome::Miss), "{input:?}");
    }
}

#[test]
fn values_are_tried_in_their_order() {
    let value = |input: &str| {
        let chars = to_chars(input);
        match prop_value(&chars, 0) {
            Outcome::Done(v, end) => (v, end),
            other => panic!("{input:?}: {other:?}"),
        }
    };
    // A word is read before a length: `auto` is a word here.
    assert_eq!(value("auto 1px"), (PropValue::Ident("auto".into()), 4));
    assert_eq!(value("inf"), (PropValue::Ident("inf".into()), 3));
    assert_eq!(value("-inf"), (PropValue::Number(num("-inf")), 4));
    assert_eq!(value("1 2"), (PropValue::List(vec![px("1"), px("2")]), 3));
    assert_eq!(value("1  "), (PropValue::Number(num("1")), 1));
    assert_eq!(value("hsl"), (PropValue::Ident("hsl".into()), 3));
}

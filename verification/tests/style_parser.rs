use bevy_peacock::chars::to_chars;
use bevy_peacock::error::{Expected, Failure, ParseError, ParseErrorKind, StyleParsingError};
use bevy_peacock::style::{StyleProp, StylePropList};
use bevy_peacock::style_parser::{
    style_prop, style_prop_list, style_prop_list_items, stylesheet, Outcome,
};
use bevy_peacock::values::{Color, Val};

/// Runs a parser on the whole of `input` and returns what it read.
fn run_parser<T>(parser: fn(&[char], usize) -> Outcome<T>, input: &str) -> T {
    match run(parser, input) {
        Ok(val) => val,
        Err(e) => panic!("{}", e),
    }
}

/// Runs a parser on the whole of `input` and returns the report of its error.
fn run_parser_err<T>(parser: fn(&[char], usize) -> Outcome<T>, input: &str) -> String {
    match run(parser, input) {
        Ok(_) => panic!("the parser took the input"),
        Err(e) => e,
    }
}

fn run<T>(parser: fn(&[char], usize) -> Outcome<T>, input: &str) -> Result<T, String> {
    let chars = to_chars(input);
    let failure = match parser(&chars, 0) {
        Outcome::Done(val, end) if end == chars.len() => return Ok(val),
        Outcome::Done(_, end) => Failure {
            at: end,
            kind: ParseErrorKind::Expected(Expected::End),
        },
        Outcome::Miss => Failure {
            at: 0,
            kind: ParseErrorKind::Expected(Expected::End),
        },
        Outcome::Fail(f) => f,
    };
    Err(failure.report(&chars))
}

fn run_stylesheet(input: &str) -> Vec<(String, StylePropList)> {
    let chars = to_chars(input);
    match stylesheet(&chars) {
        Ok(val) => val,
        Err(e) => panic!("{}", e.report(&chars)),
    }
}

fn run_stylesheet_err(input: &str) -> String {
    let chars = to_chars(input);
    stylesheet(&chars).map_err(|e| e.report(&chars)).unwrap_err()
}

/// The channels of a colour as machine numbers.
fn rgba(color: &Color) -> [f32; 4] {
    let num = |n: &bevy_peacock::Number| n.as_str().parse::<f32>().unwrap();
    match color {
        Color::Rgba8 {
            red,
            green,
            blue,
            alpha,
        } => [
            *red as f32 / 255.0,
            *green as f32 / 255.0,
            *blue as f32 / 255.0,
            *alpha as f32 / 255.0,
        ],
        Color::Rgba {
            red,
            green,
            blue,
            alpha,
        } => [num(red), num(green), num(blue), num(alpha)],
        _ => panic!("not an RGB colour: {:?}", color),
    }
}

/// A length as the name of its unit and a machine number.
fn val(v: &Val) -> (&'static str, f32) {
    let num = |n: &bevy_peacock::Number| n.as_str().parse::<f32>().unwrap();
    match v {
        Val::Auto => ("auto", 0.0),
        Val::Px(n) => ("px", num(n)),
        Val::Percent(n) => ("%", num(n)),
        Val::Vw(n) => ("vw", num(n)),
        Val::Vh(n) => ("vh", num(n)),
        Val::VMin(n) => ("vmin", num(n)),
        Val::VMax(n) => ("vmax", num(n)),
    }
}

#[test]
fn test_style_invalid_prop() {
    let err = run_parser_err(style_prop, "foo: #fff;");
    assert!(err.contains("invalid property name:"));
    assert!(err.contains("foo: #fff"));
}

#[test]
fn test_style_invalid_prop_value() {
    let err = run_parser_err(style_prop, "background_color: 1;");
    assert!(err.contains("invalid property type:"));
    assert!(err.contains("background_color:"));
}

#[test]
fn test_parse_color() {
    let result = run_parser(style_prop, "background_color: #fff;");
    match result {
        StyleProp::BackgroundColor(Some(color)) => {
            assert_eq!(rgba(&color), [1.0, 1.0, 1.0, 1.0]);
        }
        _ => panic!("incorrect result: {:?}", result),
    }

    let result = run_parser(style_prop, "background_color: rgb(1, 1, 1);");
    match result {
        StyleProp::BackgroundColor(Some(color)) => {
            assert_eq!(rgba(&color), [1.0, 1.0, 1.0, 1.0]);
        }
        _ => panic!("incorrect result: {:?}", result),
    }
}

#[test]
fn test_style_parser_background_color() {
    let result = run_parser(style_prop, "background_color: #fff;");
    match result {
        StyleProp::BackgroundColor(Some(color)) => {
            assert_eq!(rgba(&color), [1.0, 1.0, 1.0, 1.0]);
        }
        _ => panic!("incorrect result: {:?}", result),
    }
}

#[test]
fn test_style_parser_length() {
    let result = run_parser(style_prop, "width: 10;");
    match result {
        StyleProp::Width(v) => {
            assert_eq!(val(&v), ("px", 10.0));
        }
        _ => panic!("incorrect result: {:?}", result),
    }

    let result = run_parser(style_prop, "width: 10px;");
    match result {
        StyleProp::Width(v) => {
            assert_eq!(val(&v), ("px", 10.0));
        }
        _ => panic!("incorrect result: {:?}", result),
    }

    let result = run_parser(style_prop, "width: 10%;");
    match result {
        StyleProp::Width(v) => {
            assert_eq!(val(&v), ("%", 10.0));
        }
        _ => panic!("incorrect result: {:?}", result),
    }

    let result = run_parser(style_prop, "width: 10vh;");
    match result {
        StyleProp::Width(v) => {
            assert_eq!(val(&v), ("vh", 10.0));
        }
        _ => panic!("incorrect result: {:?}", result),
    }

    let result = run_parser(style_prop, "width: auto;");
    match result {
        StyleProp::Width(v) => {
            assert_eq!(v, Val::Auto);
        }
        _ => panic!("incorrect result: {:?}", result),
    }
}

#[test]
fn test_style_list_parser_empty() {
    let result = run_parser(style_prop_list, "MAIN {}");
    assert_eq!(result.0, "MAIN");
    assert_eq!(result.1.props.len(), 0);
}

#[test]
fn test_style_list_parser_basic() {
    let result = run_parser(
        style_prop_list,
        "MAIN {
                width: 10px;
                height: 10px;
             }",
    );
    assert_eq!(result.0, "MAIN");
    assert_eq!(result.1.props.len(), 2);
}

#[test]
fn test_stylesheet_parser_empty() {
    let result = run_stylesheet("");
    assert_eq!(result.len(), 0);
}

#[test]
fn test_stylesheet_parser_single() {
    let result = run_stylesheet(
        "MAIN {
                width: 10px;
                height: 10px;
             }",
    );
    assert_eq!(result.len(), 1);
}

#[test]
fn test_stylesheet_parser_with_selector() {
    let result = run_stylesheet(
        "MAIN {
                width: 10px;
                height: 10px;

                .enabled {
                    width: 10px;
                    height: 10px;
                }
             }",
    );
    assert_eq!(result.len(), 1);
    assert_eq!(result[0].1.props.len(), 2);
    assert_eq!(result[0].1.selectors.len(), 1);
}

#[test]
fn test_stylesheet_parser_with_space() {
    let result = run_stylesheet(
        "
            MAIN {
                width: 10px;
                height: 10px;
             }

             SIDE {
                width: 10px;
                height: 10px;
             }  ",
    );
    assert_eq!(result.len(), 2);
}

#[test]
fn test_stylesheet_comment() {
    let result = run_stylesheet(
        "
            // Comment1
            MAIN {
                // Comment2
                width: 10px;

                // Comment3
                height: 10px;
             }

             // Comment4
             SIDE {
                width: 10px;
                height: 10px;
             }  ",
    );
    assert_eq!(result.len(), 2);
}

#[test]
fn test_stylesheet_parser_err_bad_prop() {
    let err = run_stylesheet_err(
        "MAIN {
                bad: 10px;
                height: 10px;
             }",
    );
    assert!(err.contains("invalid property name: 'bad'"), "{err}");
}

#[test]
fn test_stylesheet_parser_err_bad_value() {
    let err = run_stylesheet_err(
        "MAIN {
                height: #fff;
             }",
    );
    assert!(err.contains("invalid property type: color"), "{err}");
}

#[test]
fn test_stylesheet_parser_err_bad_value2() {
    let err = run_stylesheet_err(
        "MAIN {
                color: #fff#;
             }",
    );
    assert!(err.contains("expected semicolon"), "{err}");
}

#[test]
fn test_stylesheet_parser_err_bad_prop2() {
    let err = run_parser_err(style_prop, "colorr: fff;");
    assert!(err.contains("invalid property name:"), "{err}");

    let result = run_parser_err(style_prop_list_items, "colorr: fff;");
    assert!(result.contains("invalid property name:"), "{err}");
}

#[test]
fn a_stylesheet_is_a_list_of_named_styles() {
    let rules = bevy_peacock::parse_stylesheet(
        "// A button.
         BUTTON {
            width: 10px; // wide
            background_color: #fff;
            &:hover { background_color: #eee; width: 12px; border: 1px 2px; }
            .dark > &, &.dark { background_color: #000; }
         }
         EMPTY{}",
    )
    .unwrap();
    assert_eq!(rules.len(), 2);
    assert_eq!(rules[0].0, "BUTTON");
    assert_eq!(rules[1].0, "EMPTY");
    let button = &rules[0].1;
    assert_eq!(button.get_props().len(), 2);
    assert_eq!(button.get_selectors().len(), 2);
    assert_eq!(*button.selectors[0].0, "&:hover".parse().unwrap());
    assert_eq!(button.selectors[0].1.len(), 3);
    assert_eq!(*button.selectors[1].0, ".dark > &, &.dark".parse().unwrap());
    assert_eq!(button.selectors[1].1.len(), 1);
    assert!(matches!(button.props[0], StyleProp::Width(Val::Px(_))));
    assert!(matches!(button.props[1], StyleProp::BackgroundColor(Some(_))));
    assert!(matches!(button.selectors[0].1[2], StyleProp::Border(_)));
    assert_eq!(rules[1].1, StylePropList::from_raw(vec![], vec![]));
    assert_eq!(button.clone(), *button);
}

#[test]
fn stylesheet_errors_give_the_byte_offset() {
    let err = |input: &str| bevy_peacock::parse_stylesheet(input).unwrap_err();
    // The comment holds a character of two bytes.
    assert_eq!(
        err("// é\nA { width: 1px }"),
        ParseError { offset: 21, kind: ParseErrorKind::Expected(Expected::Semicolon) }
    );
    assert_eq!(
        err("A { width: 1px;"),
        ParseError { offset: 15, kind: ParseErrorKind::Expected(Expected::CloseBrace) }
    );
    assert_eq!(
        err("A { .x { width: 1px; "),
        ParseError { offset: 21, kind: ParseErrorKind::Expected(Expected::CloseBrace) }
    );
    assert_eq!(
        err("A {} }"),
        ParseError { offset: 5, kind: ParseErrorKind::Expected(Expected::End) }
    );
    assert_eq!(
        err("A { } 1"),
        ParseError { offset: 6, kind: ParseErrorKind::Expected(Expected::End) }
    );
    assert_eq!(
        err("A { width: bold; }"),
        ParseError {
            offset: 16,
            kind: ParseErrorKind::Invalid(StyleParsingError::InvalidPropertyValue(
                "\"bold\"".into()
            ))
        }
    );
    assert_eq!(
        err("A { width: bold; }").to_string(),
        "invalid property value: \"bold\""
    );
}

#[test]
fn declarations_come_before_selector_blocks() {
    let chars = to_chars("A { .x { width: 1px; } width: 2px; }");
    let failure = stylesheet(&chars).unwrap_err();
    assert_eq!(failure.at, 23);
    assert_eq!(failure.kind, ParseErrorKind::Expected(Expected::CloseBrace));
    assert_eq!(
        failure.report(&chars),
        format!(
            "A {{ .x {{ width: 1px; }} width: 2px; }}\n{}^\nexpected closing brace",
            " ".repeat(23)
        )
    );
}

#[test]
fn a_report_shows_the_line_of_the_failure() {
    let chars = to_chars("A {\n  width: 1px\n}\n");
    let failure = stylesheet(&chars).unwrap_err();
    assert_eq!(failure.at, 17);
    assert_eq!(failure.to_string(), "expected semicolon");
    assert_eq!(failure.report(&chars), "}\n^\nexpected semicolon");
    let failure = Failure { at: 9, kind: ParseErrorKind::Expected(Expected::Digits) };
    assert_eq!(failure.report(&chars), "  width: 1px\n     ^\nexpected digits");
    let failure = Failure { at: 99, kind: ParseErrorKind::Expected(Expected::End) };
    assert_eq!(failure.report(&chars), "\n^\nexpected end of input");
    assert_eq!(Expected::CloseParen.to_string(), "expected closing parenthesis");
    assert_eq!(Expected::Number.to_string(), "expected number");
}

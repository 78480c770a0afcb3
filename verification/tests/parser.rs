use html_query::ast::{Action, Entries, Expression};
use html_query::error::{format_error, ErrorFrame, ErrorKind, ParseError};
use html_query::parser::{expression, object, parse_string};
use scraper::Selector;

fn attribute(name: &str) -> Action {
    Action::Expression(Expression::Attribute(name.to_string()), None)
}

fn selector(compiled_from: &str, text: &str) -> Expression {
    Expression::Selector(Selector::parse(compiled_from).unwrap(), text.to_string())
}

#[test]
fn test_attribute() {
    let expected: Entries = vec![("foo".to_string(), attribute("abc"))];

    assert_eq!(object("{foo: @(abc)}"), Ok(("", expected)));
}

#[test]
fn test_nested_attribute() {
    let expected: Entries = vec![(
        "foo".to_string(),
        Action::Expression(selector(".abc", ".abc "), Some(Box::new(attribute("abc")))),
    )];

    assert_eq!(object("{foo: .abc | @(abc)}"), Ok(("", expected)));
}

#[test]
fn test_nested() {
    let expected: Entries = vec![(
        "foo".to_string(),
        Action::Expression(
            selector(".bar", ".bar "),
            Some(Box::new(Action::ForEachChild(vec![("baz".to_string(), attribute("abc"))]))),
        ),
    )];

    assert_eq!(object("{foo: .bar | [{baz: @(abc)}]}"), Ok(("", expected)));
}

#[test]
fn test_array_attribute() {
    let expected: Entries = vec![(
        "foo".to_string(),
        Action::Expression(
            selector(".bar", ".bar "),
            Some(Box::new(Action::ForEachChildArray(Box::new(attribute("abc"))))),
        ),
    )];

    assert_eq!(object("{foo: .bar | [@(abc)]}"), Ok(("", expected)));
}

#[test]
fn test_array_nested() {
    let expected: Entries = vec![(
        "foo".to_string(),
        Action::Expression(
            selector(".bar", ".bar "),
            Some(Box::new(Action::ForEachChildArray(Box::new(Action::Expression(
                selector(".lol ", ".lol "),
                Some(Box::new(Action::Expression(selector("bar", "bar"), None))),
            ))))),
        ),
    )];

    assert_eq!(object("{foo: .bar | [.lol | bar]}"), Ok(("", expected)));
}

#[test]
fn parses_every_expression() {
    assert_eq!(expression("@parent"), Some(("", Expression::Parent)));
    assert_eq!(expression("  @parent  }"), Some(("}", Expression::Parent)));
    assert_eq!(expression("@text"), Some(("", Expression::Text)));
    assert_eq!(expression("@ text ,"), Some((",", Expression::Text)));
    assert_eq!(expression(" @text"), Some(("", Expression::Text)));
    assert_eq!(expression("@(href)"), Some(("", Expression::Attribute("href".to_string()))));
    assert_eq!(
        expression("@( data-x ) ]"),
        Some(("]", Expression::Attribute("data-x".to_string())))
    );
    assert_eq!(
        expression("@(  data x\t) "),
        Some(("", Expression::Attribute("data x".to_string())))
    );
    assert_eq!(expression("@( )"), Some(("", Expression::Attribute(String::new()))));
    assert_eq!(expression("@()"), Some(("", Expression::Attribute(String::new()))));
    assert_eq!(expression("@sibling(1)"), Some(("", Expression::Sibling(1))));
    assert_eq!(expression("@sibling( 007 ) x"), Some(("x", Expression::Sibling(7))));
    assert_eq!(expression(" @sibling(1)"), Some(("", Expression::Sibling(1))));
    assert_eq!(expression("\n\t@sibling(\n2\n)\n"), Some(("", Expression::Sibling(2))));
    assert_eq!(expression("div > p, x"), Some((", x", selector("div > p", "div > p"))));
    assert_eq!(expression("a]"), Some(("]", selector("a", "a"))));
}

#[test]
fn refuses_what_is_no_expression() {
    assert_eq!(expression(""), None);
    assert_eq!(expression("}"), None);
    assert_eq!(expression("@"), None);
    assert_eq!(expression("@(href"), None);
    assert_eq!(expression("@sibling(x)"), None);
    assert_eq!(expression("@sibling()"), None);
    assert_eq!(expression("@sibling (1)"), None);
    assert_eq!(expression("@ sibling(1)"), None);
    assert_eq!(expression("@sibling(1 2)"), None);
    assert_eq!(expression("..bad"), None);
}

#[test]
fn sibling_offset_zero_is_refused() {
    assert_eq!(expression("@sibling(0)"), None);
    assert_eq!(expression("@sibling(000)"), None);
    assert!(parse_string("{a: @sibling(0)}").is_err());
}

#[test]
fn sibling_offset_beyond_the_machine_is_refused() {
    assert_eq!(expression("@sibling(99999999999999999999999999999999999999999)"), None);
    let largest = format!("@sibling({})", usize::MAX);
    assert_eq!(expression(&largest), Some(("", Expression::Sibling(usize::MAX))));
    assert!(parse_string("{a: @sibling(340282366920938463463374607431768211456)}").is_err());
}

#[test]
fn keys_take_letters_digits_dash_and_underscore() {
    let parsed = parse_string("{a-b_9: @text, \u{e9}t\u{e9}: @text}").unwrap();
    let keys: Vec<&str> = parsed.iter().map(|entry| entry.0.as_str()).collect();
    assert_eq!(keys, vec!["a-b_9", "\u{e9}t\u{e9}"]);
    assert!(parse_string("{a b: @text}").is_err());
    assert!(parse_string("{: @text}").is_err());
    assert!(parse_string("{ : @text}").is_err());
}

#[test]
fn blanks_may_stand_between_a_key_and_its_colon() {
    let expected: Entries =
        vec![("foo".to_string(), Action::Expression(selector("h1", "h1"), None))];
    assert_eq!(object("{foo : h1}"), Ok(("", expected)));
    assert_eq!(parse_string("{a : @text}"), parse_string("{a: @text}"));
    assert_eq!(parse_string("{a \n\t: @text}"), parse_string("{a: @text}"));
    assert_eq!(
        parse_string("{a : b | c , d : e , f\n:\n[ { g : @parent } ]}"),
        parse_string("{a: b | c , d: e , f: [ {g: @parent} ]}")
    );
    assert!(parse_string("{a: b | c , d : e}").is_ok());
}

#[test]
fn entries_keep_their_order_and_their_duplicates() {
    let parsed = parse_string("{b: @text, a: @parent, b: @(x)}").unwrap();
    let expected: Entries = vec![
        ("b".to_string(), Action::Expression(Expression::Text, None)),
        ("a".to_string(), Action::Expression(Expression::Parent, None)),
        ("b".to_string(), attribute("x")),
    ];
    assert_eq!(parsed, expected);
}

#[test]
fn empty_object_and_blanks() {
    assert_eq!(parse_string("{}"), Ok(Vec::new()));
    assert_eq!(parse_string(" \t\r\n{ \n } \n"), Ok(Vec::new()));
    assert_eq!(object("{  }rest"), Ok(("rest", Vec::new())));
}

#[test]
fn nested_objects_and_arrays() {
    let parsed = parse_string("{a: {b: @text}, c: [{d: @parent}], e: [ [ @(f) ] ]}").unwrap();
    let expected: Entries = vec![
        (
            "a".to_string(),
            Action::Child(vec![("b".to_string(), Action::Expression(Expression::Text, None))]),
        ),
        (
            "c".to_string(),
            Action::ForEachChild(vec![(
                "d".to_string(),
                Action::Expression(Expression::Parent, None),
            )]),
        ),
        (
            "e".to_string(),
            Action::ForEachChildArray(Box::new(Action::ForEachChildArray(Box::new(attribute(
                "f",
            ))))),
        ),
    ];
    assert_eq!(parsed, expected);
}

#[test]
fn pipe_before_a_further_entry() {
    let parsed = parse_string("{a: .foo, b: .foo | .bar}").unwrap();
    let expected: Entries = vec![
        ("a".to_string(), Action::Expression(selector(".foo", ".foo"), None)),
        (
            "b".to_string(),
            Action::Expression(
                selector(".foo", ".foo "),
                Some(Box::new(Action::Expression(selector(".bar", ".bar"), None))),
            ),
        ),
    ];
    assert_eq!(parsed, expected);
}

#[test]
fn pipe_chain_of_three() {
    let parsed = parse_string("{a: ul | li | @text , b: @text}").unwrap();
    let expected: Entries = vec![
        (
            "a".to_string(),
            Action::Expression(
                selector("ul", "ul "),
                Some(Box::new(Action::Expression(
                    selector("li", "li "),
                    Some(Box::new(Action::Expression(Expression::Text, None))),
                ))),
            ),
        ),
        ("b".to_string(), Action::Expression(Expression::Text, None)),
    ];
    assert_eq!(parsed, expected);
}

#[test]
fn expression_before_a_pipe_is_read_as_far_as_it_goes() {
    let parsed = parse_string("{x: a] b | @text}").unwrap();
    let expected: Entries = vec![(
        "x".to_string(),
        Action::Expression(
            selector("a", "a"),
            Some(Box::new(Action::Expression(Expression::Text, None))),
        ),
    )];
    assert_eq!(parsed, expected);
}

#[test]
fn comma_in_a_selector_is_refused() {
    assert!(parse_string("{a: h1, h2}").is_err());
    assert!(parse_string("{a: h1, h2 | @text}").is_err());
}

#[test]
fn malformed_query_is_a_syntax_error() {
    let error = parse_string("{foo: }").unwrap_err();
    assert_eq!(
        error,
        ParseError {
            frames: vec![
                ErrorFrame { position: 1, kind: ErrorKind::Char('}') },
                ErrorFrame { position: 0, kind: ErrorKind::Context("map") },
            ],
        }
    );
}

#[test]
fn missing_opening_brace() {
    let error = parse_string("  foo: h1}").unwrap_err();
    assert_eq!(
        error,
        ParseError {
            frames: vec![
                ErrorFrame { position: 2, kind: ErrorKind::Char('{') },
                ErrorFrame { position: 2, kind: ErrorKind::Context("map") },
            ],
        }
    );
    assert_eq!(object(" {}"), Ok(("", Vec::new())));
    assert!(object(" x{}").is_err());
    assert!(parse_string("").is_err());
}

#[test]
fn unterminated_object_and_array() {
    assert!(parse_string("{foo: h1").is_err());
    assert!(parse_string("{foo: [@text}").is_err());
    assert!(parse_string("{foo: [@text").is_err());
    assert!(parse_string("{foo: [{a: h1}}").is_err());
    assert!(parse_string("{foo: h1,}").is_err());
    assert!(parse_string("{foo: h1 |}").is_err());
}

#[test]
fn trailing_text_is_refused() {
    let error = parse_string("{foo: h1} x").unwrap_err();
    assert_eq!(
        error,
        ParseError { frames: vec![ErrorFrame { position: 10, kind: ErrorKind::Eof }] }
    );
    assert!(parse_string("{foo: h1}{}").is_err());
}

#[test]
fn parsing_twice_gives_equal_queries() {
    let text = "{foo: .bar | [{baz: @(abc), t: span | @text}], n: @sibling(2)}";
    assert_eq!(parse_string(text), parse_string(text));
    assert_eq!(parse_string("{foo: }"), parse_string("{foo: }"));
}

#[test]
fn diagnostic_shows_line_and_caret() {
    let query = "{foo: }";
    let error = parse_string(query).unwrap_err();
    assert_eq!(
        format_error(query, error),
        "0: at line 1:\n{foo: }\n ^\nexpected '}', found f\n\n\
         1: at line 1, in map:\n{foo: }\n^\n\n"
    );
}

#[test]
fn failing_entry_is_reported_at_its_start() {
    let query = "{\n  a: h1,\n  \u{e9}: !\n}";
    let error = parse_string(query).unwrap_err();
    assert_eq!(error.frames[0], ErrorFrame { position: 9, kind: ErrorKind::Char('}') });
    assert_eq!(
        format_error(query, error),
        "0: at line 2:\n  a: h1,\n       ^\nexpected '}', found ,\n\n\
         1: at line 1, in map:\n{\n^\n\n"
    );
}

#[test]
fn diagnostic_counts_places_in_characters() {
    let query = "{\u{e9}: h1} \u{e9}";
    let error = parse_string(query).unwrap_err();
    assert_eq!(
        error,
        ParseError { frames: vec![ErrorFrame { position: 8, kind: ErrorKind::Eof }] }
    );
    assert_eq!(
        format_error(query, error),
        "0: at line 1, in Eof:\n{\u{e9}: h1} \u{e9}\n         ^\n\n"
    );
}

#[test]
fn bracket_that_scraper_takes_for_a_selector() {
    let parsed = parse_string("{foo: [h1}").unwrap();
    let expected: Entries =
        vec![("foo".to_string(), Action::Expression(selector("[h1]", "[h1"), None))];
    assert_eq!(parsed, expected);
}

#[test]
fn diagnostic_at_the_end_of_the_query() {
    let query = "{a: b";
    let error = parse_string(query).unwrap_err();
    assert_eq!(
        format_error(query, error),
        "0: at line 1:\n{a: b\n     ^\nexpected '}', got end of input\n\n\
         1: at line 1, in map:\n{a: b\n^\n\n"
    );
    let error = parse_string("").unwrap_err();
    assert_eq!(
        format_error("", error),
        "0: expected '{', got empty input\n\n1: in map, got empty input\n\n"
    );
    let error = parse_string("{} x").unwrap_err();
    assert_eq!(format_error("{} x", error), "0: at line 1, in Eof:\n{} x\n   ^\n\n");
}

#[test]
fn accepts_these_layouts() {
    let accepted = [
        ("{a:b}", ""),
        ("{a: b , c: d}", ""),
        ("{a: b |c, d: e}", ""),
        ("{a: b\n| c}", ""),
        ("{a: [ b ]}", ""),
        ("{a: [{c: d} ]}", ""),
        ("{a: [ {c: d}] }", ""),
        ("{a: [[{b: c}]]}", ""),
        ("{a: @ text}", ""),
        ("{a: @(})}", ""),
        ("{a: @parent | b}", ""),
        ("{a: @sibling( 1 ) | @text}", ""),
        ("{a:\nb\n}", ""),
        ("{a: a[href] | @(href)}", ""),
        ("{a: b}}", "}"),
        ("{a: b}x", "x"),
        ("{} ", ""),
        (" {}", ""),
        ("\n{ a : b }\n{}", "{}"),
        ("{a : b}", ""),
        ("{a: b | c , d : e}", ""),
        ("{a: @( x ) , b: @sibling( 1 )}", ""),
        ("{a: a[href='x}y']}", "y']}"),
    ];
    for (query, rest) in accepted {
        match object(query) {
            Ok((left, _)) => assert_eq!(left, rest, "after {:?}", query),
            Err(error) => panic!("{:?} was refused: {:?}", query, error),
        }
    }
}

#[test]
fn refuses_these_layouts() {
    let refused = [
        ("", 0, '{'),
        ("}", 0, '{'),
        ("{", 1, '}'),
        ("{a}", 1, '}'),
        ("{a:}", 1, '}'),
        ("{a b: c}", 1, '}'),
        ("{a: b,}", 5, '}'),
        ("{a: b c: d}", 1, '}'),
        ("{a: b | }", 1, '}'),
        ("{a: | b}", 1, '}'),
        ("{a: b || c}", 1, '}'),
        ("{a: b, c | d}", 5, '}'),
        ("{a: [{c: d}, {e: f}]}", 1, '}'),
        ("{a: {b: c} | d}", 11, '}'),
        ("{a: @parentx}", 11, '}'),
        ("{a: @textx}", 9, '}'),
        ("{a: @(x}", 1, '}'),
        ("{a: @(x) y}", 9, '}'),
        ("{a: b | d]}", 9, '}'),
        ("{a: [b, c]}", 6, '}'),
        ("{a: {b: c}", 10, '}'),
        ("{a: a[href]}", 10, '}'),
    ];
    for (query, position, missed) in refused {
        let expected = ParseError {
            frames: vec![
                ErrorFrame { position, kind: ErrorKind::Char(missed) },
                ErrorFrame { position: 0, kind: ErrorKind::Context("map") },
            ],
        };
        assert_eq!(object(query), Err(expected), "on {:?}", query);
    }
}

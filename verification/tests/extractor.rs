use html_query::ast::{Action, Expression};
use html_query::extractor::{
    convert_to_output, element_siblings, element_text, extract, handle_expression, joined_text,
    ExpressionError,
};
use html_query::parser::parse_string;
use html_query::text::trim_whitespace;
use scraper::{Html, Selector};
use serde_json::Value;

const WHITESPACE: &str = "<!DOCTYPE html>
<html lang=\"en\">
<head>
    <title>Whitespace</title>
</head>
<body>
<h1>
    This is some whitespace
</h1>
</body>
</html>
";

fn object_of(fields: Vec<(&str, Value)>) -> Value {
    let mut map = serde_json::Map::new();
    for (key, value) in fields {
        map.insert(key.to_string(), value);
    }
    Value::Object(map)
}

fn text(value: &str) -> Value {
    Value::String(value.to_string())
}

fn run(query: &str, document: &str) -> Value {
    extract(document, &parse_string(query).unwrap())
}

#[test]
fn main_test_parse_whitespace() {
    let html = WHITESPACE;
    let expr = parse_string("{foo: h1}").unwrap();
    assert_eq!(extract(html, &expr), object_of(vec![("foo", text("This is some whitespace"))]))
}

#[test]
fn heading_is_trimmed() {
    assert_eq!(
        run("{foo: h1}", "<h1>  This is some whitespace  </h1>"),
        object_of(vec![("foo", text("This is some whitespace"))])
    );
}

#[test]
fn attribute_of_the_root() {
    let fragment = Html::parse_fragment("<a href=\"x\">t</a>");
    let anchor = fragment.select(&Selector::parse("a").unwrap()).next().unwrap();
    let query = parse_string("{foo: @(href)}").unwrap();
    assert_eq!(
        convert_to_output(&Action::Child(query), &vec![anchor]),
        object_of(vec![("foo", text("x"))])
    );

    let fragment = Html::parse_fragment("<a>t</a>");
    let anchor = fragment.select(&Selector::parse("a").unwrap()).next().unwrap();
    let query = parse_string("{foo: @(href)}").unwrap();
    assert_eq!(
        convert_to_output(&Action::Child(query), &vec![anchor]),
        object_of(vec![("foo", Value::Null)])
    );
}

#[test]
fn attribute_after_a_selector() {
    assert_eq!(
        run("{foo: a | @(href)}", "<a href=\" x \n\">t</a>"),
        object_of(vec![("foo", text("x"))])
    );
    assert_eq!(run("{foo: a | @(href)}", "<a>t</a>"), object_of(vec![("foo", Value::Null)]));
    assert_eq!(
        run("{foo: a | @(HREF)}", "<a href=\"x\">t</a>"),
        object_of(vec![("foo", Value::Null)])
    );
}

#[test]
fn one_object_for_each_match() {
    assert_eq!(
        run(
            "{foo: span | [{baz: @(abc)}]}",
            "<div class=\"bar\"><span abc=\"1\"></span><span abc=\"2\"></span></div>"
        ),
        object_of(vec![(
            "foo",
            Value::Array(vec![
                object_of(vec![("baz", text("1"))]),
                object_of(vec![("baz", text("2"))]),
            ])
        )])
    );
}

#[test]
fn for_each_works_on_the_matches_not_below_them() {
    assert_eq!(
        run(
            "{foo: .bar | [{baz: @(abc)}]}",
            "<div class=\"bar\"><span abc=\"1\"></span><span abc=\"2\"></span></div>"
        ),
        object_of(vec![("foo", Value::Array(vec![object_of(vec![("baz", Value::Null)])]))])
    );
    assert_eq!(
        run(
            "{foo: .bar | [{baz: @(abc)}]}",
            "<div><span class=\"bar\" abc=\"1\"></span>\
             <span class=\"bar\" abc=\"2\"></span></div>"
        ),
        object_of(vec![(
            "foo",
            Value::Array(vec![
                object_of(vec![("baz", text("1"))]),
                object_of(vec![("baz", text("2"))]),
            ])
        )])
    );
}

#[test]
fn for_each_on_the_matches_of_a_class() {
    assert_eq!(
        run(
            "{foo: .bar | [{baz: @(abc)}]}",
            "<div class=\"bar\" abc=\"0\"><span abc=\"1\"></span>\
             <span class=\"bar\" abc=\"2\"></span></div>"
        ),
        object_of(vec![(
            "foo",
            Value::Array(vec![
                object_of(vec![("baz", text("0"))]),
                object_of(vec![("baz", text("2"))]),
            ])
        )])
    );
}

#[test]
fn blanks_in_a_query_change_nothing() {
    let document = "<h1> Title </h1><ul><li id=\"a\">1</li><li href=\"x\">2</li></ul>";
    assert_eq!(run("{foo : h1}", document), run("{foo: h1}", document));
    assert_eq!(run("{foo : h1}", document), object_of(vec![("foo", text("Title"))]));
    assert_eq!(
        run(" { a : li | [ @( href ) ] , b : #a | @sibling( 1 ) | @ text } ", document),
        object_of(vec![("a", Value::Array(vec![Value::Null, text("x")])), ("b", text("2"))])
    );
}

#[test]
fn missing_selector_gives_null() {
    assert_eq!(
        run("{foo: .missing}", "<p class=\"here\">x</p>"),
        object_of(vec![("foo", Value::Null)])
    );
    assert_eq!(run("{foo: .missing}", ""), object_of(vec![("foo", Value::Null)]));
}

#[test]
fn a_miss_leaves_the_other_fields_alone() {
    assert_eq!(
        run(
            "{a: h1, b: .missing | [@text], c: {d: .missing, e: p}}",
            "<h1>Title</h1><p>Body</p>"
        ),
        object_of(vec![
            ("a", text("Title")),
            ("b", Value::Null),
            ("c", object_of(vec![("d", Value::Null), ("e", text("Body"))])),
        ])
    );
}

#[test]
fn output_has_the_keys_of_the_query() {
    let query = "{one: h1, two: .missing, three: [@text], four: {}, five: [{}]}";
    for document in ["", "<h1>x</h1>", "<div><p>text</p></div>", "not html at all <<<"] {
        match run(query, document) {
            Value::Object(fields) => {
                let keys: Vec<&str> = fields.keys().map(|key| key.as_str()).collect();
                assert_eq!(keys, vec!["five", "four", "one", "three", "two"]);
            }
            other => panic!("not an object: {}", other),
        }
    }
}

#[test]
fn last_entry_of_a_key_counts() {
    assert_eq!(
        run("{a: h1, a: p}", "<h1>first</h1><p>second</p>"),
        object_of(vec![("a", text("second"))])
    );
}

#[test]
fn arrays_keep_the_order_of_the_document() {
    let document = "<ul><li>c</li><li>a</li><li>b</li></ul>";
    assert_eq!(
        run("{items: li | [@text]}", document),
        object_of(vec![("items", Value::Array(vec![text("c"), text("a"), text("b")]))])
    );
    assert_eq!(
        run("{items: li | [{t: @text}]}", document),
        object_of(vec![(
            "items",
            Value::Array(vec![
                object_of(vec![("t", text("c"))]),
                object_of(vec![("t", text("a"))]),
                object_of(vec![("t", text("b"))]),
            ])
        )])
    );
}

#[test]
fn selector_without_a_pipe_takes_the_first_match() {
    assert_eq!(
        run("{x: li}", "<ul><li> one </li><li>two</li></ul>"),
        object_of(vec![("x", text("one"))])
    );
}

#[test]
fn selector_looks_below_the_first_root_only() {
    let fragment = Html::parse_fragment("<div><p>a</p></div><div><p>b</p><p>c</p></div>");
    let divs: Vec<_> = fragment.select(&Selector::parse("div").unwrap()).collect();
    assert_eq!(divs.len(), 2);
    let query = parse_string("{x: p | [@text]}").unwrap();
    assert_eq!(
        convert_to_output(&Action::Child(query), &divs),
        object_of(vec![("x", Value::Array(vec![text("a")]))])
    );
}

#[test]
fn text_joins_the_text_nodes_below() {
    assert_eq!(
        run("{x: div | @text}", "<div> a<b> b <i>c</i></b><!-- no -->d </div>"),
        object_of(vec![("x", text("a b cd"))])
    );
    let fragment = Html::parse_fragment("<p>\u{a0}\u{2003}x\u{3000}y\u{85}\n</p>");
    let p = fragment.select(&Selector::parse("p").unwrap()).next().unwrap();
    assert_eq!(element_text(p), "x\u{3000}y");
}

#[test]
fn text_and_attribute_do_not_look_past_the_pipe() {
    assert_eq!(
        run("{x: p | @text | .missing, y: p | @(id) | @parent}", "<p id=\"i\">t</p>"),
        object_of(vec![("x", text("t")), ("y", text("i"))])
    );
}

#[test]
fn parent_of_an_element() {
    let document = "<div id=\"outer\"><p><b>x</b> y</p></div>";
    assert_eq!(run("{x: b | @parent}", document), object_of(vec![("x", text("x y"))]));
    assert_eq!(
        run("{x: b | @parent | @parent | @(id)}", document),
        object_of(vec![("x", text("outer"))])
    );
}

#[test]
fn parent_of_the_root_is_a_miss() {
    assert_eq!(
        run("{x: @parent, y: @parent | @text, z: p}", "<p>t</p>"),
        object_of(vec![("x", Value::Null), ("y", Value::Null), ("z", text("t"))])
    );
}

#[test]
fn sibling_counts_elements_only() {
    let document = "<ul><li id=\"a\">1</li> text <!-- c --><li>2</li>\n<li>3</li></ul>";
    assert_eq!(run("{x: #a | @sibling(1)}", document), object_of(vec![("x", text("2"))]));
    assert_eq!(run("{x: #a | @sibling(2)}", document), object_of(vec![("x", text("3"))]));
    assert_eq!(
        run("{x: #a | @sibling(1) | @sibling(1) | @text}", document),
        object_of(vec![("x", text("3"))])
    );
    let fragment = Html::parse_fragment(document);
    let first = fragment.select(&Selector::parse("#a").unwrap()).next().unwrap();
    let texts: Vec<String> = element_siblings(first).into_iter().map(element_text).collect();
    assert_eq!(texts, vec!["2", "3"]);
}

#[test]
fn sibling_beyond_the_last_is_a_miss() {
    let document = "<ul><li id=\"a\">1</li><li>2</li></ul>";
    assert_eq!(
        run("{x: #a | @sibling(2), y: #a | @sibling(1)}", document),
        object_of(vec![("x", Value::Null), ("y", text("2"))])
    );
    let fragment = Html::parse_fragment(document);
    let first = fragment.select(&Selector::parse("#a").unwrap()).next().unwrap();
    assert_eq!(
        handle_expression(&vec![first], &Expression::Sibling(0), &None),
        Err(ExpressionError::EmptyRoot)
    );
    assert_eq!(
        handle_expression(&vec![first], &Expression::Sibling(3), &None),
        Err(ExpressionError::EmptyRoot)
    );
}

#[test]
fn each_miss_has_its_error() {
    let fragment = Html::parse_fragment("<p>t</p>");
    let root = fragment.root_element();
    let missing =
        Expression::Selector(Selector::parse(".missing").unwrap(), ".missing ".to_string());
    assert_eq!(
        handle_expression(&vec![root], &missing, &None),
        Err(ExpressionError::EmptySelector(".missing ".to_string()))
    );
    assert_eq!(
        handle_expression(&vec![root], &Expression::Parent, &None),
        Err(ExpressionError::EmptyRoot)
    );
    for expression in [Expression::Text, Expression::Parent, Expression::Sibling(1)] {
        assert_eq!(
            handle_expression(&Vec::new(), &expression, &None),
            Err(ExpressionError::EmptyRoot)
        );
    }
    assert_eq!(
        handle_expression(&Vec::new(), &Expression::Attribute("a".to_string()), &None),
        Err(ExpressionError::EmptyRoot)
    );
    assert_eq!(handle_expression(&Vec::new(), &missing, &None), Err(ExpressionError::EmptyRoot));
    assert_eq!(handle_expression(&vec![root], &Expression::Text, &None), Ok(text("t")));
}

#[test]
fn messages_of_the_errors() {
    assert_eq!(
        ExpressionError::EmptySelector(".a".to_string()).message(),
        "Selector `.a returned no results"
    );
    assert_eq!(ExpressionError::EmptyRoot.message(), "Unexpected empty root node");
}

#[test]
fn no_roots_give_empty_arrays_and_nulls() {
    let query = parse_string("{a: [@text], b: [{c: @text}], d: @text, e: {f: p}}").unwrap();
    assert_eq!(
        convert_to_output(&Action::Child(query), &Vec::new()),
        object_of(vec![
            ("a", Value::Array(Vec::new())),
            ("b", Value::Array(Vec::new())),
            ("d", Value::Null),
            ("e", object_of(vec![("f", Value::Null)])),
        ])
    );
}

#[test]
fn nested_object_works_on_the_same_root() {
    assert_eq!(
        run(
            "{page: {title: h1, links: a | [@(href)]}}",
            "<h1>T</h1><a href=\"/1\">1</a><a href=\"/2\">2</a>"
        ),
        object_of(vec![(
            "page",
            object_of(vec![
                ("links", Value::Array(vec![text("/1"), text("/2")])),
                ("title", text("T")),
            ])
        )])
    );
}

#[test]
fn joins_then_trims() {
    let pieces: Vec<String> =
        [" \n", " a ", "", "b", " "].iter().map(|piece| piece.to_string()).collect();
    assert_eq!(joined_text(&pieces), "a b");
    assert_eq!(joined_text(&Vec::new()), "");
}

#[test]
fn trims_whitespace_of_every_kind() {
    assert_eq!(trim_whitespace("  a b \n".to_string()), "a b");
    assert_eq!(trim_whitespace("\u{a0}\u{2003}x\u{3000}".to_string()), "x");
    assert_eq!(trim_whitespace(" \t\r\n".to_string()), "");
    assert_eq!(trim_whitespace(String::new()), "");
    assert_eq!(trim_whitespace("\u{e9}".to_string()), "\u{e9}");
    assert_eq!(trim_whitespace("\u{200b}x\u{200b}".to_string()), "\u{200b}x\u{200b}");
}

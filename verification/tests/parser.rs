use markup_ast::start_parse;
use markup_ast::Attribute;
use markup_ast::Body;
use markup_ast::Cursor;
use markup_ast::Node;
use markup_ast::ParseError;
use markup_ast::Value;

fn parse_ok(text: &str) -> Node {
    start_parse(text.to_string()).expect("expected a successful parse")
}

fn parse_err(text: &str) -> ParseError {
    start_parse(text.to_string()).expect_err("expected a failed parse")
}

fn child(node: &Node, i: usize) -> &Node {
    match &node.children[i] {
        Body::Child(n) => n,
        Body::Text(t) => panic!("expected a child node, found text {:?}", t),
    }
}

fn text(node: &Node, i: usize) -> &str {
    match &node.children[i] {
        Body::Text(t) => t,
        Body::Child(_) => panic!("expected text, found a child node"),
    }
}

#[test]
fn empty_element() {
    let root = parse_ok("<div></div>");
    assert_eq!(root.name, "div");
    assert_eq!(root.id, 0);
    assert_eq!(root.parent_id, None);
    assert!(root.children.is_empty());
    assert!(root.attributes.is_empty());
}

#[test]
fn literal_attribute_and_text() {
    let root = parse_ok("<div class=\"a\">text</div>");
    assert_eq!(root.name, "div");
    assert_eq!(
        root.attributes,
        vec![Attribute { id: 0, name: "class".to_string(), value: Some(Value::Literal("a".to_string())) }]
    );
    assert_eq!(root.children.len(), 1);
    assert_eq!(text(&root, 0), "text");
}

#[test]
fn self_closing() {
    let root = parse_ok("<br/>");
    assert_eq!(root.name, "br");
    assert!(root.children.is_empty());
    assert!(root.attributes.is_empty());
}

#[test]
fn nested_child_ids() {
    let root = parse_ok("<a><b/></a>");
    assert_eq!(root.id, 0);
    assert_eq!(root.name, "a");
    assert_eq!(root.children.len(), 1);
    let b = child(&root, 0);
    assert_eq!(b.name, "b");
    assert_eq!(b.id, 1);
    assert_eq!(b.parent_id, Some(0));
}

#[test]
fn closing_tag_mismatch() {
    let err = parse_err("<a></b>");
    assert_eq!(
        err,
        ParseError::ClosingTagMismatch { expected: "a".to_string(), found: "b".to_string() }
    );
}

#[test]
fn variable_reference_attribute() {
    let root = parse_ok("<a x={y}/>");
    assert_eq!(
        root.attributes,
        vec![Attribute { id: 0, name: "x".to_string(), value: Some(Value::VariableReference("y".to_string())) }]
    );
}

#[test]
fn reparsing_is_deterministic() {
    let input = "<a one=\"1\" two={v}>  first <b inner/> second  </a>";
    let first = parse_ok(input);
    let second = parse_ok(input);
    assert_eq!(first, second);
}

#[test]
fn whitespace_only_text_is_dropped() {
    let root = parse_ok("<a>   \t\n  <b/>  </a>");
    assert_eq!(root.children.len(), 1);
    assert_eq!(child(&root, 0).name, "b");
}

#[test]
fn text_is_trimmed_but_interior_whitespace_kept() {
    let root = parse_ok("<a>  hello \t world  </a>");
    assert_eq!(root.children.len(), 1);
    assert_eq!(text(&root, 0), "hello \t world");
}

#[test]
fn ids_increase_in_preorder() {
    let root = parse_ok("<a><b><c/></b><d/></a>");
    assert_eq!(root.id, 0);
    let b = child(&root, 0);
    let c = child(b, 0);
    let d = child(&root, 1);
    assert_eq!(b.id, 1);
    assert_eq!(c.id, 2);
    assert_eq!(d.id, 3);
    assert_eq!(b.parent_id, Some(0));
    assert_eq!(c.parent_id, Some(1));
    assert_eq!(d.parent_id, Some(0));
}

#[test]
fn valueless_attribute_is_distinct_from_empty_literal() {
    let root = parse_ok("<a checked empty=\"\"/>");
    assert_eq!(root.attributes.len(), 2);
    assert_eq!(root.attributes[0].id, 0);
    assert_eq!(root.attributes[0].name, "checked");
    assert_eq!(root.attributes[0].value, None);
    assert_eq!(root.attributes[1].id, 1);
    assert_eq!(root.attributes[1].name, "empty");
    assert_eq!(root.attributes[1].value, Some(Value::Literal(String::new())));
}

#[test]
fn attribute_ids_follow_encounter_order() {
    let root = parse_ok("<a x=\"1\" y={v} z/>");
    let ids: Vec<usize> = root.attributes.iter().map(|a| a.id).collect();
    assert_eq!(ids, vec![0, 1, 2]);
    let names: Vec<&str> = root.attributes.iter().map(|a| a.name.as_str()).collect();
    assert_eq!(names, vec!["x", "y", "z"]);
}

#[test]
fn attribute_value_keeps_inner_whitespace() {
    let root = parse_ok("<a x=\"a b\"/>");
    assert_eq!(root.attributes[0].value, Some(Value::Literal("a b".to_string())));
}

#[test]
fn unexpected_end_of_input() {
    assert_eq!(parse_err(""), ParseError::UnexpectedEndOfInput);
    assert_eq!(parse_err("<a"), ParseError::UnexpectedEndOfInput);
    assert_eq!(parse_err("<a>"), ParseError::UnexpectedEndOfInput);
    assert_eq!(parse_err("<a></a"), ParseError::UnexpectedEndOfInput);
    assert_eq!(parse_err("<a x=\"unclosed"), ParseError::UnexpectedEndOfInput);
}

#[test]
fn unexpected_character() {
    assert_eq!(parse_err("x<a/>"), ParseError::UnexpectedCharacter);
    assert_eq!(parse_err("<<a/>"), ParseError::UnexpectedCharacter);
    assert_eq!(parse_err(">"), ParseError::UnexpectedCharacter);
}

#[test]
fn attribute_syntax_errors() {
    // `=` must be immediately followed by `"` or `{`
    assert_eq!(parse_err("<a x=y/>"), ParseError::AttributeSyntaxError);
    assert_eq!(parse_err("<a x= \"v\"/>"), ParseError::AttributeSyntaxError);
    // delimiter of the wrong kind for the open value
    assert_eq!(parse_err("<a x=\"v}/>"), ParseError::AttributeSyntaxError);
    assert_eq!(parse_err("<a x={v\"/>"), ParseError::AttributeSyntaxError);
    // a brace with no value open
    assert_eq!(parse_err("<a x}/>"), ParseError::AttributeSyntaxError);
}

#[test]
fn whitespace_in_closing_tag_is_ignored() {
    let root = parse_ok("<a></ a >");
    assert_eq!(root.name, "a");
}

#[test]
fn lone_slash_in_body_is_dropped() {
    let root = parse_ok("<a>x/y</a>");
    assert_eq!(text(&root, 0), "xy");
}

#[test]
fn leading_whitespace_before_root() {
    let root = parse_ok("  \n <a/>");
    assert_eq!(root.name, "a");
}

#[test]
fn characters_after_root_are_ignored() {
    let root = parse_ok("<a/>trailing");
    assert_eq!(root.name, "a");
    assert!(root.children.is_empty());
}

#[test]
fn parse_with_explicit_ids() {
    let chars: Vec<char> = "<a><b/></a>".chars().collect();
    let mut cursor = Cursor::new(chars);
    let (node, next_id) = markup_ast::parse(&mut cursor, Some(7), 8).expect("parse failed");
    assert_eq!(node.id, 8);
    assert_eq!(node.parent_id, Some(7));
    assert_eq!(child(&node, 0).id, 9);
    assert_eq!(child(&node, 0).parent_id, Some(8));
    assert_eq!(next_id, 10);
}

#[test]
fn mixed_body_order_is_kept() {
    let root = parse_ok("<a>one<b/>two<c/>three</a>");
    assert_eq!(root.children.len(), 5);
    assert_eq!(text(&root, 0), "one");
    assert_eq!(child(&root, 1).name, "b");
    assert_eq!(text(&root, 2), "two");
    assert_eq!(child(&root, 3).name, "c");
    assert_eq!(text(&root, 4), "three");
}

#[test]
fn nested_mismatch_aborts_whole_parse() {
    let err = parse_err("<a><b></c></a>");
    assert_eq!(
        err,
        ParseError::ClosingTagMismatch { expected: "b".to_string(), found: "c".to_string() }
    );
}

#[test]
fn self_closing_with_attributes() {
    let root = parse_ok("<img src=\"pic\" alt={desc}/>");
    assert_eq!(root.name, "img");
    assert_eq!(root.attributes.len(), 2);
    assert!(root.children.is_empty());
}

#[test]
fn deeply_nested_ids_and_parents() {
    let root = parse_ok("<a><b><c><d/></c></b></a>");
    let b = child(&root, 0);
    let c = child(b, 0);
    let d = child(c, 0);
    assert_eq!((root.id, b.id, c.id, d.id), (0, 1, 2, 3));
    assert_eq!(d.parent_id, Some(2));
}

#[test]
fn sibling_after_nested_subtree_gets_fresh_id() {
    let root = parse_ok("<a><b><c/><d/></b><e/></a>");
    let b = child(&root, 0);
    let c = child(b, 0);
    let d = child(b, 1);
    let e = child(&root, 1);
    assert_eq!((b.id, c.id, d.id, e.id), (1, 2, 3, 4));
}

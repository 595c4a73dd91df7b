use exprlang::xmlout::render_events;
use exprlang::{Parser, SerializeError, Tokenizer, XmlOut};

fn parse(text: &str) -> exprlang::Expression {
    *Parser::new(Tokenizer::new(text.chars().collect()))
        .parse()
        .expect("parse must succeed")
}

fn start(name: &str, location: &str) -> XmlOut {
    XmlOut::Start {
        name: name.to_string(),
        attr_name: "location".to_string(),
        attr_value: location.to_string(),
    }
}

fn characters(text: &str) -> XmlOut {
    XmlOut::Characters {
        text: text.to_string(),
    }
}

#[test]
fn addition_serializes_left_then_right() {
    let tree = parse("2 + 3");
    let events = tree.xml_events();
    let expected = vec![
        start("Add", "1:1"),
        start("Integer", "1:1"),
        characters("2"),
        XmlOut::End,
        start("Integer", "1:5"),
        characters("3"),
        XmlOut::End,
        XmlOut::End,
    ];
    assert_eq!(events, expected);
}

#[test]
fn addition_renders_nested_elements_in_order() {
    let tree = parse("2 + 3");
    let text = tree.serialize().expect("rendering must succeed");
    let add_open = text.find("<Add location=\"1:1\">").expect("Add element");
    let left = text
        .find("<Integer location=\"1:1\">2</Integer>")
        .expect("left operand");
    let right = text
        .find("<Integer location=\"1:5\">3</Integer>")
        .expect("right operand");
    let add_close = text.find("</Add>").expect("Add close");
    assert!(add_open < left);
    assert!(left < right);
    assert!(right < add_close);
}

#[test]
fn bare_literal_renders_one_integer_element() {
    let tree = parse("42");
    let text = tree.serialize().expect("rendering must succeed");
    assert!(text.contains("<Integer location=\"1:1\">42</Integer>"));
    assert!(!text.contains("<Add"));
    assert!(!text.contains("<Subtract"));
    assert!(!text.contains("<Multiply"));
    assert!(!text.contains("<Divide"));
}

#[test]
fn every_operation_renders_its_own_element_name() {
    for (source, name) in [
        ("1 + 2", "Add"),
        ("1 - 2", "Subtract"),
        ("1 * 2", "Multiply"),
        ("1 / 2", "Divide"),
    ] {
        let text = parse(source).serialize().expect("rendering must succeed");
        assert!(text.contains(&format!("<{} location=\"1:1\">", name)));
        assert!(text.contains(&format!("</{}>", name)));
    }
}

#[test]
fn nested_operations_nest_their_elements() {
    let tree = parse("2 + 3 * 4");
    let text = tree.serialize().expect("rendering must succeed");
    let add_open = text.find("<Add location=\"1:1\">").expect("Add element");
    let mul_open = text
        .find("<Multiply location=\"1:5\">")
        .expect("Multiply element");
    let mul_close = text.find("</Multiply>").expect("Multiply close");
    let add_close = text.find("</Add>").expect("Add close");
    assert!(add_open < mul_open);
    assert!(mul_open < mul_close);
    assert!(mul_close < add_close);
}

#[test]
fn stray_end_event_is_refused() {
    let events = vec![XmlOut::End];
    assert_eq!(render_events(&events), Err(SerializeError::Emit));
}

#[test]
fn well_nested_events_always_render() {
    let events = vec![
        start("Integer", "1:1"),
        characters("5"),
        XmlOut::End,
    ];
    let text = render_events(&events).expect("well-nested events must render");
    assert!(text.contains("<Integer location=\"1:1\">5</Integer>"));
}

#[test]
fn literal_serializes_alone() {
    let tree = parse("7");
    let lit = match &tree.node {
        exprlang::ExpressionKind::Literal(lit) => (**lit).clone(),
        _ => panic!("expected a literal"),
    };
    let text = lit.serialize().expect("rendering must succeed");
    assert!(text.contains("<Integer location=\"1:1\">7</Integer>"));
}

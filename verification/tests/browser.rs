use vos::userspace::programs::browser::{Browser, Element, HtmlParser};

#[test]
fn test_parse_text() {
    let mut parser = HtmlParser::new("Hello World");
    let elements = parser.parse().unwrap();

    assert_eq!(elements.len(), 1);
    assert_eq!(elements[0], Element::Text("Hello World".to_string()));
}

#[test]
fn test_parse_simple_tag() {
    let mut parser = HtmlParser::new("<p>Hello</p>");
    let elements = parser.parse().unwrap();

    assert_eq!(elements.len(), 1);
    match &elements[0] {
        Element::Tag { name, children, .. } => {
            assert_eq!(name, "p");
            assert_eq!(children.len(), 1);
        }
        _ => panic!("Expected tag"),
    }
}

#[test]
fn test_parse_nested_tags() {
    let html = "<html><body><h1>Title</h1><p>Text</p></body></html>";
    let mut parser = HtmlParser::new(html);
    let elements = parser.parse().unwrap();

    assert_eq!(elements.len(), 1);
}

#[test]
fn test_parse_with_attributes() {
    let html = r#"<a href="http://example.com">Link</a>"#;
    let mut parser = HtmlParser::new(html);
    let elements = parser.parse().unwrap();

    match &elements[0] {
        Element::Tag {
            name, attributes, ..
        } => {
            assert_eq!(name, "a");
            assert_eq!(attributes.len(), 1);
            assert_eq!(attributes[0].0, "href");
            assert_eq!(attributes[0].1, "http://example.com");
        }
        _ => panic!("Expected tag"),
    }
}

#[test]
fn test_self_closing_tag() {
    let mut parser = HtmlParser::new("<br/>");
    let elements = parser.parse().unwrap();

    match &elements[0] {
        Element::Tag {
            name, children, ..
        } => {
            assert_eq!(name, "br");
            assert_eq!(children.len(), 0);
        }
        _ => panic!("Expected tag"),
    }
}

#[test]
fn test_render() {
    let elements = vec![Element::Tag {
        name: "p".to_string(),
        attributes: vec![],
        children: vec![Element::Text("Hello".to_string())],
    }];

    let output = Browser::render(&elements);
    assert!(output.contains("<p>"));
    assert!(output.contains("Hello"));
}

#[test]
fn test_extract_text() {
    let elements = vec![Element::Tag {
        name: "div".to_string(),
        attributes: vec![],
        children: vec![
            Element::Tag {
                name: "h1".to_string(),
                attributes: vec![],
                children: vec![Element::Text("Title".to_string())],
            },
            Element::Tag {
                name: "p".to_string(),
                attributes: vec![],
                children: vec![Element::Text("Content".to_string())],
            },
        ],
    }];

    let text = Browser::extract_text(&elements);
    assert!(text.contains("Title"));
    assert!(text.contains("Content"));
}

#[test]
fn render_indents_children() {
    let mut parser = HtmlParser::new("<div><p>Hi</p> tail</div>");
    let elements = parser.parse().unwrap();
    assert_eq!(Browser::render(&elements), "<div>\n  <p>\n    Hi\n  tail\n");
    assert_eq!(Browser::extract_text(&elements), "Hi tail ");
}

#[test]
fn mismatched_closing_tag_is_reported() {
    let mut parser = HtmlParser::new("<b>x</i>");
    assert_eq!(parser.parse().unwrap_err(), "Mismatched closing tag: expected </b>, got </i>");
}

#[test]
fn parse_errors_name_the_problem() {
    assert_eq!(HtmlParser::new("</p>").parse().unwrap_err(), "Unexpected closing tag");
    assert_eq!(HtmlParser::new("<>").parse().unwrap_err(), "Expected tag name");
    assert_eq!(HtmlParser::new("<a href=x>").parse().unwrap_err(), "Expected quoted attribute value");
    assert_eq!(HtmlParser::new("<a href='x>").parse().unwrap_err(), "Unterminated attribute value");
    assert_eq!(HtmlParser::new("<br/x").parse().unwrap_err(), "Expected '>', got Some('x')");
    assert_eq!(HtmlParser::new("<br/").parse().unwrap_err(), "Expected '>', got None");
}

#[test]
fn unclosed_tag_takes_the_rest() {
    let mut parser = HtmlParser::new("<p>one <b>two");
    let elements = parser.parse().unwrap();
    assert_eq!(elements.len(), 1);
    assert_eq!(
        elements[0],
        Element::Tag {
            name: "p".to_string(),
            attributes: vec![],
            children: vec![
                Element::Text("one".to_string()),
                Element::Tag {
                    name: "b".to_string(),
                    attributes: vec![],
                    children: vec![Element::Text("two".to_string())],
                },
            ],
        }
    );
}

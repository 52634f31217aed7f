use lignin_html::{render_document, render_fragment, Attribute, Element, Node};

#[test]
fn br() {
    let mut fragment = String::new();
    render_fragment(
        &Node::HtmlElement {
            element: Box::new(Element {
                name: "BR".to_string(),
                attributes: vec![],
                content: Node::Multi(vec![]),
            }),
        },
        &mut fragment,
        1,
    )
    .unwrap();
    assert_eq!(fragment, "<BR>");
}

#[test]
fn div() {
    let mut fragment = String::new();
    render_fragment(
        &Node::HtmlElement {
            element: Box::new(Element {
                name: "DIV".to_string(),
                attributes: vec![],
                content: Node::Multi(vec![]),
            }),
        },
        &mut fragment,
        2,
    )
    .unwrap();
    assert_eq!(fragment, "<DIV></DIV>");
}

#[test]
fn div_custom() {
    let mut fragment = String::new();
    render_fragment(
        &Node::HtmlElement {
            element: Box::new(Element {
                name: "DIV".to_string(),
                attributes: vec![Attribute {
                    name: "is".to_string(),
                    value: "CUSTOM-DIV".to_string(),
                }],
                content: Node::Multi(vec![]),
            }),
        },
        &mut fragment,
        2,
    )
    .unwrap();
    assert_eq!(fragment, "<DIV is=CUSTOM-DIV></DIV>");
}

#[test]
fn text() {
    let mut fragment = String::new();
    render_fragment(
        &Node::Comment {
            comment: "><!-- Hello! --!> --><!-".to_string(),
        },
        &mut fragment,
        1,
    )
    .unwrap();
    assert_eq!(fragment, "<!--|><!== Hello! ==!> ==><!-|-->");
}

#[test]
fn br_lower_case() {
    let mut fragment = String::new();
    render_fragment(
        &Node::HtmlElement {
            element: Box::new(Element {
                name: "br".to_string(),
                attributes: vec![],
                content: Node::Multi(vec![]),
            }),
        },
        &mut fragment,
        1,
    )
    .unwrap();
    assert_eq!(fragment, "<br>");
}

#[test]
fn div_lower_case_with_custom_element_attribute() {
    let mut fragment = String::new();
    render_fragment(
        &Node::HtmlElement {
            element: Box::new(Element {
                name: "div".to_string(),
                attributes: vec![Attribute {
                    name: "is".to_string(),
                    value: "custom-div".to_string(),
                }],
                content: Node::Multi(vec![]),
            }),
        },
        &mut fragment,
        2,
    )
    .unwrap();
    assert_eq!(fragment, "<div is=custom-div></div>");
}

#[test]
fn text_is_escaped() {
    let mut fragment = String::new();
    render_fragment(
        &Node::Text {
            text: "a < b & c".to_string(),
        },
        &mut fragment,
        1,
    )
    .unwrap();
    assert_eq!(fragment, "a &lt; b &amp; c");
}

#[test]
fn plain_text_is_written_as_it_is() {
    let body = "plain text > with \"quotes\", 'ticks', \u{e9}\u{4e16}\u{1F600} and --> all";
    let mut fragment = String::new();
    render_fragment(
        &Node::Text {
            text: body.to_string(),
        },
        &mut fragment,
        1,
    )
    .unwrap();
    assert_eq!(fragment, body);
}

#[test]
fn the_target_is_appended_to() {
    let mut fragment = "before ".to_string();
    render_fragment(
        &Node::Text {
            text: "after".to_string(),
        },
        &mut fragment,
        1,
    )
    .unwrap();
    assert_eq!(fragment, "before after");
}

#[test]
fn a_document_is_the_doctype_and_the_fragment() {
    let tree = Node::Multi(vec![
        Node::Comment {
            comment: "c".to_string(),
        },
        Node::HtmlElement {
            element: Box::new(Element {
                name: "p".to_string(),
                attributes: vec![],
                content: Node::Text {
                    text: "1 < 2".to_string(),
                },
            }),
        },
    ]);
    for limit in [0usize, 1, 2, 3, 4] {
        let mut document = String::new();
        let mut fragment = String::new();
        let as_document = render_document(&tree, &mut document, limit);
        let as_fragment = render_fragment(&tree, &mut fragment, limit);
        assert_eq!(document, format!("<!DOCTYPE html>{}", fragment));
        assert_eq!(as_document, as_fragment);
    }
    let mut document = String::new();
    render_document(&tree, &mut document, 3).unwrap();
    assert_eq!(document, "<!DOCTYPE html><!--c--><p>1 &lt; 2</p>");
}

#[test]
fn nodes_in_a_row_are_written_in_order() {
    let tree = Node::Multi(vec![
        Node::Text {
            text: "a".to_string(),
        },
        Node::Multi(vec![]),
        Node::Text {
            text: "b".to_string(),
        },
        Node::Text {
            text: "c".to_string(),
        },
    ]);
    let mut fragment = String::new();
    render_fragment(&tree, &mut fragment, 2).unwrap();
    assert_eq!(fragment, "abc");
}

#[test]
fn svg_elements_are_written_like_html_elements() {
    let tree = Node::SvgElement {
        element: Box::new(Element {
            name: "svg".to_string(),
            attributes: vec![Attribute {
                name: "viewBox".to_string(),
                value: "0 0 1 1".to_string(),
            }],
            content: Node::SvgElement {
                element: Box::new(Element {
                    name: "g".to_string(),
                    attributes: vec![],
                    content: Node::Multi(vec![]),
                }),
            },
        }),
    };
    let mut fragment = String::new();
    render_fragment(&tree, &mut fragment, 3).unwrap();
    assert_eq!(fragment, "<svg viewBox=\"0 0 1 1\"><g></g></svg>");
}

#[test]
fn div_lower_case_without_content() {
    let mut fragment = String::new();
    render_fragment(
        &Node::HtmlElement {
            element: Box::new(Element {
                name: "div".to_string(),
                attributes: vec![],
                content: Node::Multi(vec![]),
            }),
        },
        &mut fragment,
        2,
    )
    .unwrap();
    assert_eq!(fragment, "<div></div>");
}

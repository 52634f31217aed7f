use lignin_html::render::{render_escapable_raw_text, render_raw_text};
use lignin_html::text::{write_escapable_raw_text, write_raw_text, write_text};
use lignin_html::{render_fragment, Element, Error, ErrorKind, Node, ReorderableFragment};

fn element(name: &str, content: Node) -> Node {
    Node::HtmlElement {
        element: Box::new(Element {
            name: name.to_string(),
            attributes: vec![],
            content,
        }),
    }
}

fn text(text: &str) -> Node {
    Node::Text {
        text: text.to_string(),
    }
}

#[test]
fn raw_text_is_written_as_it_is() {
    let body = "if (a < b && c > d) { x = \"</p>\" + '&amp;' }";
    let mut fragment = String::new();
    render_fragment(&element("script", text(body)), &mut fragment, 2).unwrap();
    assert_eq!(fragment, format!("<script>{}</script>", body));
}

#[test]
fn an_end_tag_in_raw_text_is_refused() {
    let tree = element("script", text("x </script>"));
    let mut fragment = String::new();
    let result = render_fragment(&tree, &mut fragment, 2);
    assert_eq!(
        result,
        Err(Error(ErrorKind::ElementClosedInRawText("</script>")))
    );
    assert_eq!(fragment, "<script>x ");
}

#[test]
fn a_longer_name_is_no_end_tag() {
    let tree = element("script", text("x </scripting>"));
    let mut fragment = String::new();
    render_fragment(&tree, &mut fragment, 2).unwrap();
    assert_eq!(fragment, "<script>x </scripting></script>");
}

#[test]
fn an_end_tag_in_any_case_and_with_any_end() {
    for (body, span) in [
        ("</STYLE>", "</STYLE>"),
        ("a</sTyLe b", "</sTyLe "),
        ("</style/>", "</style/"),
        ("</style\t", "</style\t"),
        ("</style\n", "</style\n"),
        ("</style\u{C}", "</style\u{C}"),
        ("</style\r", "</style\r"),
        ("<</style></style>", "</style>"),
        ("\u{e9}</style>\u{e9}", "</style>"),
    ] {
        let mut target = String::new();
        let result = write_raw_text(body, "style", &mut target);
        assert_eq!(
            result,
            Err(Error(ErrorKind::ElementClosedInRawText(span))),
            "{:?}",
            body
        );
    }
    for (body, span) in [("</style>", "</style>"), ("</Style ", "</Style ")] {
        let mut target = String::new();
        let result = write_raw_text(body, "STYLE", &mut target);
        assert_eq!(result, Err(Error(ErrorKind::ElementClosedInRawText(span))));
    }
}

#[test]
fn what_is_no_end_tag_of_the_element() {
    for body in [
        "",
        "<",
        "</",
        "</style",
        "</styl>",
        "</styles>",
        "</style-",
        "< /style>",
        "</script>",
        "<style>",
        "</\u{17F}tyle>",
        "</styl\u{e9}>",
        "</style\u{A0}",
    ] {
        let mut target = String::new();
        assert_eq!(write_raw_text(body, "style", &mut target), Ok(()), "{:?}", body);
        assert_eq!(target, body);
    }
}

#[test]
fn raw_text_through_nodes_that_stand_for_no_dom_node() {
    let tree = element(
        "style",
        Node::Multi(vec![
            text("a{}"),
            Node::Memoized {
                state_key: 9,
                content: Box::new(text("b<c")),
            },
            Node::Keyed(vec![ReorderableFragment {
                dom_key: 2,
                content: text("&"),
            }]),
        ]),
    );
    let mut fragment = String::new();
    render_fragment(&tree, &mut fragment, 4).unwrap();
    assert_eq!(fragment, "<style>a{}b<c&</style>");
    let mut fragment = String::new();
    assert!(render_fragment(&tree, &mut fragment, 3).is_err());
}

#[test]
fn only_text_in_raw_text() {
    let comment = Node::Comment {
        comment: "c".to_string(),
    };
    let tree = element(
        "script",
        Node::Multi(vec![
            text("a"),
            Node::Comment {
                comment: "c".to_string(),
            },
        ]),
    );
    let mut fragment = String::new();
    let result = render_fragment(&tree, &mut fragment, 4);
    assert_eq!(
        result,
        Err(Error(ErrorKind::NonTextDomNodeInRawTextPosition(&comment)))
    );
    assert_eq!(fragment, "<script>a");

    let inner = element("b", Node::Multi(vec![]));
    let mut target = String::new();
    let result = render_raw_text(&inner, &mut target, "script", 4);
    assert_eq!(
        result,
        Err(Error(ErrorKind::NonTextDomNodeInRawTextPosition(&inner)))
    );
    assert_eq!(target, "");
}

#[test]
fn only_text_in_escapable_raw_text() {
    let inner = element("b", Node::Multi(vec![]));
    let tree = element("textarea", element("b", Node::Multi(vec![])));
    let mut fragment = String::new();
    let result = render_fragment(&tree, &mut fragment, 4);
    assert_eq!(
        result,
        Err(Error(ErrorKind::NonTextDomNodeInEscapableRawTextPosition(
            &inner
        )))
    );
    assert_eq!(fragment, "<textarea>\n");

    let comment = Node::Comment {
        comment: String::new(),
    };
    let mut target = String::new();
    let result = render_escapable_raw_text(&comment, &mut target, 1);
    assert_eq!(
        result,
        Err(Error(ErrorKind::NonTextDomNodeInEscapableRawTextPosition(
            &comment
        )))
    );
}

#[test]
fn the_depth_limit_holds_in_text_only_positions() {
    let node = text("x");
    let mut target = String::new();
    assert_eq!(
        render_raw_text(&node, &mut target, "script", 0),
        Err(Error(ErrorKind::DepthLimitExceeded(&node)))
    );
    assert_eq!(
        render_escapable_raw_text(&node, &mut target, 0),
        Err(Error(ErrorKind::DepthLimitExceeded(&node)))
    );
    assert_eq!(render_raw_text(&node, &mut target, "script", 1), Ok(()));
    assert_eq!(render_escapable_raw_text(&node, &mut target, 1), Ok(()));
    assert_eq!(target, "xx");
}

#[test]
fn the_three_ways_to_write_text() {
    let body = "a<b</c&d<";
    let mut target = String::new();
    write_text(body, &mut target);
    assert_eq!(target, "a&lt;b&lt;/c&amp;d&lt;");
    let mut target = String::new();
    write_escapable_raw_text(body, &mut target);
    assert_eq!(target, "a<b&lt;/c&amp;d<");
    let mut target = String::new();
    assert_eq!(write_raw_text(body, "c", &mut target), Ok(()));
    assert_eq!(target, body);
}

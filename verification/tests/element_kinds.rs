use lignin_html::{render_fragment, Element, ElementKind, Error, ErrorKind, Node};

fn element(name: &str, content: Node) -> Node {
    Node::HtmlElement {
        element: Box::new(Element {
            name: name.to_string(),
            attributes: vec![],
            content,
        }),
    }
}

fn text(text: &str) -> Node {
    Node::Text {
        text: text.to_string(),
    }
}

fn rendered(tree: &Node) -> String {
    let mut fragment = String::new();
    render_fragment(tree, &mut fragment, 8).unwrap();
    fragment
}

#[test]
fn void_names() {
    let names = [
        "area", "base", "br", "col", "embed", "hr", "img", "input", "link", "meta", "param",
        "source", "track", "wbr",
    ];
    for name in names {
        assert_eq!(ElementKind::detect(name), Ok(ElementKind::Void), "{}", name);
        let upper = name.to_uppercase();
        assert_eq!(
            ElementKind::detect(&upper),
            Ok(ElementKind::Void),
            "{}",
            upper
        );
    }
    assert_eq!(ElementKind::detect("Br"), Ok(ElementKind::Void));
    assert_eq!(ElementKind::detect("iMg"), Ok(ElementKind::Void));
}

#[test]
fn other_fixed_names() {
    assert_eq!(ElementKind::detect("template"), Ok(ElementKind::Template));
    assert_eq!(ElementKind::detect("TEMPLATE"), Ok(ElementKind::Template));
    assert_eq!(ElementKind::detect("script"), Ok(ElementKind::RawText));
    assert_eq!(ElementKind::detect("Style"), Ok(ElementKind::RawText));
    assert_eq!(
        ElementKind::detect("textarea"),
        Ok(ElementKind::EscapableRawTextPre)
    );
    assert_eq!(
        ElementKind::detect("title"),
        Ok(ElementKind::EscapableRawText)
    );
    assert_eq!(ElementKind::detect("pre"), Ok(ElementKind::NormalPre));
    assert_eq!(ElementKind::detect("LISTING"), Ok(ElementKind::NormalPre));
}

#[test]
fn normal_names() {
    for name in [
        "div", "p", "h1", "a", "brx", "xbr", "b", "scripts", "styles", "titles", "1", "pres",
    ] {
        assert_eq!(
            ElementKind::detect(name),
            Ok(ElementKind::Normal),
            "{}",
            name
        );
    }
}

#[test]
fn names_of_custom_elements_are_normal() {
    for name in [
        "my-element",
        "br-x",
        "script-",
        "a-b-c",
        "x-\u{e9}",
        "a.b-c",
        "a-b.c_d",
        "a_\u{B7}-",
        "emotion-\u{1F600}",
        "a--",
    ] {
        assert_eq!(
            ElementKind::detect(name),
            Ok(ElementKind::Normal),
            "{}",
            name
        );
    }
}

#[test]
fn names_that_cannot_be_written() {
    for name in [
        "",
        "-a",
        ".a",
        "_a",
        "\u{e9}a",
        "a b",
        "a>",
        "a/",
        "a=b",
        "a.b",
        "a_b",
        "a\u{e9}",
        "a\u{D7}-b",
        "a\u{F7}-b",
        "a\u{37E}-b",
        "a\u{2000}-b",
        "a-\u{F0000}",
        "br ",
        " br",
        "a:b",
    ] {
        assert_eq!(ElementKind::detect(name), Err(name), "{:?}", name);
    }
}

#[test]
fn an_element_with_a_name_that_cannot_be_written() {
    let tree = element("a b", Node::Multi(vec![]));
    let mut fragment = String::new();
    let result = render_fragment(&tree, &mut fragment, 2);
    assert_eq!(result, Err(Error(ErrorKind::InvalidElementName("a b"))));
    assert_eq!(fragment, "");
}

#[test]
fn a_void_element_has_no_end_tag() {
    assert_eq!(rendered(&element("img", Node::Multi(vec![]))), "<img>");
    assert_eq!(
        rendered(&element(
            "input",
            Node::Memoized {
                state_key: 1,
                content: Box::new(Node::Keyed(vec![])),
            }
        )),
        "<input>"
    );
}

#[test]
fn a_void_element_with_content_is_refused() {
    let content = text("");
    let tree = element("br", text(""));
    let mut fragment = String::new();
    let result = render_fragment(&tree, &mut fragment, 5);
    assert_eq!(
        result,
        Err(Error(ErrorKind::NonEmptyVoidElementContent(&content)))
    );
    assert_eq!(fragment, "<br>");

    let content = Node::Multi(vec![
        Node::Multi(vec![]),
        Node::Comment {
            comment: "c".to_string(),
        },
    ]);
    let tree = element(
        "hr",
        Node::Multi(vec![
            Node::Multi(vec![]),
            Node::Comment {
                comment: "c".to_string(),
            },
        ]),
    );
    let mut fragment = String::new();
    let result = render_fragment(&tree, &mut fragment, 5);
    assert_eq!(
        result,
        Err(Error(ErrorKind::NonEmptyVoidElementContent(&content)))
    );
}

#[test]
fn whether_a_node_stands_for_no_dom_node() {
    assert!(Node::Multi(vec![]).dom_empty());
    assert!(Node::Keyed(vec![]).dom_empty());
    assert!(Node::Multi(vec![Node::Multi(vec![]), Node::Keyed(vec![])]).dom_empty());
    assert!(Node::Memoized {
        state_key: 0,
        content: Box::new(Node::Multi(vec![])),
    }
    .dom_empty());
    assert!(!text("").dom_empty());
    assert!(!Node::Comment {
        comment: String::new(),
    }
    .dom_empty());
    assert!(!element("br", Node::Multi(vec![])).dom_empty());
    assert!(!Node::Multi(vec![Node::Multi(vec![]), text("x")]).dom_empty());
    assert!(!Node::RemnantSite.dom_empty());
}

#[test]
fn a_template_is_written_like_a_normal_element() {
    assert_eq!(
        rendered(&element("template", element("p", text("<")))),
        "<template><p>&lt;</p></template>"
    );
}

#[test]
fn content_after_a_line_feed() {
    assert_eq!(rendered(&element("pre", text("a<b"))), "<pre>\na&lt;b</pre>");
    assert_eq!(
        rendered(&element("listing", text("\nx"))),
        "<listing>\n\nx</listing>"
    );
    assert_eq!(
        rendered(&element("textarea", text("a</b&c<d"))),
        "<textarea>\na&lt;/b&amp;c<d</textarea>"
    );
}

#[test]
fn escapable_raw_text() {
    assert_eq!(
        rendered(&element("title", text("1 < 2 & </title>"))),
        "<title>1 < 2 &amp; &lt;/title></title>"
    );
    assert_eq!(
        rendered(&element(
            "TITLE",
            Node::Multi(vec![
                text("<"),
                Node::Memoized {
                    state_key: 3,
                    content: Box::new(text("/")),
                },
            ])
        )),
        "<TITLE></</TITLE>"
    );
}

#[test]
fn a_remnant_site_cannot_be_rendered() {
    let tree = element("div", Node::Multi(vec![text("a"), Node::RemnantSite]));
    let mut fragment = String::new();
    let result = render_fragment(&tree, &mut fragment, 5);
    assert_eq!(result, Err(Error(ErrorKind::RemnantSiteNotImplemented)));
    assert_eq!(fragment, "<div>a");
}

use lignin_html::{render_fragment, Element, Error, ErrorKind, Node, ReorderableFragment};

fn div(content: Node) -> Node {
    Node::HtmlElement {
        element: Box::new(Element {
            name: "div".to_string(),
            attributes: vec![],
            content,
        }),
    }
}

#[test]
fn div_pass() {
    render_fragment(&div(div(Node::Multi(vec![]))), &mut String::new(), 3).unwrap();
}

#[test]
#[should_panic]
fn div_fail() {
    render_fragment(&div(div(Node::Multi(vec![]))), &mut String::new(), 2).unwrap();
}

#[test]
fn div_in_div_at_its_depth() {
    let tree = div(div(Node::Multi(vec![])));
    let mut fragment = String::new();
    render_fragment(&tree, &mut fragment, 3).unwrap();
    assert_eq!(fragment, "<div><div></div></div>");
}

#[test]
fn div_in_div_one_level_short() {
    let tree = div(div(Node::Multi(vec![])));
    let mut fragment = String::new();
    let result = render_fragment(&tree, &mut fragment, 2);
    assert_eq!(
        result,
        Err(Error(ErrorKind::DepthLimitExceeded(&Node::Multi(vec![]))))
    );
    // What was written before the limit was met stays.
    assert_eq!(fragment, "<div><div>");
}

#[test]
fn depth_limit_zero_fails_on_the_root() {
    let tree = Node::Text {
        text: "x".to_string(),
    };
    let mut fragment = String::new();
    let result = render_fragment(&tree, &mut fragment, 0);
    assert_eq!(result, Err(Error(ErrorKind::DepthLimitExceeded(&tree))));
    assert_eq!(fragment, "");
}

#[test]
fn higher_limits_change_nothing() {
    let tree = Node::Multi(vec![
        div(Node::Text {
            text: "a".to_string(),
        }),
        Node::Memoized {
            state_key: 7,
            content: Box::new(Node::Comment {
                comment: "b".to_string(),
            }),
        },
    ]);
    let mut at_depth = String::new();
    render_fragment(&tree, &mut at_depth, 3).unwrap();
    assert_eq!(at_depth, "<div>a</div><!--b-->");
    for limit in [4usize, 5, 100, usize::MAX] {
        let mut higher = String::new();
        render_fragment(&tree, &mut higher, limit).unwrap();
        assert_eq!(higher, at_depth);
    }
}

#[test]
fn an_invalid_tree_fails_alike_at_higher_limits() {
    let tree = div(Node::HtmlElement {
        element: Box::new(Element {
            name: "not valid".to_string(),
            attributes: vec![],
            content: Node::Multi(vec![]),
        }),
    });
    for limit in [2usize, 3, 50] {
        let mut fragment = String::new();
        let result = render_fragment(&tree, &mut fragment, limit);
        assert_eq!(
            result,
            Err(Error(ErrorKind::InvalidElementName("not valid")))
        );
        assert_eq!(fragment, "<div>");
    }
}

#[test]
fn the_first_node_below_the_limit_is_reported() {
    let deep = Node::Text {
        text: "deep".to_string(),
    };
    let tree = Node::Multi(vec![
        Node::Text {
            text: "shallow".to_string(),
        },
        Node::Keyed(vec![ReorderableFragment {
            dom_key: 1,
            content: Node::Multi(vec![Node::Text {
                text: "deep".to_string(),
            }]),
        }]),
    ]);
    let mut fragment = String::new();
    let result = render_fragment(&tree, &mut fragment, 3);
    assert_eq!(result, Err(Error(ErrorKind::DepthLimitExceeded(&deep))));
    assert_eq!(fragment, "shallow");
    let mut whole = String::new();
    render_fragment(&tree, &mut whole, 4).unwrap();
    assert_eq!(whole, "shallowdeep");
}

#[test]
fn memoized_and_keyed_nodes_each_take_a_level() {
    let tree = Node::Memoized {
        state_key: 0,
        content: Box::new(Node::Keyed(vec![ReorderableFragment {
            dom_key: 0,
            content: Node::Text {
                text: "t".to_string(),
            },
        }])),
    };
    let mut fragment = String::new();
    assert!(render_fragment(&tree, &mut fragment, 2).is_err());
    let mut fragment = String::new();
    render_fragment(&tree, &mut fragment, 3).unwrap();
    assert_eq!(fragment, "t");
}

#[test]
fn the_content_of_a_void_element_takes_no_level() {
    let tree = Node::HtmlElement {
        element: Box::new(Element {
            name: "hr".to_string(),
            attributes: vec![],
            content: Node::Multi(vec![Node::Multi(vec![]), Node::Keyed(vec![])]),
        }),
    };
    let mut fragment = String::new();
    render_fragment(&tree, &mut fragment, 1).unwrap();
    assert_eq!(fragment, "<hr>");
}

//! The depth of a tree, and how the depth limit bears on rendering: a limit
//! of at least the depth changes nothing, and every limit below the depth
//! fails a tree which can be rendered.

use vstd::prelude::*;
use crate::attribute::attributes_rendering;
use crate::element_kind::{ElementKind, element_kind};
use crate::error::Failure;
use crate::node::{Element, Node, ReorderableFragment, fragment_contents};
use crate::render::{
    PositionView, content_rendering, element_rendering, element_rendering_as, fragment_rendering,
    node_rendering, nodes_rendering,
};
use crate::rendering::Rendering;

verus! {

/// Whether rendering enters the content of the element called `name`: it
/// does unless the name has no kind or the kind takes no content.
pub open spec fn enters_content(name: Seq<char>) -> bool {
    match element_kind(name) {
        Some(kind) => kind != ElementKind::Void && kind != ElementKind::ForeignSelfClosing,
        None => false,
    }
}

/// The nodes directly below `node` that rendering enters.
pub open spec fn entered_children(node: Node) -> Seq<Node> {
    match node {
        Node::HtmlElement { element } => if enters_content(element.name@) {
            seq![element.content]
        } else {
            Seq::empty()
        },
        Node::SvgElement { element } => if enters_content(element.name@) {
            seq![element.content]
        } else {
            Seq::empty()
        },
        Node::Memoized { content, .. } => seq![*content],
        Node::Multi(nodes) => nodes@,
        Node::Keyed(fragments) => fragment_contents(fragments@),
        _ => Seq::empty(),
    }
}

/// The depth of the tree below and with `node`: the number of levels that
/// rendering enters on the longest way down, the node's own level among
/// them. The content of an element counts where rendering enters it.
pub open spec fn tree_depth(node: Node) -> nat
    decreases node,
{
    match node {
        Node::HtmlElement { element } => if enters_content(element.name@) {
            1 + tree_depth(element.content)
        } else {
            1
        },
        Node::SvgElement { element } => if enters_content(element.name@) {
            1 + tree_depth(element.content)
        } else {
            1
        },
        Node::Memoized { content, .. } => 1 + tree_depth(*content),
        Node::Multi(nodes) => 1 + deepest(nodes@),
        Node::Keyed(fragments) => 1 + deepest_fragment(fragments@),
        _ => 1,
    }
}

/// The depth of the deepest of `nodes`, or zero where there is none.
pub open spec fn deepest(nodes: Seq<Node>) -> nat
    decreases nodes,
{
    if nodes.len() == 0 {
        0
    } else if tree_depth(nodes[0]) >= deepest(nodes.skip(1)) {
        tree_depth(nodes[0])
    } else {
        deepest(nodes.skip(1))
    }
}

/// The depth of the deepest content of `fragments`, or zero where there is
/// none.
pub open spec fn deepest_fragment(fragments: Seq<ReorderableFragment>) -> nat
    decreases fragments,
{
    if fragments.len() == 0 {
        0
    } else if tree_depth(fragments[0].content) >= deepest_fragment(fragments.skip(1)) {
        tree_depth(fragments[0].content)
    } else {
        deepest_fragment(fragments.skip(1))
    }
}

/// The deepest content of keyed fragments is the deepest of their nodes.
proof fn lemma_deepest_fragment(fragments: Seq<ReorderableFragment>)
    ensures
        deepest_fragment(fragments) == deepest(fragment_contents(fragments)),
    decreases fragments.len(),
{
    if fragments.len() > 0 {
        lemma_deepest_fragment(fragments.skip(1));
        assert(fragment_contents(fragments).skip(1) =~= fragment_contents(fragments.skip(1)));
    }
}

/// A tree is one level deeper than the deepest tree directly below it.
pub proof fn lemma_tree_depth_unfolds(node: Node)
    ensures
        tree_depth(node) == 1 + deepest(entered_children(node)),
{
    reveal_with_fuel(deepest, 2);
    match node {
        Node::HtmlElement { element } => {
            assert(seq![element.content].skip(1) =~= Seq::<Node>::empty());
        },
        Node::SvgElement { element } => {
            assert(seq![element.content].skip(1) =~= Seq::<Node>::empty());
        },
        Node::Memoized { content, .. } => {
            assert(seq![*content].skip(1) =~= Seq::<Node>::empty());
        },
        Node::Keyed(fragments) => {
            lemma_deepest_fragment(fragments@);
        },
        _ => {},
    }
}

/// No node is deeper than the deepest.
proof fn lemma_deepest_bounds(nodes: Seq<Node>, i: int)
    requires
        0 <= i < nodes.len(),
    ensures
        tree_depth(nodes[i]) <= deepest(nodes),
    decreases nodes.len(),
{
    if i > 0 {
        lemma_deepest_bounds(nodes.skip(1), i - 1);
    }
}

/// Whether the rendering was ended by the depth limit.
pub open spec fn hit_depth_limit(rendering: Rendering) -> bool {
    rendering.failure matches Some(Failure::DepthLimitExceeded(_))
}

/// With a limit of at least the depth of the tree, a higher limit changes
/// nothing, at any position.
pub proof fn lemma_limit_above_depth(position: PositionView, node: Node, low: nat, high: nat)
    requires
        tree_depth(node) <= low <= high,
    ensures
        node_rendering(position, node, low) == node_rendering(position, node, high),
    decreases low, 0nat,
{
    lemma_tree_depth_unfolds(node);
    let children = entered_children(node);
    let below_low = (low - 1) as nat;
    let below_high = (high - 1) as nat;
    assert forall|i: int| 0 <= i < children.len() implies tree_depth(#[trigger] children[i])
        <= below_low by {
        lemma_deepest_bounds(children, i);
    }
    match node {
        Node::HtmlElement { element } => {
            if enters_content(element.name@) {
                assert(tree_depth(children[0]) <= below_low);
                lemma_content_limit_above_depth(*element, below_low, below_high);
            } else {
                lemma_limit_is_not_read(*element, below_low, below_high);
            }
        },
        Node::SvgElement { element } => {
            if enters_content(element.name@) {
                assert(tree_depth(children[0]) <= below_low);
                lemma_content_limit_above_depth(*element, below_low, below_high);
            } else {
                lemma_limit_is_not_read(*element, below_low, below_high);
            }
        },
        Node::Memoized { content, .. } => {
            assert(tree_depth(children[0]) <= below_low);
            lemma_limit_above_depth(position, *content, below_low, below_high);
        },
        Node::Multi(nodes) => {
            lemma_limit_above_depths(position, children, below_low, below_high);
        },
        Node::Keyed(fragments) => {
            lemma_limit_above_depths(position, children, below_low, below_high);
        },
        _ => {},
    }
}

/// Where rendering does not enter an element's content, the limit for the
/// content is not read.
proof fn lemma_limit_is_not_read(element: Element, one: nat, other: nat)
    requires
        !enters_content(element.name@),
    ensures
        element_rendering(element, one) == element_rendering(element, other),
{
    match element_kind(element.name@) {
        Some(kind) => {
            assert(content_rendering(kind, element, one) == content_rendering(
                kind,
                element,
                other,
            ));
            assert(element_rendering_as(kind, element, one) == element_rendering_as(
                kind,
                element,
                other,
            ));
        },
        None => {},
    }
}

/// The same of an element's content, whatever the element's kind.
proof fn lemma_content_limit_above_depth(element: Element, low: nat, high: nat)
    requires
        enters_content(element.name@),
        tree_depth(element.content) <= low <= high,
    ensures
        element_rendering(element, low) == element_rendering(element, high),
    decreases low, 1nat,
{
    let kind = element_kind(element.name@)->Some_0;
    match kind {
        ElementKind::RawText => {
            lemma_limit_above_depth(
                PositionView::RawText { element_name: element.name@ },
                element.content,
                low,
                high,
            );
        },
        ElementKind::EscapableRawText | ElementKind::EscapableRawTextPre => {
            lemma_limit_above_depth(PositionView::EscapableRawText, element.content, low, high);
        },
        _ => {
            lemma_limit_above_depth(PositionView::Markup, element.content, low, high);
        },
    }
    assert(content_rendering(kind, element, low) == content_rendering(kind, element, high));
    assert(element_rendering_as(kind, element, low) == element_rendering_as(kind, element, high));
}

/// The same of nodes in a row.
proof fn lemma_limit_above_depths(position: PositionView, nodes: Seq<Node>, low: nat, high: nat)
    requires
        forall|i: int| 0 <= i < nodes.len() ==> tree_depth(#[trigger] nodes[i]) <= low,
        low <= high,
    ensures
        nodes_rendering(position, nodes, low) == nodes_rendering(position, nodes, high),
    decreases low, nodes.len() + 1,
{
    if nodes.len() > 0 {
        lemma_limit_above_depth(position, nodes[0], low, high);
        assert forall|i: int| 0 <= i < nodes.skip(1).len() implies tree_depth(
            #[trigger] nodes.skip(1)[i],
        ) <= low by {
            assert(nodes.skip(1)[i] == nodes[i + 1]);
        }
        lemma_limit_above_depths(position, nodes.skip(1), low, high);
    }
}

/// With a depth limit of at least the depth of the tree, rendering a
/// fragment does the same at every higher limit: it writes the same text,
/// and succeeds at the one limit if and only if it succeeds at the other.
pub proof fn lemma_sufficient_depth_limit(node: Node, low: nat, high: nat)
    requires
        tree_depth(node) <= low <= high,
    ensures
        fragment_rendering(node, low) == fragment_rendering(node, high),
{
    lemma_limit_above_depth(PositionView::Markup, node, low, high);
}

/// A tree that is rendered without failure at some position is no deeper
/// than the limit, and with one level less than its depth the depth limit
/// ends the rendering.
pub proof fn lemma_limit_below_depth(position: PositionView, node: Node, limit: nat)
    requires
        node_rendering(position, node, limit).failure is None,
    ensures
        1 <= tree_depth(node) <= limit,
        hit_depth_limit(node_rendering(position, node, (tree_depth(node) - 1) as nat)),
    decreases limit, 0nat,
{
    lemma_tree_depth_unfolds(node);
    let children = entered_children(node);
    let below = (limit - 1) as nat;
    match node {
        Node::HtmlElement { element } => {
            lemma_content_limit_below_depth(*element, below);
        },
        Node::SvgElement { element } => {
            lemma_content_limit_below_depth(*element, below);
        },
        Node::Memoized { content, .. } => {
            lemma_limit_below_depth(position, *content, below);
        },
        Node::Multi(nodes) => {
            lemma_limits_below_depth(position, children, below);
        },
        Node::Keyed(fragments) => {
            lemma_limits_below_depth(position, children, below);
        },
        _ => {},
    }
}

/// The same of an element, by the limit for its content.
proof fn lemma_content_limit_below_depth(element: Element, limit: nat)
    requires
        element_rendering(element, limit).failure is None,
    ensures
        enters_content(element.name@) ==> 1 <= tree_depth(element.content) <= limit
            && hit_depth_limit(
            element_rendering(element, (tree_depth(element.content) - 1) as nat),
        ),
    decreases limit, 1nat,
{
    let kind = element_kind(element.name@)->Some_0;
    if enters_content(element.name@) {
        let position = match kind {
            ElementKind::RawText => PositionView::RawText { element_name: element.name@ },
            ElementKind::EscapableRawText | ElementKind::EscapableRawTextPre => {
                PositionView::EscapableRawText
            },
            _ => PositionView::Markup,
        };
        assert(content_rendering(kind, element, limit) == node_rendering(
            position,
            element.content,
            limit,
        ));
        assert(element_rendering_as(kind, element, limit).failure is None);
        lemma_limit_below_depth(position, element.content, limit);
        let less = (tree_depth(element.content) - 1) as nat;
        assert(content_rendering(kind, element, less) == node_rendering(
            position,
            element.content,
            less,
        ));
        assert(hit_depth_limit(element_rendering_as(kind, element, less)));
    }
}

/// The same of nodes in a row, by the deepest of them.
proof fn lemma_limits_below_depth(position: PositionView, nodes: Seq<Node>, limit: nat)
    requires
        nodes_rendering(position, nodes, limit).failure is None,
    ensures
        deepest(nodes) <= limit,
        deepest(nodes) >= 1 ==> hit_depth_limit(
            nodes_rendering(position, nodes, (deepest(nodes) - 1) as nat),
        ),
    decreases limit, nodes.len() + 1,
{
    if nodes.len() > 0 {
        let first = nodes[0];
        let rest = nodes.skip(1);
        lemma_limit_below_depth(position, first, limit);
        lemma_limits_below_depth(position, rest, limit);
        let less = (deepest(nodes) - 1) as nat;
        if tree_depth(first) < deepest(rest) {
            lemma_limit_above_depth(position, first, less, limit);
        }
    }
}

/// A rendering that the depth limit did not end is the same with every
/// higher limit, at any position.
pub proof fn lemma_limit_not_hit(position: PositionView, node: Node, low: nat, high: nat)
    requires
        low <= high,
        !hit_depth_limit(node_rendering(position, node, low)),
    ensures
        node_rendering(position, node, high) == node_rendering(position, node, low),
    decreases low, 0nat,
{
    let below_low = (low - 1) as nat;
    let below_high = (high - 1) as nat;
    match node {
        Node::HtmlElement { element } => {
            if position is Markup {
                lemma_content_limit_not_hit(*element, below_low, below_high);
            }
        },
        Node::SvgElement { element } => {
            if position is Markup {
                lemma_content_limit_not_hit(*element, below_low, below_high);
            }
        },
        Node::Memoized { content, .. } => {
            lemma_limit_not_hit(position, *content, below_low, below_high);
        },
        Node::Multi(nodes) => {
            lemma_limits_not_hit(position, nodes@, below_low, below_high);
        },
        Node::Keyed(fragments) => {
            lemma_limits_not_hit(position, fragment_contents(fragments@), below_low, below_high);
        },
        _ => {},
    }
}

/// The same of an element, by the limit for its content.
proof fn lemma_content_limit_not_hit(element: Element, low: nat, high: nat)
    requires
        low <= high,
        !hit_depth_limit(element_rendering(element, low)),
    ensures
        element_rendering(element, high) == element_rendering(element, low),
    decreases low, 1nat,
{
    if enters_content(element.name@) {
        let kind = element_kind(element.name@)->Some_0;
        let position = match kind {
            ElementKind::RawText => PositionView::RawText { element_name: element.name@ },
            ElementKind::EscapableRawText | ElementKind::EscapableRawTextPre => {
                PositionView::EscapableRawText
            },
            _ => PositionView::Markup,
        };
        assert(content_rendering(kind, element, low) == node_rendering(
            position,
            element.content,
            low,
        ));
        assert(content_rendering(kind, element, high) == node_rendering(
            position,
            element.content,
            high,
        ));
        if attributes_rendering(element.attributes@).failure is None {
            assert(!hit_depth_limit(content_rendering(kind, element, low)));
            lemma_limit_not_hit(position, element.content, low, high);
        }
        assert(element_rendering_as(kind, element, high) == element_rendering_as(
            kind,
            element,
            low,
        ));
    } else {
        lemma_limit_is_not_read(element, low, high);
    }
}

/// The same of nodes in a row.
proof fn lemma_limits_not_hit(position: PositionView, nodes: Seq<Node>, low: nat, high: nat)
    requires
        low <= high,
        !hit_depth_limit(nodes_rendering(position, nodes, low)),
    ensures
        nodes_rendering(position, nodes, high) == nodes_rendering(position, nodes, low),
    decreases low, nodes.len() + 1,
{
    if nodes.len() > 0 {
        lemma_limit_not_hit(position, nodes[0], low, high);
        if node_rendering(position, nodes[0], low).failure is None {
            lemma_limits_not_hit(position, nodes.skip(1), low, high);
        }
    }
}

/// Rendering a fragment without meeting the depth limit does the same at
/// every higher limit: it succeeds with the one limit if and only if it
/// succeeds with the other, and writes the same text.
pub proof fn lemma_depth_limit_not_hit(node: Node, low: nat, high: nat)
    requires
        low <= high,
        !hit_depth_limit(fragment_rendering(node, low)),
    ensures
        fragment_rendering(node, high) == fragment_rendering(node, low),
{
    lemma_limit_not_hit(PositionView::Markup, node, low, high);
}

/// A tree that can be rendered as a fragment is rendered with a depth
/// limit equal to its depth, and with every lower limit the depth limit
/// ends the rendering.
pub proof fn lemma_depth_limit_is_tight(node: Node, limit: nat)
    requires
        fragment_rendering(node, limit).failure is None,
    ensures
        1 <= tree_depth(node) <= limit,
        fragment_rendering(node, tree_depth(node)) == fragment_rendering(node, limit),
        forall|lower: nat|
            lower < tree_depth(node) ==> hit_depth_limit(#[trigger] fragment_rendering(node, lower)),
{
    lemma_limit_below_depth(PositionView::Markup, node, limit);
    lemma_limit_above_depth(PositionView::Markup, node, tree_depth(node), limit);
    assert forall|lower: nat| lower < tree_depth(node) implies hit_depth_limit(
        #[trigger] fragment_rendering(node, lower),
    ) by {
        if !hit_depth_limit(fragment_rendering(node, lower)) {
            lemma_limit_not_hit(PositionView::Markup, node, lower, limit);
            lemma_limit_below_depth(PositionView::Markup, node, lower);
        }
    }
}

} // verus!

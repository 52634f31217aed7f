//! The virtual DOM tree that the renderer reads.

use vstd::prelude::*;

verus! {

/// One attribute of an element: a name and a value, both as plain text.
#[derive(Debug, PartialEq, Eq)]
pub struct Attribute {
    pub name: String,
    pub value: String,
}

/// An element: its tag name, its attributes in order, and its content.
#[derive(Debug, PartialEq, Eq)]
pub struct Element {
    pub name: String,
    pub attributes: Vec<Attribute>,
    pub content: Node,
}

/// A child of a keyed node. The key serves to reorder children between two
/// trees; rendering does not read it.
#[derive(Debug, PartialEq, Eq)]
pub struct ReorderableFragment {
    pub dom_key: u32,
    pub content: Node,
}

/// A node of the tree.
#[derive(Debug, PartialEq, Eq)]
pub enum Node {
    /// A comment with the given body, as unescaped text.
    Comment { comment: String },
    /// An element of the HTML namespace.
    HtmlElement { element: Box<Element> },
    /// An element of the SVG namespace.
    SvgElement { element: Box<Element> },
    /// A subtree with a key that tells whether it changed; rendering does
    /// not read the key.
    Memoized { state_key: u64, content: Box<Node> },
    /// A sequence of nodes.
    Multi(Vec<Node>),
    /// A sequence of nodes, each with a key.
    Keyed(Vec<ReorderableFragment>),
    /// A run of text, unescaped.
    Text { text: String },
    /// A place kept for content that outlives the tree. Reserved: it cannot
    /// be rendered.
    RemnantSite,
}

/// The nodes that a keyed sequence holds, in order, without their keys.
pub open spec fn fragment_contents(fragments: Seq<ReorderableFragment>) -> Seq<Node> {
    Seq::new(fragments.len(), |i: int| fragments[i].content)
}

impl Node {
    /// Whether the node stands for no DOM node at all: a sequence of such
    /// nodes, or a memoized one. Comments, elements and text are DOM nodes,
    /// and a remnant site is not known to be empty.
    pub open spec fn is_dom_empty(self) -> bool
        decreases self,
    {
        match self {
            Node::Memoized { content, .. } => content.is_dom_empty(),
            Node::Multi(nodes) => forall|i: int|
                0 <= i < nodes@.len() ==> (#[trigger] nodes@[i]).is_dom_empty(),
            Node::Keyed(fragments) => forall|i: int|
                0 <= i < fragments@.len() ==> (#[trigger] fragments@[i]).content.is_dom_empty(),
            _ => false,
        }
    }

    /// Computes [`Node::is_dom_empty`].
    pub fn dom_empty(&self) -> (empty: bool)
        ensures
            empty == self.is_dom_empty(),
        decreases self,
    {
        match self {
            Node::Memoized { content, .. } => content.dom_empty(),
            Node::Multi(nodes) => {
                let mut i: usize = 0;
                while i < nodes.len()
                    invariant
                        i <= nodes.len(),
                        self is Multi && self->Multi_0 == *nodes,
                        forall|j: int| 0 <= j < i ==> (#[trigger] nodes@[j]).is_dom_empty(),
                    decreases nodes.len() - i,
                {
                    if !nodes[i].dom_empty() {
                        return false;
                    }
                    i += 1;
                }
                true
            },
            Node::Keyed(fragments) => {
                let mut i: usize = 0;
                while i < fragments.len()
                    invariant
                        i <= fragments.len(),
                        self is Keyed && self->Keyed_0 == *fragments,
                        forall|j: int|
                            0 <= j < i ==> (#[trigger] fragments@[j]).content.is_dom_empty(),
                    decreases fragments.len() - i,
                {
                    if !fragments[i].content.dom_empty() {
                        return false;
                    }
                    i += 1;
                }
                true
            },
            _ => false,
        }
    }
}

} // verus!

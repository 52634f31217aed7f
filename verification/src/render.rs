//! The walk over the tree: what rendering a node does, stated as a
//! function of the node and the depth limit, and the renderer that does it.

use vstd::prelude::*;
use crate::attribute::{attributes_rendering, write_attributes};
use crate::comment::{comment_markup, write_comment};
use crate::element_kind::{ElementKind, element_kind};
use crate::error::{Error, ErrorKind, Failure, failure_of};
use crate::node::{Element, Node, fragment_contents};
use crate::rendering::{Rendering, lemma_emit_followed_by};
use crate::text::{
    escaped_raw_text, escaped_text, raw_text_rendering, write_escapable_raw_text, write_raw_text,
    write_text,
};

verus! {

/// Where in the document a node stands, which decides what may stand there
/// and how text is written.
#[derive(Debug, Clone, Copy)]
pub enum Position<'a> {
    /// At the top of the tree or in the content of an element that holds
    /// markup: every node may stand here, and text has `<` and `&` escaped.
    Markup,
    /// In the content of the raw text element called `element_name`: only
    /// text may stand here, and it is written as it is.
    RawText { element_name: &'a str },
    /// In the content of an escapable raw text element: only text may stand
    /// here, and it has `</` and `&` escaped.
    EscapableRawText,
}

/// A position as contracts speak of it, with the element's name as a
/// sequence of code points.
pub enum PositionView {
    Markup,
    RawText { element_name: Seq<char> },
    EscapableRawText,
}

impl<'a> View for Position<'a> {
    type V = PositionView;

    open spec fn view(&self) -> PositionView {
        match *self {
            Position::Markup => PositionView::Markup,
            Position::RawText { element_name } => PositionView::RawText {
                element_name: element_name@,
            },
            Position::EscapableRawText => PositionView::EscapableRawText,
        }
    }
}

/// How the start tag of an element of the given kind ends.
pub open spec fn start_tag_end(kind: ElementKind) -> Seq<char> {
    if kind == ElementKind::ForeignSelfClosing {
        " />"@
    } else {
        ">"@
    }
}

/// The line feed that stands before the content of `pre`, `listing` and
/// `textarea`, where a first line feed of the content itself would be lost.
pub open spec fn leading_line_feed(kind: ElementKind) -> Seq<char> {
    if kind == ElementKind::NormalPre || kind == ElementKind::EscapableRawTextPre {
        "\n"@
    } else {
        Seq::empty()
    }
}

/// The end tag of the element, which void and self-closing elements lack.
pub open spec fn end_tag(kind: ElementKind, name: Seq<char>) -> Seq<char> {
    if kind == ElementKind::Void || kind == ElementKind::ForeignSelfClosing {
        Seq::empty()
    } else {
        "</"@ + name + ">"@
    }
}

/// The failure for a comment or an element at a position that takes only
/// text.
pub open spec fn not_text_failure(position: PositionView, node: Node) -> Failure {
    match position {
        PositionView::EscapableRawText => Failure::NonTextDomNodeInEscapableRawTextPosition(node),
        _ => Failure::NonTextDomNodeInRawTextPosition(node),
    }
}

/// What writing text at the given position does.
pub open spec fn text_rendering(position: PositionView, text: Seq<char>) -> Rendering {
    match position {
        PositionView::Markup => Rendering::emit(escaped_text(text)),
        PositionView::RawText { element_name } => raw_text_rendering(text, element_name),
        PositionView::EscapableRawText => Rendering::emit(escaped_raw_text(text)),
    }
}

/// What rendering `node` at `position` does when at most `depth_limit`
/// levels of the tree may be entered, the node's own level among them.
pub open spec fn node_rendering(position: PositionView, node: Node, depth_limit: nat) -> Rendering
    decreases depth_limit, 0nat,
{
    if depth_limit == 0 {
        Rendering::fail(Failure::DepthLimitExceeded(node))
    } else {
        let below = (depth_limit - 1) as nat;
        match node {
            Node::Comment { comment } => match position {
                PositionView::Markup => Rendering::emit(comment_markup(comment@)),
                _ => Rendering::fail(not_text_failure(position, node)),
            },
            Node::HtmlElement { element } => match position {
                PositionView::Markup => element_rendering(*element, below),
                _ => Rendering::fail(not_text_failure(position, node)),
            },
            Node::SvgElement { element } => match position {
                PositionView::Markup => element_rendering(*element, below),
                _ => Rendering::fail(not_text_failure(position, node)),
            },
            Node::Memoized { content, .. } => node_rendering(position, *content, below),
            Node::Multi(nodes) => nodes_rendering(position, nodes@, below),
            Node::Keyed(fragments) => nodes_rendering(
                position,
                fragment_contents(fragments@),
                below,
            ),
            Node::Text { text } => text_rendering(position, text@),
            Node::RemnantSite => Rendering::fail(Failure::RemnantSiteNotImplemented),
        }
    }
}

/// What rendering `nodes` in order does, each with the same depth limit:
/// the first failure ends it.
pub open spec fn nodes_rendering(position: PositionView, nodes: Seq<Node>, depth_limit: nat) -> Rendering
    decreases depth_limit, nodes.len() + 1,
{
    if nodes.len() == 0 {
        Rendering::emit(Seq::empty())
    } else {
        node_rendering(position, nodes[0], depth_limit).followed_by(
            nodes_rendering(position, nodes.skip(1), depth_limit),
        )
    }
}

/// What rendering the content of an element of the given kind does, with
/// `content_limit` levels left for it.
pub open spec fn content_rendering(kind: ElementKind, element: Element, content_limit: nat) -> Rendering
    decreases content_limit, 1nat,
{
    match kind {
        ElementKind::Void | ElementKind::ForeignSelfClosing => {
            if element.content.is_dom_empty() {
                Rendering::emit(Seq::empty())
            } else {
                Rendering::fail(Failure::NonEmptyVoidElementContent(element.content))
            }
        },
        ElementKind::RawText => node_rendering(
            PositionView::RawText { element_name: element.name@ },
            element.content,
            content_limit,
        ),
        ElementKind::EscapableRawText | ElementKind::EscapableRawTextPre => node_rendering(
            PositionView::EscapableRawText,
            element.content,
            content_limit,
        ),
        _ => node_rendering(PositionView::Markup, element.content, content_limit),
    }
}

/// What rendering an element as one of the given kind does: the start tag
/// with the attributes, the content, and the end tag.
pub open spec fn element_rendering_as(kind: ElementKind, element: Element, content_limit: nat) -> Rendering
    decreases content_limit, 2nat,
{
    Rendering::emit("<"@ + element.name@).followed_by(
        attributes_rendering(element.attributes@),
    ).followed_by(Rendering::emit(start_tag_end(kind) + leading_line_feed(kind))).followed_by(
        content_rendering(kind, element, content_limit),
    ).followed_by(Rendering::emit(end_tag(kind, element.name@)))
}

/// What rendering an element does, with `content_limit` levels left for
/// its content: a name that has no kind is a failure before anything is
/// written.
pub open spec fn element_rendering(element: Element, content_limit: nat) -> Rendering
    decreases content_limit, 3nat,
{
    match element_kind(element.name@) {
        Some(kind) => element_rendering_as(kind, element, content_limit),
        None => Rendering::fail(Failure::InvalidElementName(element.name@)),
    }
}

/// What rendering a tree as a fragment does.
pub open spec fn fragment_rendering(node: Node, depth_limit: nat) -> Rendering {
    node_rendering(PositionView::Markup, node, depth_limit)
}

/// What rendering a tree as a document does: the doctype, then the tree as
/// a fragment.
pub open spec fn document_rendering(node: Node, depth_limit: nat) -> Rendering {
    Rendering::emit("<!DOCTYPE html>"@).followed_by(fragment_rendering(node, depth_limit))
}

/// A document is the doctype and after it the fragment, for every tree and
/// every depth limit: the text of the one is the doctype before the text of
/// the other, and both fail alike.
pub proof fn lemma_document_is_doctype_and_fragment(node: Node, depth_limit: nat)
    ensures
        document_rendering(node, depth_limit).text == "<!DOCTYPE html>"@ + fragment_rendering(
            node,
            depth_limit,
        ).text,
        document_rendering(node, depth_limit).failure == fragment_rendering(
            node,
            depth_limit,
        ).failure,
{
}

/// An element that takes no content, void or self-closing, is rendered
/// without failure if and only if its attributes can be written and its
/// content stands for no DOM node, whatever the depth limit. Where the
/// attributes can be written, any other content is the failure.
pub proof fn lemma_void_element_takes_no_content(
    kind: ElementKind,
    element: Element,
    content_limit: nat,
)
    requires
        kind == ElementKind::Void || kind == ElementKind::ForeignSelfClosing,
    ensures
        element_rendering_as(kind, element, content_limit).failure is None <==> (
        attributes_rendering(element.attributes@).failure is None
            && element.content.is_dom_empty()),
        attributes_rendering(element.attributes@).failure is None
            && !element.content.is_dom_empty() ==> element_rendering_as(
            kind,
            element,
            content_limit,
        ).failure == Some(Failure::NonEmptyVoidElementContent(element.content)),
{
}

/// Renders `vdom` into `target` as an HTML document, with the doctype
/// before it.
///
/// `depth_limit` counts the levels of the tree that may be entered, the
/// root among them. Whether rendering succeeds or fails, what was written
/// until then stays in `target`.
pub fn render_document<'a>(vdom: &'a Node, target: &mut String, depth_limit: usize) -> (result:
    Result<(), Error<'a>>)
    ensures
        final(target)@ == old(target)@ + document_rendering(*vdom, depth_limit as nat).text,
        failure_of(result) == document_rendering(*vdom, depth_limit as nat).failure,
{
    target.append("<!DOCTYPE html>");
    let result = render_fragment(vdom, target, depth_limit);
    assert(final(target)@ =~= old(target)@ + document_rendering(*vdom, depth_limit as nat).text);
    result
}

/// Renders `vdom` into `target` as an HTML fragment, without a doctype.
///
/// `depth_limit` counts the levels of the tree that may be entered, the
/// root among them. Whether rendering succeeds or fails, what was written
/// until then stays in `target`.
pub fn render_fragment<'a>(vdom: &'a Node, target: &mut String, depth_limit: usize) -> (result:
    Result<(), Error<'a>>)
    ensures
        final(target)@ == old(target)@ + fragment_rendering(*vdom, depth_limit as nat).text,
        failure_of(result) == fragment_rendering(*vdom, depth_limit as nat).failure,
{
    render_node(Position::Markup, vdom, target, depth_limit)
}

/// Renders `vdom` into `target` as content of the raw text element called
/// `element_name`.
pub fn render_raw_text<'a>(
    vdom: &'a Node,
    target: &mut String,
    element_name: &str,
    depth_limit: usize,
) -> (result: Result<(), Error<'a>>)
    ensures
        final(target)@ == old(target)@ + node_rendering(
            PositionView::RawText { element_name: element_name@ },
            *vdom,
            depth_limit as nat,
        ).text,
        failure_of(result) == node_rendering(
            PositionView::RawText { element_name: element_name@ },
            *vdom,
            depth_limit as nat,
        ).failure,
{
    render_node(Position::RawText { element_name }, vdom, target, depth_limit)
}

/// Renders `vdom` into `target` as content of an escapable raw text
/// element.
pub fn render_escapable_raw_text<'a>(vdom: &'a Node, target: &mut String, depth_limit: usize) -> (result:
    Result<(), Error<'a>>)
    ensures
        final(target)@ == old(target)@ + node_rendering(
            PositionView::EscapableRawText,
            *vdom,
            depth_limit as nat,
        ).text,
        failure_of(result) == node_rendering(
            PositionView::EscapableRawText,
            *vdom,
            depth_limit as nat,
        ).failure,
{
    render_node(Position::EscapableRawText, vdom, target, depth_limit)
}

/// Renders `node` into `target` at `position`.
pub fn render_node<'a>(
    position: Position<'_>,
    node: &'a Node,
    target: &mut String,
    depth_limit: usize,
) -> (result: Result<(), Error<'a>>)
    ensures
        final(target)@ == old(target)@ + node_rendering(position@, *node, depth_limit as nat).text,
        failure_of(result) == node_rendering(position@, *node, depth_limit as nat).failure,
    decreases depth_limit, 0nat,
{
    if depth_limit == 0 {
        assert(final(target)@ =~= old(target)@ + Seq::<char>::empty());
        return Err(Error(ErrorKind::DepthLimitExceeded(node)));
    }
    match node {
        Node::Comment { comment } => match position {
            Position::Markup => {
                write_comment(comment.as_str(), target);
                Ok(())
            },
            _ => not_text(position, node, target),
        },
        Node::HtmlElement { element } => match position {
            Position::Markup => render_element(element, target, depth_limit - 1),
            _ => not_text(position, node, target),
        },
        Node::SvgElement { element } => match position {
            Position::Markup => render_element(element, target, depth_limit - 1),
            _ => not_text(position, node, target),
        },
        Node::Memoized { content, .. } => render_node(position, content, target, depth_limit - 1),
        Node::Multi(nodes) => {
            let ghost whole = nodes_rendering(position@, nodes@, (depth_limit - 1) as nat);
            let ghost mut written = Seq::<char>::empty();
            let mut i: usize = 0;
            assert(nodes@.skip(0) =~= nodes@);
            assert(target@ =~= old(target)@ + written);
            assert(whole =~= Rendering::emit(written).followed_by(whole));
            while i < nodes.len()
                invariant
                    i <= nodes.len(),
                    depth_limit > 0,
                    whole == node_rendering(position@, *node, depth_limit as nat),
                    whole == Rendering::emit(written).followed_by(
                        nodes_rendering(position@, nodes@.skip(i as int), (depth_limit - 1) as nat),
                    ),
                    target@ == old(target)@ + written,
                decreases nodes.len() - i,
            {
                let ghost rest = nodes@.skip(i as int);
                let ghost one = node_rendering(position@, rest[0], (depth_limit - 1) as nat);
                let step = render_node(position, &nodes[i], target, depth_limit - 1);
                assert(target@ =~= old(target)@ + (written + one.text));
                match step {
                    Ok(_) => {},
                    Err(error) => {
                        assert(whole =~= Rendering {
                            text: written + one.text,
                            failure: one.failure,
                        });
                        return Err(error);
                    },
                }
                proof {
                    assert(one =~= Rendering::emit(one.text));
                    lemma_emit_followed_by(
                        written,
                        one.text,
                        nodes_rendering(position@, rest.skip(1), (depth_limit - 1) as nat),
                    );
                    written = written + one.text;
                }
                i += 1;
                assert(rest.skip(1) =~= nodes@.skip(i as int));
            }
            assert(whole =~= Rendering::emit(written));
            Ok(())
        },
        Node::Keyed(fragments) => {
            let ghost contents = fragment_contents(fragments@);
            let ghost whole = nodes_rendering(position@, contents, (depth_limit - 1) as nat);
            let ghost mut written = Seq::<char>::empty();
            let mut i: usize = 0;
            assert(contents.skip(0) =~= contents);
            assert(target@ =~= old(target)@ + written);
            assert(whole =~= Rendering::emit(written).followed_by(whole));
            while i < fragments.len()
                invariant
                    i <= fragments.len(),
                    depth_limit > 0,
                    whole == node_rendering(position@, *node, depth_limit as nat),
                    contents == fragment_contents(fragments@),
                    whole == Rendering::emit(written).followed_by(
                        nodes_rendering(position@, contents.skip(i as int), (depth_limit - 1) as nat),
                    ),
                    target@ == old(target)@ + written,
                decreases fragments.len() - i,
            {
                let ghost rest = contents.skip(i as int);
                let ghost one = node_rendering(position@, rest[0], (depth_limit - 1) as nat);
                assert(rest[0] == fragments@[i as int].content);
                let step = render_node(position, &fragments[i].content, target, depth_limit - 1);
                assert(target@ =~= old(target)@ + (written + one.text));
                match step {
                    Ok(_) => {},
                    Err(error) => {
                        assert(whole =~= Rendering {
                            text: written + one.text,
                            failure: one.failure,
                        });
                        return Err(error);
                    },
                }
                proof {
                    assert(one =~= Rendering::emit(one.text));
                    lemma_emit_followed_by(
                        written,
                        one.text,
                        nodes_rendering(position@, rest.skip(1), (depth_limit - 1) as nat),
                    );
                    written = written + one.text;
                }
                i += 1;
                assert(rest.skip(1) =~= contents.skip(i as int));
            }
            assert(whole =~= Rendering::emit(written));
            Ok(())
        },
        Node::Text { text } => match position {
            Position::Markup => {
                write_text(text.as_str(), target);
                Ok(())
            },
            Position::RawText { element_name } => write_raw_text(
                text.as_str(),
                element_name,
                target,
            ),
            Position::EscapableRawText => {
                write_escapable_raw_text(text.as_str(), target);
                Ok(())
            },
        },
        Node::RemnantSite => {
            assert(final(target)@ =~= old(target)@ + Seq::<char>::empty());
            Err(Error(ErrorKind::RemnantSiteNotImplemented))
        },
    }
}

/// The error for a comment or an element at a position that takes only
/// text. Nothing is written.
fn not_text<'a>(position: Position<'_>, node: &'a Node, target: &mut String) -> (result: Result<
    (),
    Error<'a>,
>)
    ensures
        final(target)@ == old(target)@ + Seq::<char>::empty(),
        failure_of(result) == Some(not_text_failure(position@, *node)),
{
    assert(target@ =~= target@ + Seq::<char>::empty());
    match position {
        Position::EscapableRawText => Err(
            Error(ErrorKind::NonTextDomNodeInEscapableRawTextPosition(node)),
        ),
        _ => Err(Error(ErrorKind::NonTextDomNodeInRawTextPosition(node))),
    }
}

/// Renders `element` into `target`, with `content_limit` levels left for
/// its content.
pub fn render_element<'a>(element: &'a Element, target: &mut String, content_limit: usize) -> (result:
    Result<(), Error<'a>>)
    ensures
        final(target)@ == old(target)@ + element_rendering(*element, content_limit as nat).text,
        failure_of(result) == element_rendering(*element, content_limit as nat).failure,
    decreases content_limit, 1nat,
{
    let name = element.name.as_str();
    let kind = match ElementKind::detect(name) {
        Ok(kind) => kind,
        Err(name) => {
            assert(final(target)@ =~= old(target)@ + Seq::<char>::empty());
            return Err(Error(ErrorKind::InvalidElementName(name)));
        },
    };
    let ghost whole = element_rendering_as(kind, *element, content_limit as nat);
    let ghost start_tag = Rendering::emit("<"@ + element.name@).followed_by(
        attributes_rendering(element.attributes@),
    );
    target.append("<");
    target.append(name);
    match write_attributes(&element.attributes, target) {
        Ok(_) => {},
        Err(error) => {
            assert(target@ =~= old(target)@ + start_tag.text);
            assert(whole =~= start_tag);
            return Err(error);
        },
    }
    match kind {
        ElementKind::ForeignSelfClosing => target.append(" />"),
        _ => target.append(">"),
    }
    match kind {
        ElementKind::NormalPre | ElementKind::EscapableRawTextPre => target.append("\n"),
        _ => {},
    }
    let ghost opened = start_tag.followed_by(
        Rendering::emit(start_tag_end(kind) + leading_line_feed(kind)),
    );
    assert(target@ =~= old(target)@ + opened.text);
    let ghost content = content_rendering(kind, *element, content_limit as nat);
    let filled = match kind {
        ElementKind::Void | ElementKind::ForeignSelfClosing => {
            if element.content.dom_empty() {
                Ok(())
            } else {
                Err(Error(ErrorKind::NonEmptyVoidElementContent(&element.content)))
            }
        },
        ElementKind::RawText => render_node(
            Position::RawText { element_name: name },
            &element.content,
            target,
            content_limit,
        ),
        ElementKind::EscapableRawText | ElementKind::EscapableRawTextPre => render_node(
            Position::EscapableRawText,
            &element.content,
            target,
            content_limit,
        ),
        _ => render_node(Position::Markup, &element.content, target, content_limit),
    };
    assert(target@ =~= old(target)@ + opened.followed_by(content).text);
    match filled {
        Ok(_) => {},
        Err(error) => {
            assert(whole =~= opened.followed_by(content));
            return Err(error);
        },
    }
    match kind {
        ElementKind::Void | ElementKind::ForeignSelfClosing => {},
        _ => {
            target.append("</");
            target.append(name);
            target.append(">");
        },
    }
    assert(target@ =~= old(target)@ + whole.text);
    Ok(())
}

} // verus!

//! Why rendering failed: the error that the renderer returns, and the
//! failure that it stands for in contracts.

use vstd::prelude::*;
use crate::node::Node;

verus! {

/// The reason for which a tree cannot be rendered, as contracts speak of
/// it: the view of an [`Error`]. Text is a sequence of code points and a
/// node is the node of the tree at which rendering stopped.
pub enum Failure {
    /// The element's name is not one that can be written.
    InvalidElementName(Seq<char>),
    /// The attribute's name holds a code point that no attribute name may
    /// hold.
    InvalidAttributeName(Seq<char>),
    /// A void or self-closing element has content; the content is given.
    NonEmptyVoidElementContent(Node),
    /// A comment or an element stands where only raw text can.
    NonTextDomNodeInRawTextPosition(Node),
    /// A comment or an element stands where only escapable raw text can.
    NonTextDomNodeInEscapableRawTextPosition(Node),
    /// Raw text holds an end tag of the element around it; the end tag is
    /// given as it stands in the text, up to the code point after its name.
    ElementClosedInRawText(Seq<char>),
    /// The tree is deeper than the limit allows; the first node below the
    /// limit is given.
    DepthLimitExceeded(Node),
    /// The sink to which the text was handed on did not take it.
    SinkError,
    /// The tree holds a remnant site.
    RemnantSiteNotImplemented,
}

/// The kinds of error, each with what it was found on, borrowed from the
/// tree.
#[derive(Debug, PartialEq, Eq)]
pub enum ErrorKind<'a> {
    InvalidElementName(&'a str),
    InvalidAttributeName(&'a str),
    NonEmptyVoidElementContent(&'a Node),
    NonTextDomNodeInRawTextPosition(&'a Node),
    NonTextDomNodeInEscapableRawTextPosition(&'a Node),
    ElementClosedInRawText(&'a str),
    DepthLimitExceeded(&'a Node),
    /// Never returned by the renderer, which writes into memory: it is for
    /// callers that hand the text on to a sink that can fail.
    SinkError,
    RemnantSiteNotImplemented,
}

impl<'a> View for ErrorKind<'a> {
    type V = Failure;

    open spec fn view(&self) -> Failure {
        match *self {
            ErrorKind::InvalidElementName(name) => Failure::InvalidElementName(name@),
            ErrorKind::InvalidAttributeName(name) => Failure::InvalidAttributeName(name@),
            ErrorKind::NonEmptyVoidElementContent(node) => Failure::NonEmptyVoidElementContent(
                *node,
            ),
            ErrorKind::NonTextDomNodeInRawTextPosition(node) => {
                Failure::NonTextDomNodeInRawTextPosition(*node)
            },
            ErrorKind::NonTextDomNodeInEscapableRawTextPosition(node) => {
                Failure::NonTextDomNodeInEscapableRawTextPosition(*node)
            },
            ErrorKind::ElementClosedInRawText(span) => Failure::ElementClosedInRawText(span@),
            ErrorKind::DepthLimitExceeded(node) => Failure::DepthLimitExceeded(*node),
            ErrorKind::SinkError => Failure::SinkError,
            ErrorKind::RemnantSiteNotImplemented => Failure::RemnantSiteNotImplemented,
        }
    }
}

/// The error of a rendering that failed.
#[derive(Debug, PartialEq, Eq)]
pub struct Error<'a>(pub ErrorKind<'a>);

impl<'a> View for Error<'a> {
    type V = Failure;

    open spec fn view(&self) -> Failure {
        self.0@
    }
}

/// The failure that a result reports, if any.
pub open spec fn failure_of(result: Result<(), Error>) -> Option<Failure> {
    match result {
        Ok(_) => None,
        Err(error) => Some(error@),
    }
}

/// What a failure of each kind is called in a message to the user.
pub open spec fn description_of(failure: Failure) -> Seq<char> {
    match failure {
        Failure::InvalidElementName(_) => "Invalid element name"@,
        Failure::InvalidAttributeName(_) => "Invalid attribute name"@,
        Failure::NonEmptyVoidElementContent(_) => "Non-empty void element content"@,
        Failure::NonTextDomNodeInRawTextPosition(_) => "Non-text DOM node in raw text position"@,
        Failure::NonTextDomNodeInEscapableRawTextPosition(_) => {
            "Non-text DOM node in escapable raw text position"@
        },
        Failure::ElementClosedInRawText(_) => "Element closed in raw text"@,
        Failure::DepthLimitExceeded(_) => "Depth limit exceeded"@,
        Failure::SinkError => "Sink error"@,
        Failure::RemnantSiteNotImplemented => "Remnant sites are not implemented"@,
    }
}

impl<'a> Error<'a> {
    /// The kind of the error, in words, without what it was found on.
    pub fn description(&self) -> (text: &'static str)
        ensures
            text@ == description_of(self@),
    {
        match self.0 {
            ErrorKind::InvalidElementName(_) => "Invalid element name",
            ErrorKind::InvalidAttributeName(_) => "Invalid attribute name",
            ErrorKind::NonEmptyVoidElementContent(_) => "Non-empty void element content",
            ErrorKind::NonTextDomNodeInRawTextPosition(_) => {
                "Non-text DOM node in raw text position"
            },
            ErrorKind::NonTextDomNodeInEscapableRawTextPosition(_) => {
                "Non-text DOM node in escapable raw text position"
            },
            ErrorKind::ElementClosedInRawText(_) => "Element closed in raw text",
            ErrorKind::DepthLimitExceeded(_) => "Depth limit exceeded",
            ErrorKind::SinkError => "Sink error",
            ErrorKind::RemnantSiteNotImplemented => "Remnant sites are not implemented",
        }
    }
}

} // verus!

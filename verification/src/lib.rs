//! Renders a virtual DOM tree as HTML text, with the escaping that each
//! position calls for and a limit on the depth of the tree.
//!
//! Validation is syntactic only: the names of elements and attributes, the
//! content of void and raw text elements. Whether the elements may stand
//! where they do is not looked at.

pub mod attribute;
pub mod comment;
pub mod depth;
pub mod element_kind;
pub mod error;
pub mod node;
pub mod render;
pub mod rendering;
pub mod strings;
pub mod text;

pub use crate::attribute::AttributeValueMode;
pub use crate::element_kind::ElementKind;
pub use crate::error::{Error, ErrorKind};
pub use crate::node::{Attribute, Element, Node, ReorderableFragment};
pub use crate::render::{render_document, render_fragment};

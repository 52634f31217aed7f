//! The kinds of element, which decide how an element's content and end tag
//! are written, and the classification of a tag name.

use vstd::prelude::*;
use crate::strings::{
    ascii_alphanumeric, ascii_lowercase, ascii_lowercased, is_ascii_alphanumeric, spells,
};

verus! {

/// The kind of an element.
#[derive(Debug, Clone, Copy, PartialEq, Eq, Structural)]
pub enum ElementKind {
    /// No content and no end tag: `area`, `base`, `br`, `col`, `embed`,
    /// `hr`, `img`, `input`, `link`, `meta`, `param`, `source`, `track`,
    /// `wbr`.
    Void,
    /// `template`: content as in a normal element.
    Template,
    /// `script` and `style`: text that cannot be escaped.
    RawText,
    /// `textarea`: escapable raw text after a line feed.
    EscapableRawTextPre,
    /// `title`: text in which only `</` and `&` are escaped.
    EscapableRawText,
    /// A foreign element that closes itself with ` />` and has no content.
    /// Reserved: no name is classified as this kind.
    ForeignSelfClosing,
    /// A foreign element written like a normal one. Reserved: no name is
    /// classified as this kind.
    ForeignNotSelfClosing,
    /// `pre` and `listing`: a normal element whose content follows a line
    /// feed.
    NormalPre,
    /// Every other name of ASCII letters and digits, and every name of a
    /// custom element.
    Normal,
}

/// The code points, besides ASCII letters, digits and `-`, that can follow
/// the first run of a custom element's name.
pub open spec fn is_name_continuation(c: char) -> bool {
    ||| c == '.' || c == '_' || c == '\u{B7}'
    ||| '\u{C0}' <= c <= '\u{D6}'
    ||| '\u{D8}' <= c <= '\u{F6}'
    ||| '\u{F8}' <= c <= '\u{37D}'
    ||| '\u{37F}' <= c <= '\u{1FFF}'
    ||| '\u{200C}' <= c <= '\u{200D}'
    ||| '\u{203F}' <= c <= '\u{2040}'
    ||| '\u{2070}' <= c <= '\u{218F}'
    ||| '\u{2C00}' <= c <= '\u{2FEF}'
    ||| '\u{3001}' <= c <= '\u{D7FF}'
    ||| '\u{F900}' <= c <= '\u{FDCF}'
    ||| '\u{FDF0}' <= c <= '\u{FFFD}'
    ||| '\u{10000}' <= c <= '\u{EFFFF}'
}

/// The code points that a tag name can hold at all.
pub open spec fn is_name_char(c: char) -> bool {
    is_ascii_alphanumeric(c) || c == '-' || is_name_continuation(c)
}

/// The kind that a name in ASCII lower case stands for: one of the fixed
/// names, or else normal.
pub open spec fn kind_of_lowercase_name(name: Seq<char>) -> ElementKind {
    if name == "area"@ || name == "base"@ || name == "br"@ || name == "col"@ || name == "embed"@
        || name == "hr"@ || name == "img"@ || name == "input"@ || name == "link"@ || name
        == "meta"@ || name == "param"@ || name == "source"@ || name == "track"@ || name == "wbr"@ {
        ElementKind::Void
    } else if name == "template"@ {
        ElementKind::Template
    } else if name == "script"@ || name == "style"@ {
        ElementKind::RawText
    } else if name == "textarea"@ {
        ElementKind::EscapableRawTextPre
    } else if name == "title"@ {
        ElementKind::EscapableRawText
    } else if name == "pre"@ || name == "listing"@ {
        ElementKind::NormalPre
    } else {
        ElementKind::Normal
    }
}

/// Whether every code point of `name` is an ASCII letter or digit.
pub open spec fn is_plain_name(name: Seq<char>) -> bool {
    forall|i: int| 0 <= i < name.len() ==> is_ascii_alphanumeric(#[trigger] name[i])
}

/// Whether `name` is made of code points that a tag name can hold.
pub open spec fn is_made_of_name_chars(name: Seq<char>) -> bool {
    forall|i: int| 0 <= i < name.len() ==> is_name_char(#[trigger] name[i])
}

/// Whether `name` holds a `-`.
pub open spec fn holds_dash(name: Seq<char>) -> bool {
    exists|i: int| 0 <= i < name.len() && #[trigger] name[i] == '-'
}

/// The kind of the element called `name`, or `None` for a name that cannot
/// be written.
///
/// A name begins with an ASCII letter or digit. One made of such code
/// points only has the kind of the fixed name that it is in any ASCII
/// case, or is normal. One that goes on with other code points is the name
/// of a custom element, which is normal: it holds nothing but letters,
/// digits, `-` and continuation code points, and it holds a `-`.
pub open spec fn element_kind(name: Seq<char>) -> Option<ElementKind> {
    if name.len() == 0 || !is_ascii_alphanumeric(name[0]) {
        None
    } else if is_plain_name(name) {
        Some(kind_of_lowercase_name(ascii_lowercased(name)))
    } else if is_made_of_name_chars(name) && holds_dash(name) {
        Some(ElementKind::Normal)
    } else {
        None
    }
}

/// Whether `c` is a continuation code point.
pub fn name_continuation(c: char) -> (yes: bool)
    ensures
        yes == is_name_continuation(c),
{
    let code: u32 = c as u32;
    c == '.' || c == '_' || code == 0xB7 || (0xC0 <= code && code <= 0xD6) || (0xD8 <= code && code
        <= 0xF6) || (0xF8 <= code && code <= 0x37D) || (0x37F <= code && code <= 0x1FFF) || (0x200C
        <= code && code <= 0x200D) || (0x203F <= code && code <= 0x2040) || (0x2070 <= code && code
        <= 0x218F) || (0x2C00 <= code && code <= 0x2FEF) || (0x3001 <= code && code <= 0xD7FF) || (
    0xF900 <= code && code <= 0xFDCF) || (0xFDF0 <= code && code <= 0xFFFD) || (0x10000 <= code
        && code <= 0xEFFFF)
}

/// The kind that a name in ASCII lower case stands for.
pub fn lowercase_name_kind(name: &Vec<char>) -> (kind: ElementKind)
    ensures
        kind == kind_of_lowercase_name(name@),
{
    if spells(name, "area") || spells(name, "base") || spells(name, "br") || spells(name, "col")
        || spells(name, "embed") || spells(name, "hr") || spells(name, "img") || spells(
        name,
        "input",
    ) || spells(name, "link") || spells(name, "meta") || spells(name, "param") || spells(
        name,
        "source",
    ) || spells(name, "track") || spells(name, "wbr") {
        ElementKind::Void
    } else if spells(name, "template") {
        ElementKind::Template
    } else if spells(name, "script") || spells(name, "style") {
        ElementKind::RawText
    } else if spells(name, "textarea") {
        ElementKind::EscapableRawTextPre
    } else if spells(name, "title") {
        ElementKind::EscapableRawText
    } else if spells(name, "pre") || spells(name, "listing") {
        ElementKind::NormalPre
    } else {
        ElementKind::Normal
    }
}

impl ElementKind {
    /// The kind of the element called `element_name`, or the name itself
    /// where it cannot be written.
    pub fn detect(element_name: &str) -> (result: Result<ElementKind, &str>)
        ensures
            match element_kind(element_name@) {
                Some(kind) => result == Ok::<ElementKind, &str>(kind),
                None => result == Err::<ElementKind, &str>(element_name),
            },
    {
        let ghost name = element_name@;
        let mut lower: Vec<char> = Vec::new();
        let mut seen_any: bool = false;
        let mut starts_plain: bool = false;
        let mut plain: bool = true;
        let mut legal: bool = true;
        let mut dashed: bool = false;
        for c in it: element_name.chars()
            invariant
                it.seq() == name,
                name == element_name@,
                seen_any <==> it.index() > 0,
                seen_any ==> starts_plain == is_ascii_alphanumeric(name[0]),
                plain <==> forall|i: int|
                    0 <= i < it.index() ==> is_ascii_alphanumeric(#[trigger] name[i]),
                plain ==> lower@ == ascii_lowercased(name.take(it.index())),
                legal <==> forall|i: int| 0 <= i < it.index() ==> is_name_char(#[trigger] name[i]),
                dashed <==> exists|i: int| 0 <= i < it.index() && #[trigger] name[i] == '-',
        {
            let ghost at = it.index();
            assert(c == name[at]);
            let alphanumeric = ascii_alphanumeric(c);
            if !seen_any {
                seen_any = true;
                starts_plain = alphanumeric;
            }
            if alphanumeric {
                if plain {
                    lower.push(ascii_lowercase(c));
                    assert(lower@ =~= ascii_lowercased(name.take(at + 1)));
                }
            } else {
                plain = false;
                if c == '-' {
                    dashed = true;
                } else if !name_continuation(c) {
                    legal = false;
                }
            }
        }
        assert(name.take(name.len() as int) =~= name);
        if !seen_any || !starts_plain {
            Err(element_name)
        } else if plain {
            Ok(lowercase_name_kind(&lower))
        } else if legal && dashed {
            Ok(ElementKind::Normal)
        } else {
            Err(element_name)
        }
    }
}

} // verus!

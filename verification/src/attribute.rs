//! Attributes: which names can be written, how a value is quoted, and what
//! is escaped in it.

use vstd::prelude::*;
use crate::error::{Error, ErrorKind, Failure, failure_of};
use crate::node::Attribute;
use crate::rendering::{Rendering, lemma_emit_followed_by};

verus! {

/// How an attribute's value is written.
#[derive(Debug, Clone, Copy, PartialEq, Eq, Structural)]
pub enum AttributeValueMode {
    /// The value is empty: the name stands alone.
    Empty,
    /// The value follows `=` as it is.
    Unquoted,
    /// The value stands between `'`.
    SingleQuoted,
    /// The value stands between `"`, with every `"` in it escaped.
    DoubleQuoted,
}

/// The code points that cannot stand in an unquoted value: ASCII
/// whitespace, `=`, `<`, `>`, the backtick and both quotes.
pub open spec fn breaks_unquoted(c: char) -> bool {
    ||| c == '\t' || c == '\n' || c == '\x0C' || c == '\r' || c == ' '
    ||| c == '=' || c == '<' || c == '>' || c == '`'
    ||| c == '"' || c == '\''
}

/// The mode in which `value` is written: the first that fits of unquoted,
/// double-quoted and single-quoted; a value that holds both quotes is
/// double-quoted.
pub open spec fn value_mode(value: Seq<char>) -> AttributeValueMode {
    if value.len() == 0 {
        AttributeValueMode::Empty
    } else if forall|i: int| 0 <= i < value.len() ==> !breaks_unquoted(#[trigger] value[i]) {
        AttributeValueMode::Unquoted
    } else if forall|i: int| 0 <= i < value.len() ==> #[trigger] value[i] != '"' {
        AttributeValueMode::DoubleQuoted
    } else if forall|i: int| 0 <= i < value.len() ==> #[trigger] value[i] != '\'' {
        AttributeValueMode::SingleQuoted
    } else {
        AttributeValueMode::DoubleQuoted
    }
}

impl AttributeValueMode {
    /// The mode in which `value` is written.
    pub fn detect(value: &str) -> (mode: AttributeValueMode)
        ensures
            mode == value_mode(value@),
    {
        if value.is_empty() {
            return AttributeValueMode::Empty;
        }
        let mut unquoted: bool = true;
        let mut double_quoted: bool = true;
        let mut single_quoted: bool = true;
        for c in it: value.chars()
            invariant
                it.seq() == value@,
                unquoted <==> forall|i: int|
                    0 <= i < it.index() ==> !breaks_unquoted(#[trigger] value@[i]),
                double_quoted <==> forall|i: int| 0 <= i < it.index() ==> #[trigger] value@[i] != '"',
                single_quoted <==> forall|i: int|
                    0 <= i < it.index() ==> #[trigger] value@[i] != '\'',
        {
            if c == '"' {
                unquoted = false;
                double_quoted = false;
            } else if c == '\'' {
                unquoted = false;
                single_quoted = false;
            } else if c == '\t' || c == '\n' || c == '\x0C' || c == '\r' || c == ' ' || c == '='
                || c == '<' || c == '>' || c == '`' {
                unquoted = false;
            }
        }
        if unquoted {
            AttributeValueMode::Unquoted
        } else if double_quoted {
            AttributeValueMode::DoubleQuoted
        } else if single_quoted {
            AttributeValueMode::SingleQuoted
        } else {
            AttributeValueMode::DoubleQuoted
        }
    }
}

/// The code points that no attribute name may hold: the controls
/// U+0000–U+001F and U+007F–U+009F, the space, both quotes, `>`, `/`, `=`,
/// and the noncharacters, which are U+FDD0–U+FDEF and, in every plane, the
/// two code points whose low sixteen bits are FFFE and FFFF.
pub open spec fn is_forbidden_in_attribute_name(c: char) -> bool {
    ||| c <= '\u{1F}'
    ||| '\u{7F}' <= c <= '\u{9F}'
    ||| c == ' ' || c == '"' || c == '\'' || c == '>' || c == '/' || c == '='
    ||| '\u{FDD0}' <= c <= '\u{FDEF}'
    ||| (c as int) % 0x10000 >= 0xFFFE
}

/// Whether `name` can be written as the name of an attribute.
pub open spec fn is_attribute_name(name: Seq<char>) -> bool {
    forall|i: int| 0 <= i < name.len() ==> !is_forbidden_in_attribute_name(#[trigger] name[i])
}

/// Whether `c` is a code point that no attribute name may hold.
pub fn forbidden_in_attribute_name(c: char) -> (forbidden: bool)
    ensures
        forbidden == is_forbidden_in_attribute_name(c),
{
    let code: u32 = c as u32;
    code <= 0x1F || (0x7F <= code && code <= 0x9F) || c == ' ' || c == '"' || c == '\'' || c == '>'
        || c == '/' || c == '=' || (0xFDD0 <= code && code <= 0xFDEF) || code % 0x10000 >= 0xFFFE
}

/// Hands `name` back if it can be written as the name of an attribute.
pub fn validate_attribute_name<'a>(name: &'a str) -> (result: Result<&'a str, Error<'a>>)
    ensures
        is_attribute_name(name@) ==> result == Ok::<&str, Error>(name),
        !is_attribute_name(name@) ==> result == Err::<&str, Error>(
            Error(ErrorKind::InvalidAttributeName(name)),
        ),
{
    for c in it: name.chars()
        invariant
            it.seq() == name@,
            forall|i: int|
                0 <= i < it.index() ==> !is_forbidden_in_attribute_name(#[trigger] name@[i]),
    {
        if forbidden_in_attribute_name(c) {
            assert(is_forbidden_in_attribute_name(name@[it.index()]));
            return Err(Error(ErrorKind::InvalidAttributeName(name)));
        }
    }
    Ok(name)
}

/// How one code point of a value is written in the given mode: `&` as an
/// entity, `"` as an entity between double quotes, every other code point
/// as it is.
pub open spec fn escaped_value_char(c: char, mode: AttributeValueMode) -> Seq<char> {
    if c == '&' {
        "&amp;"@
    } else if c == '"' && mode == AttributeValueMode::DoubleQuoted {
        "&quot;"@
    } else {
        seq![c]
    }
}

/// A value as it is written in the given mode, without its quotes.
pub open spec fn escaped_value(value: Seq<char>, mode: AttributeValueMode) -> Seq<char>
    decreases value.len(),
{
    if value.len() == 0 {
        Seq::empty()
    } else {
        escaped_value_char(value[0], mode) + escaped_value(value.skip(1), mode)
    }
}

/// What follows the attribute's name: nothing for an empty value; else `=`
/// and the value, escaped and between the quotes of its mode.
pub open spec fn value_markup(value: Seq<char>) -> Seq<char> {
    match value_mode(value) {
        AttributeValueMode::Empty => Seq::empty(),
        AttributeValueMode::Unquoted => "="@ + escaped_value(value, AttributeValueMode::Unquoted),
        AttributeValueMode::SingleQuoted => "='"@ + escaped_value(
            value,
            AttributeValueMode::SingleQuoted,
        ) + "'"@,
        AttributeValueMode::DoubleQuoted => "=\""@ + escaped_value(
            value,
            AttributeValueMode::DoubleQuoted,
        ) + "\""@,
    }
}

/// What writing one attribute does: a space, the name and the value, or a
/// failure for a name that cannot be written.
pub open spec fn attribute_rendering(name: Seq<char>, value: Seq<char>) -> Rendering {
    if is_attribute_name(name) {
        Rendering::emit(" "@ + name + value_markup(value))
    } else {
        Rendering::fail(Failure::InvalidAttributeName(name))
    }
}

/// What writing attributes in order does.
pub open spec fn attributes_rendering(attributes: Seq<Attribute>) -> Rendering
    decreases attributes.len(),
{
    if attributes.len() == 0 {
        Rendering::emit(Seq::empty())
    } else {
        attribute_rendering(attributes[0].name@, attributes[0].value@).followed_by(
            attributes_rendering(attributes.skip(1)),
        )
    }
}

/// An unquoted value is written without any code point that would end it:
/// no whitespace, `=`, `<`, `>`, backtick or quote.
pub proof fn lemma_unquoted_value_is_unbroken(value: Seq<char>)
    requires
        value_mode(value) == AttributeValueMode::Unquoted,
    ensures
        forall|i: int|
            0 <= i < escaped_value(value, AttributeValueMode::Unquoted).len() ==> !breaks_unquoted(
                #[trigger] escaped_value(value, AttributeValueMode::Unquoted)[i],
            ),
{
    lemma_escaped_unbroken(value);
}

proof fn lemma_escaped_unbroken(value: Seq<char>)
    requires
        forall|i: int| 0 <= i < value.len() ==> !breaks_unquoted(#[trigger] value[i]),
    ensures
        forall|i: int|
            0 <= i < escaped_value(value, AttributeValueMode::Unquoted).len() ==> !breaks_unquoted(
                #[trigger] escaped_value(value, AttributeValueMode::Unquoted)[i],
            ),
    decreases value.len(),
{
    reveal_strlit("&amp;");
    if value.len() > 0 {
        let mode = AttributeValueMode::Unquoted;
        let head = escaped_value_char(value[0], mode);
        let tail = escaped_value(value.skip(1), mode);
        let out = escaped_value(value, mode);
        assert(!breaks_unquoted(value[0]));
        assert forall|i: int| 0 <= i < value.skip(1).len() implies !breaks_unquoted(
            #[trigger] value.skip(1)[i],
        ) by {
            assert(value.skip(1)[i] == value[i + 1]);
        }
        lemma_escaped_unbroken(value.skip(1));
        assert(out == head + tail);
        assert forall|i: int| 0 <= i < out.len() implies !breaks_unquoted(#[trigger] out[i]) by {
            if i >= head.len() {
                assert(out[i] == tail[i - head.len()]);
            } else {
                assert(out[i] == head[i]);
            }
        }
    }
}

/// Appends `value` to `target` as it is written in `mode`, without quotes.
fn write_escaped_value(value: &str, mode: AttributeValueMode, target: &mut String)
    ensures
        final(target)@ == old(target)@ + escaped_value(value@, mode),
{
    let ghost start = target@;
    assert(value@.skip(0) =~= value@);
    for c in it: value.chars()
        invariant
            it.seq() == value@,
            target@ + escaped_value(value@.skip(it.index()), mode) == start + escaped_value(
                value@,
                mode,
            ),
    {
        let ghost before = target@;
        let ghost rest = value@.skip(it.index());
        if c == '&' {
            target.append("&amp;");
        } else if c == '"' && mode == AttributeValueMode::DoubleQuoted {
            target.append("&quot;");
        } else {
            target.push(c);
        }
        assert(rest.skip(1) =~= value@.skip(it.index() + 1));
        assert(target@ + escaped_value(rest.skip(1), mode) =~= before + escaped_value(rest, mode));
    }
}

/// Appends one attribute to `target`, or fails on its name and writes
/// nothing.
pub fn write_attribute<'a>(name: &'a str, value: &str, target: &mut String) -> (result: Result<
    (),
    Error<'a>,
>)
    ensures
        final(target)@ == old(target)@ + attribute_rendering(name@, value@).text,
        failure_of(result) == attribute_rendering(name@, value@).failure,
{
    let name = match validate_attribute_name(name) {
        Ok(name) => name,
        Err(error) => {
            assert(final(target)@ =~= old(target)@ + Seq::<char>::empty());
            return Err(error);
        },
    };
    target.append(" ");
    target.append(name);
    let mode = AttributeValueMode::detect(value);
    match mode {
        AttributeValueMode::Empty => {},
        AttributeValueMode::Unquoted => {
            target.append("=");
            write_escaped_value(value, mode, target);
        },
        AttributeValueMode::SingleQuoted => {
            target.append("='");
            write_escaped_value(value, mode, target);
            target.append("'");
        },
        AttributeValueMode::DoubleQuoted => {
            target.append("=\"");
            write_escaped_value(value, mode, target);
            target.append("\"");
        },
    }
    assert(final(target)@ =~= old(target)@ + (" "@ + name@ + value_markup(value@)));
    Ok(())
}

/// Appends the attributes to `target` in order, up to the first whose name
/// cannot be written.
pub fn write_attributes<'a>(attributes: &'a Vec<Attribute>, target: &mut String) -> (result:
    Result<(), Error<'a>>)
    ensures
        final(target)@ == old(target)@ + attributes_rendering(attributes@).text,
        failure_of(result) == attributes_rendering(attributes@).failure,
{
    let ghost whole = attributes_rendering(attributes@);
    let ghost mut written = Seq::<char>::empty();
    let mut i: usize = 0;
    assert(attributes@.skip(0) =~= attributes@);
    assert(target@ =~= old(target)@ + written);
    assert(whole =~= Rendering::emit(written).followed_by(attributes_rendering(attributes@)));
    while i < attributes.len()
        invariant
            i <= attributes.len(),
            whole == attributes_rendering(attributes@),
            whole == Rendering::emit(written).followed_by(
                attributes_rendering(attributes@.skip(i as int)),
            ),
            target@ == old(target)@ + written,
        decreases attributes.len() - i,
    {
        let ghost rest = attributes@.skip(i as int);
        let ghost one = attribute_rendering(rest[0].name@, rest[0].value@);
        let attribute = &attributes[i];
        let step = write_attribute(attribute.name.as_str(), attribute.value.as_str(), target);
        assert(target@ =~= old(target)@ + (written + one.text));
        match step {
            Ok(_) => {},
            Err(error) => {
                assert(whole =~= Rendering { text: written + one.text, failure: one.failure });
                return Err(error);
            },
        }
        proof {
            lemma_emit_followed_by(written, one.text, attributes_rendering(rest.skip(1)));
            assert(one =~= Rendering::emit(one.text));
            written = written + one.text;
        }
        i += 1;
        assert(rest.skip(1) =~= attributes@.skip(i as int));
    }
    assert(whole =~= Rendering::emit(written));
    Ok(())
}

} // verus!

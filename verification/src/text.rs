//! Text in its three positions: as content of a normal element, where `<`
//! and `&` are escaped; as content of an escapable raw text element, where
//! `</` and `&` are; and as content of a raw text element, where nothing
//! can be escaped and an end tag of that element is refused.

use vstd::prelude::*;
use crate::error::{Error, ErrorKind, Failure, failure_of};
use crate::rendering::{Rendering, lemma_emit_followed_by};
use crate::strings::{
    chars_of, eq_ignore_ascii_case, same_ignoring_ascii_case, text_eq_ignore_ascii_case,
};

verus! {

/// How one code point of text is written: `<` and `&` as entities, every
/// other code point as it is.
pub open spec fn escaped_text_char(c: char) -> Seq<char> {
    if c == '<' {
        "&lt;"@
    } else if c == '&' {
        "&amp;"@
    } else {
        seq![c]
    }
}

/// Text as it is written in the content of a normal element.
pub open spec fn escaped_text(text: Seq<char>) -> Seq<char>
    decreases text.len(),
{
    if text.len() == 0 {
        Seq::empty()
    } else {
        escaped_text_char(text[0]) + escaped_text(text.skip(1))
    }
}

/// Text without `<` and `&` is written as it is.
pub proof fn lemma_plain_text_is_verbatim(text: Seq<char>)
    requires
        forall|i: int| 0 <= i < text.len() ==> text[i] != '<' && text[i] != '&',
    ensures
        escaped_text(text) == text,
    decreases text.len(),
{
    if text.len() > 0 {
        lemma_plain_text_is_verbatim(text.skip(1));
        assert(seq![text[0]] + text.skip(1) =~= text);
    }
}

/// Appends `text` to `target` as content of a normal element.
pub fn write_text(text: &str, target: &mut String)
    ensures
        final(target)@ == old(target)@ + escaped_text(text@),
{
    let ghost start = target@;
    assert(text@.skip(0) =~= text@);
    for c in it: text.chars()
        invariant
            it.seq() == text@,
            target@ + escaped_text(text@.skip(it.index())) == start + escaped_text(text@),
    {
        let ghost before = target@;
        let ghost rest = text@.skip(it.index());
        if c == '<' {
            target.append("&lt;");
        } else if c == '&' {
            target.append("&amp;");
        } else {
            target.push(c);
        }
        assert(rest.skip(1) =~= text@.skip(it.index() + 1));
        assert(target@ + escaped_text(rest.skip(1)) =~= before + escaped_text(rest));
    }
}

/// Text as it is written in the content of an escapable raw text element:
/// scanning from the left, `</` becomes `&lt;/` and `&` becomes `&amp;`; a
/// `<` before anything else, and every other code point, stays.
pub open spec fn escaped_raw_text(text: Seq<char>) -> Seq<char>
    decreases text.len(),
{
    if text.len() == 0 {
        Seq::empty()
    } else if text.len() >= 2 && text[0] == '<' && text[1] == '/' {
        "&lt;/"@ + escaped_raw_text(text.skip(2))
    } else if text[0] == '&' {
        "&amp;"@ + escaped_raw_text(text.skip(1))
    } else {
        seq![text[0]] + escaped_raw_text(text.skip(1))
    }
}

/// Appends `text` to `target` as content of an escapable raw text element.
pub fn write_escapable_raw_text(text: &str, target: &mut String)
    ensures
        final(target)@ == old(target)@ + escaped_raw_text(text@),
{
    let chars = chars_of(text);
    let n: usize = chars.len();
    let ghost start = target@;
    let mut i: usize = 0;
    assert(chars@.skip(0) =~= chars@);
    while i < n
        invariant
            i <= n,
            n == chars@.len(),
            chars@ == text@,
            target@ + escaped_raw_text(chars@.skip(i as int)) == start + escaped_raw_text(chars@),
        decreases n - i,
    {
        let ghost before = target@;
        let ghost rest = chars@.skip(i as int);
        if n - i >= 2 && chars[i] == '<' && chars[i + 1] == '/' {
            target.append("&lt;/");
            i += 2;
            assert(rest.skip(2) =~= chars@.skip(i as int));
        } else if chars[i] == '&' {
            target.append("&amp;");
            i += 1;
            assert(rest.skip(1) =~= chars@.skip(i as int));
        } else {
            target.push(chars[i]);
            i += 1;
            assert(rest.skip(1) =~= chars@.skip(i as int));
        }
        assert(target@ + escaped_raw_text(chars@.skip(i as int)) =~= before + escaped_raw_text(
            rest,
        ));
    }
}

/// The code points that end a tag's name: tab, line feed, form feed,
/// carriage return, space, `>` and `/`.
pub open spec fn ends_tag_name(c: char) -> bool {
    c == '\t' || c == '\n' || c == '\x0C' || c == '\r' || c == ' ' || c == '>' || c == '/'
}

/// An end tag of the element called `name` stands at index `at` of `text`:
/// `</`, then the name in any ASCII case, then a code point that ends the
/// name.
pub open spec fn closes_element_at(text: Seq<char>, at: int, name: Seq<char>) -> bool {
    &&& 0 <= at
    &&& at + name.len() + 3 <= text.len()
    &&& text[at] == '<'
    &&& text[at + 1] == '/'
    &&& text_eq_ignore_ascii_case(text.subrange(at + 2, at + 2 + name.len()), name)
    &&& ends_tag_name(text[at + 2 + name.len()])
}

/// What writing `text` as content of the raw text element called `name`
/// does: the text is written as it is, up to the first end tag of that
/// element, which is a failure.
pub open spec fn raw_text_rendering(text: Seq<char>, name: Seq<char>) -> Rendering
    decreases text.len(),
{
    if text.len() == 0 {
        Rendering::emit(Seq::empty())
    } else if closes_element_at(text, 0, name) {
        Rendering::fail(Failure::ElementClosedInRawText(text.take(name.len() as int + 3)))
    } else {
        Rendering::emit(seq![text[0]]).followed_by(raw_text_rendering(text.skip(1), name))
    }
}

/// Raw text that holds no end tag of its element is written as it is.
pub proof fn lemma_raw_text_is_verbatim(text: Seq<char>, name: Seq<char>)
    requires
        forall|at: int| !closes_element_at(text, at, name),
    ensures
        raw_text_rendering(text, name) == Rendering::emit(text),
    decreases text.len(),
{
    if text.len() > 0 {
        let rest = text.skip(1);
        assert forall|at: int| !closes_element_at(rest, at, name) by {
            if closes_element_at(rest, at, name) {
                assert(rest.subrange(at + 2, at + 2 + name.len()) =~= text.subrange(
                    at + 3,
                    at + 3 + name.len(),
                ));
                assert(closes_element_at(text, at + 1, name));
            }
        }
        lemma_raw_text_is_verbatim(rest, name);
        assert(seq![text[0]] + rest =~= text);
    }
    assert(raw_text_rendering(text, name) =~= Rendering::emit(text));
}

/// Whether an end tag of the element called `name` stands at index `at`.
pub fn closes_element(text: &Vec<char>, at: usize, name: &Vec<char>) -> (closes: bool)
    ensures
        closes == closes_element_at(text@, at as int, name@),
{
    let n: usize = text.len();
    let m: usize = name.len();
    if at >= n || n - at < 3 || n - at - 3 < m {
        return false;
    }
    if text[at] != '<' || text[at + 1] != '/' {
        return false;
    }
    let ghost window = text@.subrange(at + 2, at + 2 + m);
    let mut j: usize = 0;
    while j < m
        invariant
            j <= m,
            m == name@.len(),
            n == text@.len(),
            at + m + 3 <= n,
            window == text@.subrange(at + 2, at + 2 + m),
            forall|k: int| 0 <= k < j ==> eq_ignore_ascii_case(#[trigger] window[k], name@[k]),
        decreases m - j,
    {
        if !same_ignoring_ascii_case(text[at + 2 + j], name[j]) {
            assert(!eq_ignore_ascii_case(window[j as int], name@[j as int]));
            return false;
        }
        j += 1;
    }
    let c: char = text[at + 2 + m];
    c == '\t' || c == '\n' || c == '\x0C' || c == '\r' || c == ' ' || c == '>' || c == '/'
}

/// Appends `text` to `target` as content of the raw text element called
/// `element_name`, or stops at the first end tag of that element in it.
pub fn write_raw_text<'a>(text: &'a str, element_name: &str, target: &mut String) -> (result:
    Result<(), Error<'a>>)
    ensures
        final(target)@ == old(target)@ + raw_text_rendering(text@, element_name@).text,
        failure_of(result) == raw_text_rendering(text@, element_name@).failure,
{
    let chars = chars_of(text);
    let name = chars_of(element_name);
    let n: usize = chars.len();
    let m: usize = name.len();
    let ghost start = target@;
    let ghost whole = raw_text_rendering(chars@, name@);
    let mut i: usize = 0;
    assert(chars@.skip(0) =~= chars@);
    assert(target@ =~= start + Seq::<char>::empty());
    while i < n
        invariant
            i <= n,
            n == chars@.len(),
            m == name@.len(),
            chars@ == text@,
            name@ == element_name@,
            whole == raw_text_rendering(chars@, name@),
            whole == Rendering::emit(chars@.take(i as int)).followed_by(
                raw_text_rendering(chars@.skip(i as int), name@),
            ),
            start == old(target)@,
            target@ == start + chars@.take(i as int),
        decreases n - i,
    {
        let ghost rest = chars@.skip(i as int);
        if closes_element(&chars, i, &name) {
            assert(closes_element_at(rest, 0, name@)) by {
                assert(rest.subrange(2, 2 + m) =~= chars@.subrange(i + 2, i + 2 + m));
            }
            let span = text.substring_char(i, i + m + 3);
            assert(span@ =~= rest.take(m + 3));
            assert(raw_text_rendering(rest, name@).text =~= Seq::<char>::empty());
            assert(whole.text =~= chars@.take(i as int));
            return Err(Error(ErrorKind::ElementClosedInRawText(span)));
        }
        assert(!closes_element_at(rest, 0, name@)) by {
            if closes_element_at(rest, 0, name@) {
                assert(rest.subrange(2, 2 + m) =~= chars@.subrange(i + 2, i + 2 + m));
            }
        }
        target.push(chars[i]);
        i += 1;
        assert(rest.skip(1) =~= chars@.skip(i as int));
        assert(chars@.take(i as int) =~= chars@.take(i - 1) + seq![rest[0]]);
        proof {
            lemma_emit_followed_by(
                chars@.take(i - 1),
                seq![rest[0]],
                raw_text_rendering(rest.skip(1), name@),
            );
        }
    }
    assert(chars@.take(n as int) =~= chars@);
    assert(whole.text =~= chars@);
    Ok(())
}

} // verus!

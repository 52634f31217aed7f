//! Comments: a body is written between `<!--` and `-->` with every sequence
//! that would end the comment early made inert.

use vstd::prelude::*;
use crate::strings::chars_of;

verus! {

/// `<!--` stands at index `at` of `s`.
pub open spec fn comment_start_at(s: Seq<char>, at: int) -> bool {
    &&& 0 <= at
    &&& at + 4 <= s.len()
    &&& s[at] == '<'
    &&& s[at + 1] == '!'
    &&& s[at + 2] == '-'
    &&& s[at + 3] == '-'
}

/// `-->` stands at index `at` of `s`.
pub open spec fn comment_end_at(s: Seq<char>, at: int) -> bool {
    &&& 0 <= at
    &&& at + 3 <= s.len()
    &&& s[at] == '-'
    &&& s[at + 1] == '-'
    &&& s[at + 2] == '>'
}

/// `--!>` stands at index `at` of `s`.
pub open spec fn comment_bang_end_at(s: Seq<char>, at: int) -> bool {
    &&& 0 <= at
    &&& at + 4 <= s.len()
    &&& s[at] == '-'
    &&& s[at + 1] == '-'
    &&& s[at + 2] == '!'
    &&& s[at + 3] == '>'
}

/// The body with its forbidden sequences replaced, scanning from the left
/// and taking the longest sequence at each place: `<!--` becomes `<!==`,
/// `-->` becomes `==>`, `--!>` becomes `==!>`; every other code point stays.
pub open spec fn rewritten_comment(body: Seq<char>) -> Seq<char>
    decreases body.len(),
{
    if body.len() == 0 {
        Seq::empty()
    } else if comment_start_at(body, 0) {
        "<!=="@ + rewritten_comment(body.skip(4))
    } else if comment_bang_end_at(body, 0) {
        "==!>"@ + rewritten_comment(body.skip(4))
    } else if comment_end_at(body, 0) {
        "==>"@ + rewritten_comment(body.skip(3))
    } else {
        seq![body[0]] + rewritten_comment(body.skip(1))
    }
}

/// A body that begins with `>` or `->` would end the comment at once.
pub open spec fn needs_leading_guard(body: Seq<char>) -> bool {
    ||| body.len() >= 1 && body[0] == '>'
    ||| body.len() >= 2 && body[0] == '-' && body[1] == '>'
}

/// A body that ends with `<!-` would join the closing `-->`.
pub open spec fn needs_trailing_guard(body: Seq<char>) -> bool {
    &&& body.len() >= 3
    &&& body[body.len() - 3] == '<'
    &&& body[body.len() - 2] == '!'
    &&& body[body.len() - 1] == '-'
}

/// What stands between `<!--` and `-->`: the rewritten body, with a `|`
/// before it or after it where a guard is needed.
pub open spec fn comment_interior(body: Seq<char>) -> Seq<char> {
    (if needs_leading_guard(body) { seq!['|'] } else { Seq::empty() })
        + rewritten_comment(body)
        + (if needs_trailing_guard(body) { seq!['|'] } else { Seq::empty() })
}

/// The whole comment as it is written.
pub open spec fn comment_markup(body: Seq<char>) -> Seq<char> {
    "<!--"@ + comment_interior(body) + "-->"@
}

/// A body that holds none of `<!--`, `-->` and `--!>` is not changed.
pub proof fn lemma_harmless_comment_is_verbatim(body: Seq<char>)
    requires
        forall|at: int|
            !comment_start_at(body, at) && !comment_end_at(body, at) && !comment_bang_end_at(
                body,
                at,
            ),
    ensures
        rewritten_comment(body) == body,
    decreases body.len(),
{
    if body.len() > 0 {
        let rest = body.skip(1);
        assert forall|at: int|
            !comment_start_at(rest, at) && !comment_end_at(rest, at) && !comment_bang_end_at(
                rest,
                at,
            ) by {
            assert(!comment_start_at(body, at + 1));
            assert(!comment_end_at(body, at + 1));
            assert(!comment_bang_end_at(body, at + 1));
        }
        lemma_harmless_comment_is_verbatim(rest);
        assert(!comment_start_at(body, 0));
        assert(!comment_end_at(body, 0));
        assert(!comment_bang_end_at(body, 0));
        assert(seq![body[0]] + rest =~= body);
    }
    assert(rewritten_comment(body) =~= body);
}

/// Where the rewritten body begins with a code point other than `<` and
/// `=`, that code point was copied from the head of the body.
proof fn lemma_rewritten_head_is_copied(body: Seq<char>)
    requires
        rewritten_comment(body).len() > 0,
        rewritten_comment(body)[0] != '<',
        rewritten_comment(body)[0] != '=',
    ensures
        body.len() > 0,
        body[0] == rewritten_comment(body)[0],
        rewritten_comment(body) == seq![body[0]] + rewritten_comment(body.skip(1)),
{
    reveal_strlit("<!==");
    reveal_strlit("==!>");
    reveal_strlit("==>");
}

/// None of `<!--`, `-->` and `--!>` stands anywhere in a rewritten body.
pub proof fn lemma_rewritten_comment_is_inert(body: Seq<char>, at: int)
    ensures
        !comment_start_at(rewritten_comment(body), at),
        !comment_end_at(rewritten_comment(body), at),
        !comment_bang_end_at(rewritten_comment(body), at),
    decreases body.len(),
{
    reveal_strlit("<!==");
    reveal_strlit("==!>");
    reveal_strlit("==>");
    let out = rewritten_comment(body);
    if body.len() == 0 || at < 0 {
    } else if comment_start_at(body, 0) || comment_bang_end_at(body, 0) {
        let rest = body.skip(4);
        if at >= 4 {
            lemma_rewritten_comment_is_inert(rest, at - 4);
            assert(forall|k: int| 4 <= k < out.len() ==> #[trigger] out[k] == rewritten_comment(
                rest,
            )[k - 4]);
        }
    } else if comment_end_at(body, 0) {
        let rest = body.skip(3);
        if at >= 3 {
            lemma_rewritten_comment_is_inert(rest, at - 3);
            assert(forall|k: int| 3 <= k < out.len() ==> #[trigger] out[k] == rewritten_comment(
                rest,
            )[k - 3]);
        }
    } else {
        let rest = body.skip(1);
        let tail = rewritten_comment(rest);
        assert(out == seq![body[0]] + tail);
        if at >= 1 {
            lemma_rewritten_comment_is_inert(rest, at - 1);
            assert(forall|k: int| 1 <= k < out.len() ==> #[trigger] out[k] == tail[k - 1]);
        } else if out.len() >= 3 && (out[0] == '<' || out[0] == '-') && (out[1] == '!' || out[1]
            == '-') {
            // The three or four code points at the head were all copied, so
            // the body begins with them too and would have been rewritten.
            assert(tail[0] == out[1]);
            lemma_rewritten_head_is_copied(rest);
            let rest2 = rest.skip(1);
            let tail2 = rewritten_comment(rest2);
            assert(tail2[0] == out[2]);
            assert(rest[0] == body[1]);
            if out[2] == '-' || out[2] == '>' || out[2] == '!' {
                lemma_rewritten_head_is_copied(rest2);
                assert(rest2[0] == body[2]);
                let rest3 = rest2.skip(1);
                let tail3 = rewritten_comment(rest3);
                if out.len() >= 4 && (out[3] == '-' || out[3] == '>') {
                    assert(tail3[0] == out[3]);
                    lemma_rewritten_head_is_copied(rest3);
                    assert(rest3[0] == body[3]);
                }
            }
        }
    }
}

/// Only the empty body is rewritten to nothing.
proof fn lemma_rewritten_is_empty(body: Seq<char>)
    requires
        rewritten_comment(body).len() == 0,
    ensures
        body.len() == 0,
{
    reveal_strlit("<!==");
    reveal_strlit("==!>");
    reveal_strlit("==>");
}

/// A rewritten body ends with `<!-` only where the body itself does.
proof fn lemma_rewritten_tail_is_copied(body: Seq<char>)
    requires
        needs_trailing_guard(rewritten_comment(body)),
    ensures
        needs_trailing_guard(body),
    decreases body.len(),
{
    reveal_strlit("<!==");
    reveal_strlit("==!>");
    reveal_strlit("==>");
    let out = rewritten_comment(body);
    if comment_start_at(body, 0) || comment_bang_end_at(body, 0) {
        let rest = body.skip(4);
        let tail = rewritten_comment(rest);
        assert(forall|k: int| 4 <= k < out.len() ==> #[trigger] out[k] == tail[k - 4]);
        if tail.len() >= 3 {
            lemma_rewritten_tail_is_copied(rest);
        }
    } else if comment_end_at(body, 0) {
        let rest = body.skip(3);
        let tail = rewritten_comment(rest);
        assert(forall|k: int| 3 <= k < out.len() ==> #[trigger] out[k] == tail[k - 3]);
        if tail.len() >= 3 {
            lemma_rewritten_tail_is_copied(rest);
        }
    } else {
        let rest = body.skip(1);
        let tail = rewritten_comment(rest);
        assert(out == seq![body[0]] + tail);
        assert(forall|k: int| 1 <= k < out.len() ==> #[trigger] out[k] == tail[k - 1]);
        if tail.len() >= 3 {
            lemma_rewritten_tail_is_copied(rest);
        } else {
            assert(tail.len() == 2);
            assert(tail[0] == '!');
            lemma_rewritten_head_is_copied(rest);
            let rest2 = rest.skip(1);
            let tail2 = rewritten_comment(rest2);
            assert(tail2.len() == 1);
            assert(tail2[0] == tail[1]);
            lemma_rewritten_head_is_copied(rest2);
            lemma_rewritten_is_empty(rest2.skip(1));
        }
    }
}

/// The written comment begins with `<!--` and ends with `-->`, and between
/// the two stands the interior, which holds none of `<!--`, `-->` and
/// `--!>` at any place, begins with neither `>` nor `->`, and does not end
/// with `<!-`.
pub proof fn lemma_comment_markup_is_one_comment(body: Seq<char>)
    ensures
        comment_start_at(comment_markup(body), 0),
        comment_end_at(comment_markup(body), comment_markup(body).len() - 3),
        comment_markup(body).subrange(4, comment_markup(body).len() - 3) == comment_interior(
            body,
        ),
        forall|at: int|
            {
                &&& !comment_start_at(comment_interior(body), at)
                &&& !comment_end_at(comment_interior(body), at)
                &&& !comment_bang_end_at(comment_interior(body), at)
            },
        !needs_leading_guard(comment_interior(body)),
        !needs_trailing_guard(comment_interior(body)),
{
    reveal_strlit("<!--");
    reveal_strlit("-->");
    let markup = comment_markup(body);
    let interior = comment_interior(body);
    let inner = rewritten_comment(body);
    let lead: int = if needs_leading_guard(body) { 1 } else { 0 };
    assert(markup.subrange(4, markup.len() - 3) =~= interior);
    assert forall|at: int|
        {
            &&& !comment_start_at(interior, at)
            &&& !comment_end_at(interior, at)
            &&& !comment_bang_end_at(interior, at)
        } by {
        lemma_rewritten_comment_is_inert(body, at - lead);
        assert(forall|k: int|
            lead <= k < lead + inner.len() ==> #[trigger] interior[k] == inner[k - lead]);
        assert(forall|k: int|
            0 <= k < interior.len() && !(lead <= k < lead + inner.len()) ==> #[trigger] interior[k]
                == '|');
    }
    if !needs_leading_guard(body) && inner.len() > 0 && (inner[0] == '>' || inner[0] == '-') {
        lemma_rewritten_head_is_copied(body);
        if inner[0] == '-' && inner.len() >= 2 && inner[1] == '>' {
            assert(rewritten_comment(body.skip(1))[0] == inner[1]);
            lemma_rewritten_head_is_copied(body.skip(1));
        }
    }
    if !needs_trailing_guard(body) && needs_trailing_guard(inner) {
        lemma_rewritten_tail_is_copied(body);
    }
}

/// Appends the comment with body `comment` to `target`.
pub fn write_comment(comment: &str, target: &mut String)
    ensures
        final(target)@ == old(target)@ + comment_markup(comment@),
{
    let body = chars_of(comment);
    let n: usize = body.len();
    target.append("<!--");
    if (n >= 1 && body[0] == '>') || (n >= 2 && body[0] == '-' && body[1] == '>') {
        target.push('|');
    }
    let ghost start = target@;
    let mut i: usize = 0;
    assert(body@.skip(0) =~= body@);
    while i < n
        invariant
            i <= n,
            n == body@.len(),
            target@ + rewritten_comment(body@.skip(i as int)) == start + rewritten_comment(body@),
        decreases n - i,
    {
        let ghost rest = body@.skip(i as int);
        let ghost before = target@;
        if n - i >= 4 && body[i] == '<' && body[i + 1] == '!' && body[i + 2] == '-' && body[i + 3]
            == '-' {
            target.append("<!==");
            i += 4;
            assert(rest.skip(4) =~= body@.skip(i as int));
            assert(target@ + rewritten_comment(body@.skip(i as int)) =~= before
                + rewritten_comment(rest));
        } else if n - i >= 4 && body[i] == '-' && body[i + 1] == '-' && body[i + 2] == '!'
            && body[i + 3] == '>' {
            target.append("==!>");
            i += 4;
            assert(rest.skip(4) =~= body@.skip(i as int));
            assert(target@ + rewritten_comment(body@.skip(i as int)) =~= before
                + rewritten_comment(rest));
        } else if n - i >= 3 && body[i] == '-' && body[i + 1] == '-' && body[i + 2] == '>' {
            target.append("==>");
            i += 3;
            assert(rest.skip(3) =~= body@.skip(i as int));
            assert(target@ + rewritten_comment(body@.skip(i as int)) =~= before
                + rewritten_comment(rest));
        } else {
            target.push(body[i]);
            i += 1;
            assert(rest.skip(1) =~= body@.skip(i as int));
            assert(target@ + rewritten_comment(body@.skip(i as int)) =~= before
                + rewritten_comment(rest));
        }
    }
    if n >= 3 && body[n - 3] == '<' && body[n - 2] == '!' && body[n - 1] == '-' {
        target.push('|');
    }
    target.append("-->");
    assert(final(target)@ =~= old(target)@ + comment_markup(comment@));
}

} // verus!

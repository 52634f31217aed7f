//! What a rendering does, as contracts state it: the text that it writes
//! and the failure that ends it, if one does.

use vstd::prelude::*;
use crate::error::Failure;

verus! {

/// The effect of rendering something: `text` is appended to the target,
/// and then rendering either is done or stops with `failure`.
#[verifier::ext_equal]
pub struct Rendering {
    pub text: Seq<char>,
    pub failure: Option<Failure>,
}

impl Rendering {
    /// Writes `text` and succeeds.
    pub open spec fn emit(text: Seq<char>) -> Rendering {
        Rendering { text, failure: None }
    }

    /// Writes nothing and stops with `failure`.
    pub open spec fn fail(failure: Failure) -> Rendering {
        Rendering { text: Seq::empty(), failure: Some(failure) }
    }

    /// `self`, and after it `next`, unless `self` failed: a failure ends
    /// the rendering, and what was written before it stays.
    pub open spec fn followed_by(self, next: Rendering) -> Rendering {
        if self.failure is Some {
            self
        } else {
            Rendering { text: self.text + next.text, failure: next.failure }
        }
    }
}

/// Text written in two steps is the text written in one.
pub proof fn lemma_emit_followed_by(first: Seq<char>, second: Seq<char>, rest: Rendering)
    ensures
        Rendering::emit(first).followed_by(Rendering::emit(second).followed_by(rest))
            == Rendering::emit(first + second).followed_by(rest),
{
    assert(Rendering::emit(first).followed_by(Rendering::emit(second).followed_by(rest))
        =~= Rendering::emit(first + second).followed_by(rest));
}

} // verus!

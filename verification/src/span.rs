//! Which texts a terminal panel accepts as one span.

use vstd::prelude::*;

verus! {

/// Whether `superconsole` accepts `text` as the content of a span. It refuses
/// text that holds whitespace other than the space, such as a tab or a line
/// break.
pub uninterp spec fn span_text_valid(text: Seq<char>) -> bool;

/// Asks `superconsole::Span::valid`. Claimed: the answer depends on the
/// characters of `text` alone.
#[verifier::external_body]
pub(crate) fn span_valid(text: &str) -> (ok: bool)
    ensures
        ok == span_text_valid(text@),
{
    superconsole::Span::valid(text)
}

} // verus!

//! Getting text ready for encoding: what can be done about tabs and
//! carriage returns, which can not be encoded.

use vstd::prelude::*;

verus! {

/// The text without its carriage returns.
pub open spec fn without_carriage_returns(text: Seq<char>) -> Seq<char> {
    text.filter(|c: char| c != '\r')
}

/// The text with four spaces in the place of each tab.
pub open spec fn with_tabs_expanded(text: Seq<char>) -> Seq<char>
    decreases text.len(),
{
    if text.len() == 0 {
        text
    } else if text.last() == '\t' {
        with_tabs_expanded(text.drop_last()) + seq![' ', ' ', ' ', ' ']
    } else {
        with_tabs_expanded(text.drop_last()).push(text.last())
    }
}

/// No carriage return is left in text that they were taken out of.
pub proof fn lemma_no_carriage_return_left(text: Seq<char>)
    ensures
        forall|i: int|
            0 <= i < without_carriage_returns(text).len() ==> #[trigger] without_carriage_returns(
                text,
            )[i] != '\r',
{
    let kept = |c: char| c != '\r';
    assert forall|i: int| 0 <= i < text.filter(kept).len() implies #[trigger] text.filter(kept)[i]
        != '\r' by {
        text.lemma_filter_pred(kept, i);
    }
}

/// No tab is left in text whose tabs were turned into spaces.
pub proof fn lemma_no_tab_left(text: Seq<char>)
    ensures
        forall|i: int|
            0 <= i < with_tabs_expanded(text).len() ==> #[trigger] with_tabs_expanded(text)[i]
                != '\t',
    decreases text.len(),
{
    if text.len() > 0 {
        let head = with_tabs_expanded(text.drop_last());
        lemma_no_tab_left(text.drop_last());
        assert forall|i: int| 0 <= i < with_tabs_expanded(text).len() implies #[trigger] with_tabs_expanded(
            text,
        )[i] != '\t' by {
            if i < head.len() {
                assert(with_tabs_expanded(text)[i] == head[i]);
            }
        }
    }
}

/// Returns the text without its carriage returns.
pub fn remove_carriage_returns(text: &str) -> (r: String)
    ensures
        r@ == without_carriage_returns(text@),
{
    let mut out = String::new();
    proof {
        reveal(Seq::filter);
    }
    for c in iter: text.chars()
        invariant
            iter.seq() == text@,
            out@ == without_carriage_returns(text@.take(iter.index() as int)),
    {
        proof {
            let seen = text@.take(iter.index() as int);
            seen.lemma_filter_push(c, |c: char| c != '\r');
            assert(text@.take(iter.index() + 1) =~= seen.push(c));
        }
        if c != '\r' {
            out.push(c);
        }
    }
    assert(text@.take(text@.len() as int) =~= text@);
    out
}

/// Returns the text with four spaces in the place of each tab.
pub fn expand_tabs(text: &str) -> (r: String)
    ensures
        r@ == with_tabs_expanded(text@),
{
    let mut out = String::new();
    for c in iter: text.chars()
        invariant
            iter.seq() == text@,
            out@ == with_tabs_expanded(text@.take(iter.index() as int)),
    {
        proof {
            let seen = text@.take(iter.index() as int);
            assert(text@.take(iter.index() + 1) =~= seen.push(c));
            assert(seen.push(c).drop_last() =~= seen);
        }
        if c == '\t' {
            out.push(' ');
            out.push(' ');
            out.push(' ');
            out.push(' ');
            assert(out@ =~= with_tabs_expanded(text@.take(iter.index() + 1)));
        } else {
            out.push(c);
        }
    }
    assert(text@.take(text@.len() as int) =~= text@);
    out
}

} // verus!

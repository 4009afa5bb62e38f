use vstd::prelude::*;

use crate::parser::{feed_spec, step_spec, InterpView};
use crate::term::{blank_row_v, TermView};

verus! {

/// Resetting is idempotent: a second reset of a freshly reset model
/// changes nothing, since reset keeps only the dimensions and the reset
/// state is a function of the dimensions alone.
pub proof fn lemma_reset_idempotent(rows: int, cols: int)
    ensures
        TermView::reset_v(
            TermView::reset_v(rows, cols).rows,
            TermView::reset_v(rows, cols).cols,
        ) == TermView::reset_v(rows, cols),
{
}

/// Scrolling a region up by `n` and then down by `n`, with nothing in
/// between, restores every row outside the vacated band (the `n` rows at
/// the top of the region) and leaves the vacated band blank; rows outside
/// the scroll region were never touched.
pub proof fn lemma_scroll_round_trip(t: TermView, n: int)
    requires
        t.wf(),
        0 <= n <= t.bot - t.top + 1,
    ensures
        forall|i: int|
            t.top + n <= i <= t.bot ==> #[trigger] t.scroll_up_v(t.top, n).scroll_down_v(
                t.top,
                n,
            ).line[i] == t.line[i],
        forall|i: int|
            0 <= i < t.rows && !(t.top <= i <= t.bot) ==> #[trigger] t.scroll_up_v(
                t.top,
                n,
            ).scroll_down_v(t.top, n).line[i] == t.line[i],
        forall|i: int|
            t.top <= i < t.top + n ==> #[trigger] t.scroll_up_v(t.top, n).scroll_down_v(
                t.top,
                n,
            ).line[i] == blank_row_v(t.cols, t.c.attr),
{
    let u = t.scroll_up_v(t.top, n);
    let d = u.scroll_down_v(t.top, n);
    assert forall|i: int| t.top + n <= i <= t.bot implies #[trigger] d.line[i] == t.line[i] by {
        assert(d.line[i] == u.line[i - n]);
        assert(u.line[i - n] == t.line[i]);
    }
    assert forall|i: int|
        t.top <= i < t.top + n implies #[trigger] d.line[i] == blank_row_v(t.cols, t.c.attr) by {
        assert(i - n < t.top);
    }
}

/// Feeding a byte stream in two chunks — split anywhere, even inside a
/// UTF-8 codepoint or an escape sequence — ends in exactly the state that
/// feeding it whole does.
pub proof fn lemma_feed_split(m: InterpView, a: Seq<u8>, b: Seq<u8>)
    ensures
        feed_spec(m, a + b) == feed_spec(feed_spec(m, a), b),
    decreases a.len(),
{
    if a.len() == 0 {
        assert(a + b =~= b);
    } else {
        assert((a + b)[0] == a[0]);
        assert((a + b).skip(1) =~= a.skip(1) + b);
        lemma_feed_split(step_spec(m, a[0]), a.skip(1), b);
    }
}

} // verus!

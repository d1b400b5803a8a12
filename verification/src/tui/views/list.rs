//! Scrolling of list views.
use vstd::prelude::*;

verus! {

/// First row shown of a list whose window holds `visible` rows, so that row
/// `selected` is the window's last row once it no longer fits at the top.
pub open spec fn follow_offset(selected: int, visible: int) -> int {
    if selected >= visible {
        selected - visible + 1
    } else {
        0
    }
}

/// Scroll offset that keeps row `selected` in a window of `visible` rows.
pub fn follow_scroll(selected: usize, visible: usize) -> (offset: usize)
    requires
        visible > 0 || selected < usize::MAX,
    ensures
        offset == follow_offset(selected as int, visible as int),
        visible > 0 ==> offset <= selected < offset + visible,
        offset > 0 ==> selected == offset + visible - 1,
{
    if selected >= visible {
        selected - visible + 1
    } else {
        0
    }
}

/// How far a list of `len` rows is scrolled, in percent, when its window of
/// `visible` rows starts at row `offset`.
pub open spec fn scroll_percent_of(offset: int, len: int, visible: int) -> int {
    let span = if len > visible { len - visible } else { 0 };
    (offset * 100) / (if span > 1 { span } else { 1 })
}

/// The scroll position in percent shown beside a scrolled list.
pub fn scroll_percent(offset: usize, len: usize, visible: usize) -> (p: usize)
    requires
        offset <= usize::MAX / 100,
    ensures
        p == scroll_percent_of(offset as int, len as int, visible as int),
        offset <= len - visible ==> p <= 100,
{
    let span = len.saturating_sub(visible);
    let div = if span > 1 { span } else { 1 };
    let p = offset * 100 / div;
    proof {
        if offset <= len - visible {
            assert(offset * 100 <= div * 100) by (nonlinear_arith)
                requires
                    offset <= div,
            ;
            let q: int = (offset * 100) as int / div as int;
            assert(q <= 100) by (nonlinear_arith)
                requires
                    offset * 100 <= div * 100,
                    div >= 1,
                    q == (offset * 100) as int / div as int,
            ;
        }
    }
    p
}

} // verus!

//! Marker list helpers.
use vstd::prelude::*;
use crate::text::{push_char, string_from};
use crate::render::typography::{golden_secondary, sub_floor0, GoldenLayout};
use crate::tui::views::list::{follow_offset, follow_scroll};

verus! {

/// `s` shortened to at most `max` characters, ending in `…` when cut.
pub open spec fn truncated(s: Seq<char>, max: int) -> Seq<char> {
    if s.len() <= max {
        s
    } else {
        s.subrange(0, if max > 0 { max - 1 } else { 0 }).push('…')
    }
}

/// Shorten a label to `max` characters for a table column.
pub fn truncate(s: &str, max: usize) -> (t: String)
    ensures
        t@ == truncated(s@, max as int),
{
    let n = s.unicode_len();
    if n <= max {
        string_from(s)
    } else {
        let keep = max.saturating_sub(1);
        let mut t = string_from(s.substring_char(0, keep));
        push_char(&mut t, '…');
        t
    }
}

/// Width of the marker table's label column in a `width` × `height` area:
/// the golden layout's secondary share, no wider than what the 38 columns
/// of ID, symbol, blink and coordinates leave, and at least 8.
pub fn label_width(width: u16, height: u16) -> (w: u16)
    requires
        height <= 0x7fff,
    ensures
        w == vstd::math::max(
            vstd::math::min(golden_secondary(width as int), sub_floor0(width as int, 38)),
            8,
        ),
{
    let layout = GoldenLayout::compute(width, height);
    let room = width.saturating_sub(38);
    let w = if layout.secondary_cols < room { layout.secondary_cols } else { room };
    if w < 8 { 8 } else { w }
}

/// First row shown of a marker table of `len` rows with `visible` rows of
/// room, keeping the selected row (held to the last row) in view.
pub open spec fn marker_scroll_of(len: int, selected: int, visible: int) -> int {
    if len == 0 {
        0
    } else {
        follow_offset(if selected < len - 1 { selected } else { len - 1 }, visible)
    }
}

/// Scroll offset of the marker table.
pub fn marker_scroll(len: usize, selected: usize, visible: usize) -> (offset: usize)
    ensures
        offset == marker_scroll_of(len as int, selected as int, visible as int),
        len > 0 && visible > 0 ==> offset <= vstd::math::min(selected as int, len - 1) < offset
            + visible,
{
    if len == 0 {
        0
    } else {
        let sel = if selected < len - 1 { selected } else { len - 1 };
        follow_scroll(sel, visible)
    }
}

} // verus!

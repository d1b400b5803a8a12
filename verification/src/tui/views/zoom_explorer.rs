//! Zoom explorer: its title, the CPE count per render mode and the zoom
//! ruler.
use vstd::prelude::*;
use crate::geo::zoom::{cpe_dims, zoom_label, zoom_label_text, RenderMode, ZOOM_MAX};
use crate::render::canvas::TerminalCapability;
use crate::text::{decimal, lemma_decimal_len_at_least_two, pad_left, push_char, push_decimal, push_str, string_from};

verus! {

/// What the zoom explorer shows: the current zoom, the viewport size and the
/// terminal tier.
pub struct ZoomExplorerView {
    pub zoom: u8,
    pub cols: u16,
    pub rows: u16,
    pub capability: TerminalCapability,
}

/// The zoom explorer's title line for zoom `zoom`.
pub open spec fn zoom_title_text(zoom: u8) -> Seq<char> {
    " Zoom Explorer  │  zoom "@ + pad_left(decimal(zoom as nat), 2) + "  │  "@ + zoom_label_text(zoom)
        + "  │  ↑↓ change  Esc back "@
}

/// The title line: the zoom right-aligned in two columns and what it shows.
pub fn zoom_title(zoom: u8) -> (s: String)
    ensures
        s@ == zoom_title_text(zoom),
{
    let mut s = string_from(" Zoom Explorer  │  zoom ");
    let ghost before = s@;
    if zoom < 10 {
        push_char(&mut s, ' ');
    }
    let ghost pad = s@;
    push_decimal(&mut s, zoom as u32);
    proof {
        if zoom < 10 {
            assert(decimal(zoom as nat).len() == 1);
            assert(crate::text::spaces(2 - decimal(zoom as nat).len()) =~= seq![' ']);
            assert(pad =~= before + crate::text::spaces(2 - decimal(zoom as nat).len()));
        } else {
            lemma_decimal_len_at_least_two(zoom as nat);
            assert(crate::text::spaces(2 - decimal(zoom as nat).len()) =~= Seq::<char>::empty());
            assert(pad =~= before + crate::text::spaces(2 - decimal(zoom as nat).len()));
        }
        assert(s@ =~= before + pad_left(decimal(zoom as nat), 2));
    }
    push_str(&mut s, "  │  ");
    push_str(&mut s, zoom_label(zoom));
    push_str(&mut s, "  │  ↑↓ change  Esc back ");
    s
}


/// Console pixel equivalents in a `cols` × `rows` viewport in mode `mode`.
pub open spec fn cpe_total(mode: RenderMode, cols: int, rows: int) -> int {
    cols * cpe_dims(mode).0 * rows * cpe_dims(mode).1
}

/// Number of console pixel equivalents in the viewport.
pub fn total_cpe(mode: RenderMode, cols: u16, rows: u16) -> (n: u64)
    ensures
        n == cpe_total(mode, cols as int, rows as int),
{
    let (w, h) = mode.cpe_per_cell();
    let c = cols as u64;
    let r = rows as u64;
    assert(c * (w as u64) <= 0xffff * 2) by (nonlinear_arith)
        requires
            c <= 0xffff,
            w <= 2,
    ;
    assert(c * (w as u64) * r <= 0xffff * 2 * 0xffff) by (nonlinear_arith)
        requires
            c * (w as u64) <= 0xffff * 2,
            r <= 0xffff,
    ;
    assert(c * (w as u64) * r * (h as u64) <= 0xffff * 2 * 0xffff * 4) by (nonlinear_arith)
        requires
            c * (w as u64) * r <= 0xffff * 2 * 0xffff,
            h <= 4,
    ;
    c * (w as u64) * r * (h as u64)
}

/// A mark of the zoom ruler.
#[derive(Debug, Clone, Copy, PartialEq, Eq, Structural)]
pub struct RulerMark {
    /// Column of the mark.
    pub col: u16,
    /// Zoom level it stands for.
    pub level: u8,
    /// Is it the current zoom?
    pub current: bool,
    /// Does it carry a number (every fifth level)?
    pub tick: bool,
}

/// Number of levels the ruler shows when its first mark stands at column
/// `start` and marks, two columns apart, must end two columns before
/// `right`.
pub open spec fn ruler_len(start: int, right: int) -> int {
    let room = right - start - 2;
    if room <= 0 {
        0
    } else if (room - 1) / 2 + 1 > ZOOM_MAX + 1 {
        ZOOM_MAX + 1
    } else {
        (room - 1) / 2 + 1
    }
}

/// The marks of the zoom ruler: one per level from 0 up, two columns apart
/// from column `start`, while a mark's column stays two short of `right`.
pub fn zoom_ruler(zoom: u8, start: u16, right: u16) -> (marks: Vec<RulerMark>)
    ensures
        marks@.len() == ruler_len(start as int, right as int),
        forall|z: int|
            0 <= z < marks@.len() ==> #[trigger] marks@[z] == (RulerMark {
                col: (start + 2 * z) as u16,
                level: z as u8,
                current: z == zoom,
                tick: z % 5 == 0,
            }),
{
    let mut marks: Vec<RulerMark> = Vec::new();
    let mut z: u8 = 0;
    while z <= ZOOM_MAX && (start as u32) + 2 * (z as u32) + 2 < right as u32
        invariant
            z <= ZOOM_MAX + 1,
            marks@.len() == z,
            z > 0 ==> start + 2 * (z - 1) + 2 < right,
            forall|k: int|
                0 <= k < marks@.len() ==> #[trigger] marks@[k] == (RulerMark {
                    col: (start + 2 * k) as u16,
                    level: k as u8,
                    current: k == zoom,
                    tick: k % 5 == 0,
                }),
        decreases ZOOM_MAX + 1 - z,
    {
        marks.push(RulerMark { col: start + 2 * (z as u16), level: z, current: z == zoom, tick: z % 5 == 0 });
        z = z + 1;
    }
    proof {
        let room = right - start - 2;
        if z <= ZOOM_MAX {
            assert(start + 2 * z + 2 >= right);
        }
    }
    marks
}

} // verus!

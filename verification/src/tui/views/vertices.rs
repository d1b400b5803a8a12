//! The shape editor's coordinate panel: which lines the vertex list shows
//! and where, its heading, and which messages report a problem.
use vstd::prelude::*;
use crate::text::{
    contains_str, decimal, push_count, push_str, seq_contains, seq_starts_with, starts_with_str,
    string_from,
};
use crate::tui::app::{
    concat_parts, lemma_concat_prefix_len, shape_is_multi, shape_type_at, ShapeEditorState,
    SHAPE_TYPE_COUNT,
};

verus! {

/// A line of the vertex list.
#[derive(Debug, Clone, Copy, PartialEq, Eq, Structural)]
pub enum VertexLine {
    /// The heading over finished part `k` (shown as part `k + 1`).
    Part(usize),
    /// The heading over the part still being edited.
    Current,
    /// The vertex at this index of the whole list.
    Vertex(usize),
}

/// Number of vertices in the first `k` finished parts: where part `k`
/// starts in the whole list.
pub open spec fn part_offset<N>(ps: Seq<Seq<(N, N)>>, k: int) -> int {
    concat_parts(ps.subrange(0, k)).len() as int
}

/// The first part index `p` from `k` on, up to and including the number of
/// parts, at which the vertex list reaches index `g`.
pub open spec fn first_part_at<N>(ps: Seq<Seq<(N, N)>>, g: int, k: int) -> Option<int>
    decreases ps.len() + 1 - k,
{
    if k < 0 || k > ps.len() {
        None
    } else if part_offset(ps, k) == g {
        Some(k)
    } else {
        first_part_at(ps, g, k + 1)
    }
}

/// The lines of the vertex list for vertices `g` up to `end`, the first on
/// row `row`, stopping at row `limit`: before a vertex that starts a
/// finished part, that part's heading; before the first vertex of the part
/// being edited, when finished parts precede it, its heading; then the
/// vertex itself.
pub open spec fn vertex_lines<N>(
    ps: Seq<Seq<(N, N)>>,
    editing: bool,
    g: int,
    end: int,
    row: int,
    limit: int,
) -> Seq<(int, VertexLine)>
    decreases end - g,
{
    if g >= end || row >= limit {
        Seq::empty()
    } else {
        let (l1, r1) = match first_part_at(ps, g, 0) {
            Some(p) => if p < ps.len() {
                (seq![(row, VertexLine::Part(p as usize))], row + 1)
            } else {
                (Seq::empty(), row)
            },
            None => (Seq::empty(), row),
        };
        if r1 >= limit {
            l1
        } else {
            let (l2, r2) = if g == part_offset(ps, ps.len() as int) && editing && ps.len() > 0 {
                (seq![(r1, VertexLine::Current)], r1 + 1)
            } else {
                (Seq::empty(), r1)
            };
            if r2 >= limit {
                l1 + l2
            } else {
                l1 + l2 + seq![(r2, VertexLine::Vertex(g as usize))] + vertex_lines(
                    ps,
                    editing,
                    g + 1,
                    end,
                    r2 + 1,
                    limit,
                )
            }
        }
    }
}

/// First vertex shown: the editor's scroll offset, held to the last vertex.
pub open spec fn vertex_scroll_of(scroll: int, len: int) -> int {
    let last = if len > 0 { len - 1 } else { 0 };
    if scroll < last { scroll } else { last }
}

/// A line as integers.
pub open spec fn line_int(l: (u16, VertexLine)) -> (int, VertexLine) {
    (l.0 as int, l.1)
}

impl<N: Copy> ShapeEditorState<N> {
    /// Where the vertex list starts.
    pub fn vertex_scroll(&self) -> (s: usize)
        requires
            self.coords().len() <= usize::MAX,
        ensures
            s == vertex_scroll_of(self.vert_scroll as int, self.coords().len() as int),
    {
        let n = self.total_coords();
        let last = n.saturating_sub(1);
        if self.vert_scroll < last {
            self.vert_scroll
        } else {
            last
        }
    }

    /// The lines of the vertex list for a panel whose list starts on row
    /// `row` and whose bottom edge is row `bottom`: the list ends three rows
    /// above the bottom, and headings and vertices stop two rows above it.
    pub fn vertex_list(&self, row: u16, bottom: u16) -> (lines: Vec<(u16, VertexLine)>)
        requires
            self.coords().len() <= usize::MAX,
        ensures
            ({
                let len = self.coords().len() as int;
                let list_rows = if bottom >= 3 + row { bottom - 3 - row } else { 0 };
                let start = vertex_scroll_of(self.vert_scroll as int, len);
                let end = if start + list_rows < len { start + list_rows } else { len };
                let limit = if bottom >= 2 { bottom - 2 } else { 0 };
                lines@.map_values(|l: (u16, VertexLine)| line_int(l)) == vertex_lines(
                    self.parts_view(),
                    self.current@.len() > 0,
                    start,
                    end,
                    row as int,
                    limit,
                )
            }),
    {
        let ghost pv = self.parts_view();
        let np = self.parts.len();
        // Where each finished part starts, and where the part being edited starts.
        let mut offsets: Vec<usize> = Vec::new();
        offsets.push(0);
        let mut acc: usize = 0;
        let mut i: usize = 0;
        assert(pv.subrange(0, 0) =~= Seq::<Seq<(N, N)>>::empty());
        while i < np
            invariant
                np == self.parts@.len(),
                pv == self.parts_view(),
                pv.len() == np,
                concat_parts(pv).len() + self.current@.len() <= usize::MAX,
                i <= np,
                acc == part_offset(pv, i as int),
                offsets@.len() == i + 1,
                forall|k: int| 0 <= k <= i ==> #[trigger] offsets@[k] == part_offset(pv, k),
            decreases np - i,
        {
            proof {
                lemma_concat_prefix_len(pv, i as int + 1);
                assert(pv.subrange(0, i as int + 1).drop_last() =~= pv.subrange(0, i as int));
                assert(pv[i as int] == self.parts@[i as int]@);
            }
            acc = acc + self.parts[i].len();
            offsets.push(acc);
            i = i + 1;
        }
        assert(pv.subrange(0, np as int) =~= pv);
        let len = acc + self.current.len();
        let editing = self.current.len() > 0;
        let start = self.vertex_scroll();
        let list_rows: usize = bottom.saturating_sub(3).saturating_sub(row) as usize;
        let end = if list_rows < len - start { start + list_rows } else { len };
        let limit = bottom.saturating_sub(2);
        let ghost spec_all = vertex_lines(pv, editing, start as int, end as int, row as int, limit as int);
        let mut lines: Vec<(u16, VertexLine)> = Vec::new();
        let mut g = start;
        let mut r = row;
        let mut stop = false;
        while !stop && g < end && r < limit
            invariant
                np == pv.len(),
                offsets@.len() == np + 1,
                forall|k: int| 0 <= k <= np ==> #[trigger] offsets@[k] == part_offset(pv, k),
                start <= g <= end,
                end <= len,
                editing == (self.current@.len() > 0),
                spec_all == vertex_lines(pv, editing, start as int, end as int, row as int, limit as int),
                stop ==> lines@.map_values(|l: (u16, VertexLine)| line_int(l)) == spec_all,
                !stop ==> lines@.map_values(|l: (u16, VertexLine)| line_int(l)) + vertex_lines(
                    pv,
                    editing,
                    g as int,
                    end as int,
                    r as int,
                    limit as int,
                ) == spec_all,
            decreases end - g, if stop { 0int } else { 1int },
        {
            let ghost before = lines@.map_values(|l: (u16, VertexLine)| line_int(l));
            let ghost (gg, rr) = (g as int, r as int);
            let found = first_offset_at(&offsets, g);
            proof {
                lemma_first_part_at(pv, g as int, 0);
                match found {
                    Some(p) => {
                        let q = first_part_at(pv, g as int, 0);
                        assert(offsets@[p as int] == part_offset(pv, p as int));
                        if q != Some(p as int) {
                            let qq = q.unwrap();
                            assert(offsets@[qq] == part_offset(pv, qq));
                        }
                    },
                    None => {
                        if first_part_at(pv, g as int, 0) is Some {
                            let qq = first_part_at(pv, g as int, 0).unwrap();
                            assert(offsets@[qq] == part_offset(pv, qq));
                        }
                    },
                }
                assert(first_part_at(pv, g as int, 0) == match found {
                    Some(p) => Some(p as int),
                    None => None::<int>,
                });
            }
            let mut label = false;
            match found {
                Some(p) => {
                    if p < np {
                        lines.push((r, VertexLine::Part(p)));
                        r = r + 1;
                        label = true;
                    }
                },
                None => {},
            }
            if label && r >= limit {
                stop = true;
                proof {
                    assert(lines@.map_values(|l: (u16, VertexLine)| line_int(l)) =~= before + seq![
                        (rr, VertexLine::Part(found.unwrap())),
                    ]);
                    assert(before + vertex_lines(pv, editing, gg, end as int, rr, limit as int)
                        =~= lines@.map_values(|l: (u16, VertexLine)| line_int(l)));
                }
            } else {
                let ghost mid = lines@.map_values(|l: (u16, VertexLine)| line_int(l));
                let ghost r1 = r as int;
                let mut current_label = false;
                if g == offsets[np] && editing && np > 0 {
                    lines.push((r, VertexLine::Current));
                    r = r + 1;
                    current_label = true;
                }
                if current_label && r >= limit {
                    stop = true;
                    proof {
                        assert(lines@.map_values(|l: (u16, VertexLine)| line_int(l)) =~= mid + seq![
                            (r1, VertexLine::Current),
                        ]);
                        assert(before + vertex_lines(pv, editing, gg, end as int, rr, limit as int)
                            =~= lines@.map_values(|l: (u16, VertexLine)| line_int(l)));
                    }
                } else {
                    let ghost mid2 = lines@.map_values(|l: (u16, VertexLine)| line_int(l));
                    let ghost r2 = r as int;
                    lines.push((r, VertexLine::Vertex(g)));
                    r = r + 1;
                    g = g + 1;
                    proof {
                        assert(lines@.map_values(|l: (u16, VertexLine)| line_int(l)) =~= mid2 + seq![
                            (r2, VertexLine::Vertex(gg as usize)),
                        ]);
                        assert(before + vertex_lines(pv, editing, gg, end as int, rr, limit as int)
                            =~= lines@.map_values(|l: (u16, VertexLine)| line_int(l)) + vertex_lines(
                            pv,
                            editing,
                            g as int,
                            end as int,
                            r as int,
                            limit as int,
                        ));
                    }
                }
            }
        }
        proof {
            if !stop {
                assert(vertex_lines(pv, editing, g as int, end as int, r as int, limit as int)
                    =~= Seq::<(int, VertexLine)>::empty());
                assert(lines@.map_values(|l: (u16, VertexLine)| line_int(l)) + Seq::<
                    (int, VertexLine),
                >::empty() =~= lines@.map_values(|l: (u16, VertexLine)| line_int(l)));
            }
        }
        lines
    }
}

/// The first index `p` with `offsets[p] == g`.
fn first_offset_at(offsets: &Vec<usize>, g: usize) -> (found: Option<usize>)
    ensures
        match found {
            Some(p) => p < offsets@.len() && offsets@[p as int] == g && forall|q: int|
                0 <= q < p ==> offsets@[q] != g,
            None => forall|q: int| 0 <= q < offsets@.len() ==> offsets@[q] != g,
        },
{
    let mut p: usize = 0;
    while p < offsets.len()
        invariant
            p <= offsets@.len(),
            forall|q: int| 0 <= q < p ==> offsets@[q] != g,
        decreases offsets@.len() - p,
    {
        if offsets[p] == g {
            return Some(p);
        }
        p = p + 1;
    }
    None
}

/// `first_part_at` from `k` is the first match at or after `k`.
proof fn lemma_first_part_at<N>(ps: Seq<Seq<(N, N)>>, g: int, k: int)
    requires
        0 <= k <= ps.len() + 1,
    ensures
        match first_part_at(ps, g, k) {
            Some(p) => k <= p <= ps.len() && part_offset(ps, p) == g && forall|q: int|
                k <= q < p ==> part_offset(ps, q) != g,
            None => forall|q: int| k <= q <= ps.len() ==> part_offset(ps, q) != g,
        },
    decreases ps.len() + 1 - k,
{
    if k <= ps.len() {
        lemma_first_part_at(ps, g, k + 1);
    }
}

/// The vertex list's heading: how many vertices there are and, for a
/// multi-part type with finished parts, how many parts are finished.
pub open spec fn vertex_heading_text(total: nat, multi: bool, parts: nat) -> Seq<char> {
    if multi && parts > 0 {
        "Vertices ("@ + decimal(total) + ")  ·  "@ + decimal(parts) + (if parts == 1 {
            " part finished"@
        } else {
            " parts finished"@
        })
    } else {
        "Vertices ("@ + decimal(total) + ")"@
    }
}

impl<N: Copy> ShapeEditorState<N> {
    /// The heading over the vertex list.
    pub fn vertex_heading(&self) -> (s: String)
        requires
            self.type_idx < SHAPE_TYPE_COUNT,
            self.coords().len() <= usize::MAX,
        ensures
            s@ == vertex_heading_text(
                self.coords().len(),
                shape_is_multi(shape_type_at(self.type_idx as int)),
                self.parts@.len(),
            ),
    {
        let total = self.total_coords();
        let parts = self.parts.len();
        let mut s = string_from("Vertices (");
        push_count(&mut s, total);
        if self.current_type().is_multi() && parts > 0 {
            push_str(&mut s, ")  ·  ");
            push_count(&mut s, parts);
            if parts == 1 {
                push_str(&mut s, " part finished");
            } else {
                push_str(&mut s, " parts finished");
            }
        } else {
            push_str(&mut s, ")");
        }
        s
    }
}

/// Does a message of the coordinate step report a problem: does it start
/// with `Error`, `Need` or `Invalid`?
pub open spec fn vertex_message_alarms(m: Seq<char>) -> bool {
    seq_starts_with(m, "Error"@) || seq_starts_with(m, "Need"@) || seq_starts_with(m, "Invalid"@)
}

/// Whether a message of the coordinate step is shown as a problem.
pub fn vertex_message_is_alarm(m: &str) -> (b: bool)
    ensures
        b == vertex_message_alarms(m@),
{
    starts_with_str(m, "Error") || starts_with_str(m, "Need") || starts_with_str(m, "Invalid")
}

/// Does a message of the export step report a problem: does it mention
/// `error` or `Error`?
pub open spec fn export_message_alarms(m: Seq<char>) -> bool {
    seq_contains(m, "error"@) || seq_contains(m, "Error"@)
}

/// Whether a message of the export step is shown as a problem.
pub fn export_message_is_alarm(m: &str) -> (b: bool)
    ensures
        b == export_message_alarms(m@),
{
    contains_str(m, "error") || contains_str(m, "Error")
}

} // verus!

//! Bresenham lines between character cells.
use vstd::prelude::*;

verus! {

/// `|v|`.
pub open spec fn abs_int(v: int) -> int {
    if v < 0 {
        -v
    } else {
        v
    }
}

/// Bresenham's error term once a line `dx` cells wide and `ady` cells tall
/// has moved `i` cells across and `j` cells down: positive where the ideal
/// line runs ahead of the walk along the minor axis.
#[verifier::opaque]
pub open spec fn line_error(i: int, j: int, dx: int, ady: int) -> int {
    dx * (j + 1) - ady * (i + 1)
}

/// One step of the walk from offset `p`: across where twice the error is at
/// least `-ady`, down where it is at most `dx`, or both.
pub open spec fn line_step(p: (int, int), dx: int, ady: int) -> (int, int) {
    let e = line_error(p.0, p.1, dx, ady);
    (if 2 * e >= -ady { p.0 + 1 } else { p.0 }, if 2 * e <= dx { p.1 + 1 } else { p.1 })
}

/// Offset of the walk after `k` steps.
pub open spec fn line_offset(k: nat, dx: int, ady: int) -> (int, int)
    decreases k,
{
    if k == 0 {
        (0, 0)
    } else {
        line_step(line_offset((k - 1) as nat, dx, ady), dx, ady)
    }
}

/// `a` moved `d` cells toward `b`.
pub open spec fn toward(a: int, b: int, d: int) -> int {
    if a < b {
        a + d
    } else {
        a - d
    }
}

/// The cells of the line from (`x0`, `y0`) to (`x1`, `y1`): one per step of
/// the walk along the longer axis, both ends included.
pub open spec fn line_points(x0: int, y0: int, x1: int, y1: int) -> Seq<(int, int)> {
    let dx = abs_int(x1 - x0);
    let ady = abs_int(y1 - y0);
    let n = if dx > ady { dx } else { ady };
    Seq::new(
        (n + 1) as nat,
        |k: int|
            {
                let o = line_offset(k as nat, dx, ady);
                (toward(x0, x1, o.0), toward(y0, y1, o.1))
            },
    )
}

/// Do cells `a` and `b` touch, sideways or across a corner?
pub open spec fn adjacent(a: (i32, i32), b: (i32, i32)) -> bool {
    &&& abs_int(a.0 - b.0) <= 1
    &&& abs_int(a.1 - b.1) <= 1
    &&& a != b
}

/// A cell as integers.
pub open spec fn cell_int(c: (i32, i32)) -> (int, int) {
    (c.0 as int, c.1 as int)
}

/// How the error term changes with each step.
proof fn lemma_error_steps(i: int, j: int, dx: int, ady: int)
    ensures
        line_error(i + 1, j, dx, ady) == line_error(i, j, dx, ady) - ady,
        line_error(i, j + 1, dx, ady) == line_error(i, j, dx, ady) + dx,
        line_error(0, 0, dx, ady) == dx - ady,
{
    reveal(line_error);
    assert(ady * (i + 2) == ady * (i + 1) + ady) by (nonlinear_arith);
    assert(dx * (j + 2) == dx * (j + 1) + dx) by (nonlinear_arith);
}

/// The walk never steps past the far end of an axis it has finished.
proof fn lemma_no_overshoot(i: int, j: int, dx: int, ady: int)
    requires
        0 <= i <= dx,
        0 <= j <= ady,
    ensures
        i == dx && j < ady ==> 2 * line_error(i, j, dx, ady) < -ady,
        j == ady && i < dx ==> 2 * line_error(i, j, dx, ady) > dx,
{
    reveal(line_error);
    if i == dx && j < ady {
        assert(dx * (j + 1) <= dx * ady) by (nonlinear_arith)
            requires
                j + 1 <= ady,
                dx >= 0,
        ;
        assert(ady * (dx + 1) == ady * dx + ady) by (nonlinear_arith);
        assert(dx * ady == ady * dx) by (nonlinear_arith);
    }
    if j == ady && i < dx {
        assert(ady * (i + 1) <= ady * dx) by (nonlinear_arith)
            requires
                i + 1 <= dx,
                ady >= 0,
        ;
        assert(dx * (ady + 1) == dx * ady + dx) by (nonlinear_arith);
        assert(dx * ady == ady * dx) by (nonlinear_arith);
    }
}

/// One step of the walk from a point short of the far end keeps the walk
/// inside the line's extent, keeps the error term bounded, and moves along
/// the longer axis.
proof fn lemma_step(i: int, j: int, k: int, err: int, dx: int, ady: int)
    requires
        0 <= i <= dx,
        0 <= j <= ady,
        !(i == dx && j == ady),
        err == line_error(i, j, dx, ady),
        -2 * (dx + ady) <= err <= 2 * (dx + ady),
        dx >= ady ==> i == k && 2 * err >= -ady,
        dx < ady ==> j == k && 2 * err <= dx,
    ensures
        ({
            let n = line_step((i, j), dx, ady);
            let e = err + (if 2 * err >= -ady { -ady } else { 0 }) + (if 2 * err <= dx { dx } else { 0 });
            &&& 0 <= n.0 <= dx
            &&& 0 <= n.1 <= ady
            &&& i <= n.0 <= i + 1
            &&& j <= n.1 <= j + 1
            &&& n.0 + n.1 > i + j
            &&& e == line_error(n.0, n.1, dx, ady)
            &&& -2 * (dx + ady) <= e <= 2 * (dx + ady)
            &&& dx >= ady ==> n.0 == k + 1 && 2 * e >= -ady
            &&& dx < ady ==> n.1 == k + 1 && 2 * e <= dx
        }),
{
    lemma_no_overshoot(i, j, dx, ady);
    lemma_error_steps(i, j, dx, ady);
    lemma_error_steps(i + 1, j, dx, ady);
}

/// The cells of a straight line from (`x0`, `y0`) to (`x1`, `y1`), by
/// Bresenham's algorithm: a path of touching cells from the first end to the
/// second, one cell per step along the longer axis, inside the box the two
/// ends span.
pub fn line_cells(x0: i32, y0: i32, x1: i32, y1: i32) -> (cells: Vec<(i32, i32)>)
    ensures
        cells@.map_values(|c: (i32, i32)| cell_int(c)) == line_points(
            x0 as int,
            y0 as int,
            x1 as int,
            y1 as int,
        ),
        cells@.len() == 1 + vstd::math::max(abs_int(x1 - x0), abs_int(y1 - y0)),
        cells@[0] == (x0, y0),
        cells@.last() == (x1, y1),
        forall|k: int| 0 <= k < cells@.len() - 1 ==> adjacent(#[trigger] cells@[k], cells@[k + 1]),
        forall|k: int|
            0 <= k < cells@.len() ==> {
                &&& vstd::math::min(x0 as int, x1 as int) <= (#[trigger] cells@[k]).0
                    <= vstd::math::max(x0 as int, x1 as int)
                &&& vstd::math::min(y0 as int, y1 as int) <= cells@[k].1 <= vstd::math::max(
                    y0 as int,
                    y1 as int,
                )
            },
{
    let ghost gx0 = x0 as int;
    let ghost gy0 = y0 as int;
    let ghost gx1 = x1 as int;
    let ghost gy1 = y1 as int;
    let dx: i64 = if x0 < x1 { x1 as i64 - x0 as i64 } else { x0 as i64 - x1 as i64 };
    let ady: i64 = if y0 < y1 { y1 as i64 - y0 as i64 } else { y0 as i64 - y1 as i64 };
    let sx: i64 = if x0 < x1 { 1 } else { -1 };
    let sy: i64 = if y0 < y1 { 1 } else { -1 };
    let mut err: i64 = dx - ady;
    let mut x: i64 = x0 as i64;
    let mut y: i64 = y0 as i64;
    let ghost mut i: int = 0;
    let ghost mut j: int = 0;
    let ghost mut k: nat = 0;
    let ghost pts = line_points(gx0, gy0, gx1, gy1);
    let mut cells: Vec<(i32, i32)> = Vec::new();
    cells.push((x0, y0));
    proof {
        lemma_error_steps(0, 0, dx as int, ady as int);
    }
    while x != x1 as i64 || y != y1 as i64
        invariant
            dx == abs_int(gx1 - gx0),
            ady == abs_int(gy1 - gy0),
            sx == (if x0 < x1 { 1int } else { -1int }),
            sy == (if y0 < y1 { 1int } else { -1int }),
            gx0 == x0,
            gy0 == y0,
            gx1 == x1,
            gy1 == y1,
            pts == line_points(gx0, gy0, gx1, gy1),
            0 <= i <= dx,
            0 <= j <= ady,
            x == toward(gx0, gx1, i),
            y == toward(gy0, gy1, j),
            (i, j) == line_offset(k, dx as int, ady as int),
            err == line_error(i, j, dx as int, ady as int),
            -2 * (dx + ady) <= err <= 2 * (dx + ady),
            dx >= ady ==> i == k && 2 * err >= -ady,
            dx < ady ==> j == k && 2 * err <= dx,
            cells@.len() == k + 1,
            forall|m: int| 0 <= m <= k ==> cell_int(#[trigger] cells@[m]) == {
                let o = line_offset(m as nat, dx as int, ady as int);
                (toward(gx0, gx1, o.0), toward(gy0, gy1, o.1))
            },
            cells@[0] == (x0, y0),
            forall|m: int| 0 <= m < k ==> adjacent(#[trigger] cells@[m], cells@[m + 1]),
            forall|m: int|
                0 <= m <= k ==> {
                    &&& vstd::math::min(gx0, gx1) <= (#[trigger] cells@[m]).0 <= vstd::math::max(gx0, gx1)
                    &&& vstd::math::min(gy0, gy1) <= cells@[m].1 <= vstd::math::max(gy0, gy1)
                },
        decreases (dx - i) + (ady - j),
    {
        proof {
            lemma_step(i, j, k as int, err as int, dx as int, ady as int);
        }
        let ghost (pi, pj) = (i, j);
        let e2 = 2 * err;
        if e2 >= -ady {
            err = err - ady;
            x = x + sx;
            proof {
                i = i + 1;
            }
        }
        if e2 <= dx {
            err = err + dx;
            y = y + sy;
            proof {
                j = j + 1;
            }
        }
        proof {
            k = k + 1;
            assert(line_offset(k, dx as int, ady as int) == line_step((pi, pj), dx as int, ady as int));
        }
        let ghost prev = cells@[cells@.len() - 1];
        cells.push((x as i32, y as i32));
        proof {
            assert(adjacent(prev, cells@[k as int]));
        }
    }
    proof {
        let n = if dx > ady { dx as int } else { ady as int };
        assert(i == dx && j == ady);
        assert(k == n);
        assert(cells@.map_values(|c: (i32, i32)| cell_int(c)) =~= pts);
    }
    cells
}

} // verus!

//! The shape of the glass: how wide its neck is for a given time, where its
//! walls stand, and where the sand lies before the timer starts.

use vstd::prelude::*;
use crate::grid::{Cell, Grid, WIDTH, HEIGHT, cell_of, count_between, in_bounds, lemma_count_same, sand_count};

verus! {

/// Distance between two integers.
pub open spec fn abs_diff(a: int, b: int) -> int {
    if a >= b {
        a - b
    } else {
        b - a
    }
}

/// A cell `dx` columns off the axis and `dy` rows off the neck lies inside
/// the cone of the glass when `dx <= dy / 1.1`.
pub open spec fn in_cone(dx: int, dy: int) -> bool {
    11 * dx <= 10 * dy
}

/// Number of columns `2..xe` of a row `dy` rows above the neck that lie in
/// the cone.
pub open spec fn cone_row(dy: int, xe: int) -> nat
    decreases xe - 2,
{
    if xe <= 2 {
        0
    } else {
        cone_row(dy, xe - 1) + if in_cone(abs_diff(xe - 1, 50), dy) {
            1nat
        } else {
            0nat
        }
    }
}

/// Number of cone cells in the rows `81..ye`, columns `2..98`.
pub open spec fn cone_rows(ye: int) -> nat
    decreases ye - 81,
{
    if ye <= 81 {
        0
    } else {
        cone_rows(ye - 1) + cone_row(ye - 1 - 80, 98)
    }
}

/// How many grains the upper bulb is taken to hold when the neck is sized:
/// the cone cells of the sand rows `81..145`.
pub open spec fn capacity() -> nat {
    cone_rows(145)
}

/// `a / b` rounded up.
pub open spec fn ceil_div(a: int, b: int) -> int {
    (a + b - 1) / b
}

/// The timer's length in seconds; a length of zero counts as one second.
pub open spec fn total_seconds_spec(h: int, m: int, s: int) -> int {
    if h * 3600 + m * 60 + s < 1 {
        1
    } else {
        h * 3600 + m * 60 + s
    }
}

/// The timer's length in seconds fits in a `u32`.
pub open spec fn time_fits(h: int, m: int, s: int) -> bool {
    h * 3600 + m * 60 + s <= u32::MAX
}

/// Half the width, in cells, of the opening that lets the capacity through
/// in `total_secs` seconds at 30 grains per second of opening.
pub open spec fn hole_radius_spec(total_secs: int) -> int {
    ceil_div(capacity() as int, 30 * total_secs) / 2
}

/// The walls of the glass, before any sand is poured in.
pub open spec fn frame_cell(r: int, y: int, x: int) -> Cell {
    let dx = abs_diff(x, 50);
    let dy = abs_diff(y, 80);
    if x < 2 || x >= 98 || y < 4 || y >= 156 {
        Cell::Wall
    } else if dy == 0 {
        if dx > r {
            Cell::Wall
        } else {
            Cell::Empty
        }
    } else if 11 * (dx - r) > 10 * dy {
        Cell::Wall
    } else {
        Cell::Empty
    }
}

/// The glass when the timer is set: every open cell of the rows `81..145`
/// holds a grain.
pub open spec fn layout_cell(r: int, y: int, x: int) -> Cell {
    if frame_cell(r, y, x) == Cell::Empty && 81 <= y < 145 {
        Cell::Sand
    } else {
        frame_cell(r, y, x)
    }
}

/// The timer's length in seconds, `h * 3600 + m * 60 + s`, or one second
/// where that is zero.
pub fn total_seconds(h: u32, m: u32, s: u32) -> (t: u32)
    requires
        time_fits(h as int, m as int, s as int),
    ensures
        t == total_seconds_spec(h as int, m as int, s as int),
        t >= 1,
{
    let t = h * 3600 + m * 60 + s;
    if t < 1 {
        1
    } else {
        t
    }
}

/// Counts the cone cells of the sand rows.
pub fn estimated_capacity() -> (n: u32)
    ensures
        n == capacity(),
        n <= 6144,
{
    let mut n: u32 = 0;
    let mut y: u32 = 81;
    while y < 145
        invariant
            81 <= y <= 145,
            n == cone_rows(y as int),
            n <= (y - 81) * 96,
        decreases 145 - y,
    {
        let dy: u32 = y - 80;
        let mut row: u32 = 0;
        let mut x: u32 = 2;
        while x < 98
            invariant
                2 <= x <= 98,
                1 <= dy <= 64,
                row == cone_row(dy as int, x as int),
                row <= x - 2,
            decreases 98 - x,
        {
            let dx: u32 = if x >= 50 {
                x - 50
            } else {
                50 - x
            };
            if 11 * dx <= 10 * dy {
                row = row + 1;
            }
            x = x + 1;
        }
        n = n + row;
        y = y + 1;
    }
    n
}

/// Half the width of the neck's opening for a timer of `total_secs`
/// seconds: the capacity, divided by 30 grains per second and by the time,
/// rounded up, then halved.
pub fn hole_radius_for(total_secs: u32) -> (r: i32)
    requires
        total_secs >= 1,
    ensures
        r == hole_radius_spec(total_secs as int),
        0 <= r <= 3072,
{
    let cap = estimated_capacity() as u64;
    let d: u64 = 30 * (total_secs as u64);
    let width = (cap + d - 1) / d;
    proof {
        let c = cap as int;
        let dd = d as int;
        assert((c + dd - 1) / dd <= c) by (nonlinear_arith)
            requires
                0 <= c,
                dd >= 30,
        {
            assert(c + dd - 1 < (c + 1) * dd);
        }
        assert(0 <= (c + dd - 1) / dd) by (nonlinear_arith)
            requires
                0 <= c,
                dd >= 30,
        ;
    }
    (width / 2) as i32
}

/// The content of row `y`, column `x` of the glass when the timer is set.
pub fn layout_at(r: i32, y: usize, x: usize) -> (c: Cell)
    requires
        0 <= r <= 3072,
        y < HEIGHT,
        x < WIDTH,
    ensures
        c == layout_cell(r as int, y as int, x as int),
{
    let yi = y as i64;
    let xi = x as i64;
    let ri = r as i64;
    let dx: i64 = if xi >= 50 {
        xi - 50
    } else {
        50 - xi
    };
    let dy: i64 = if yi >= 80 {
        yi - 80
    } else {
        80 - yi
    };
    let frame = if x < 2 || x >= 98 || y < 4 || y >= 156 {
        Cell::Wall
    } else if dy == 0 {
        if dx > ri {
            Cell::Wall
        } else {
            Cell::Empty
        }
    } else if 11 * (dx - ri) > 10 * dy {
        Cell::Wall
    } else {
        Cell::Empty
    };
    if frame == Cell::Empty && 81 <= y && y < 145 {
        Cell::Sand
    } else {
        frame
    }
}

/// The glass when the timer is set, for a neck of radius `r`, and the
/// number of grains in it.
pub fn build_layout(r: i32) -> (res: (Grid, usize))
    requires
        0 <= r <= 3072,
    ensures
        res.0.wf(),
        forall|y: int, x: int|
            in_bounds(y, x) ==> #[trigger] cell_of(res.0@, y, x) == layout_cell(r as int, y, x),
        res.1 == sand_count(res.0@),
{
    let mut cells: Vec<Cell> = Vec::new();
    let mut count: usize = 0;
    let mut y: usize = 0;
    while y < HEIGHT
        invariant
            0 <= r <= 3072,
            y <= 160,
            cells@.len() == y * 100,
            forall|yy: int, xx: int|
                in_bounds(yy, xx) && yy < y ==> #[trigger] cell_of(cells@, yy, xx) == layout_cell(
                    r as int,
                    yy,
                    xx,
                ),
            count == count_between(cells@, Cell::Sand, 0, cells@.len() as int),
            count <= cells@.len(),
        decreases 160 - y,
    {
        let mut x: usize = 0;
        while x < WIDTH
            invariant
                0 <= r <= 3072,
                y < 160,
                x <= 100,
                cells@.len() == y * 100 + x,
                forall|yy: int, xx: int|
                    in_bounds(yy, xx) && (yy < y || (yy == y && xx < x))
                        ==> #[trigger] cell_of(cells@, yy, xx) == layout_cell(r as int, yy, xx),
                count == count_between(cells@, Cell::Sand, 0, cells@.len() as int),
                count <= cells@.len(),
            decreases 100 - x,
        {
            let c = layout_at(r, y, x);
            let ghost before = cells@;
            cells.push(c);
            proof {
                lemma_count_same(before, cells@, Cell::Sand, 0, before.len() as int);
                assert forall|yy: int, xx: int|
                    in_bounds(yy, xx) && (yy < y || (yy == y && xx < x + 1)) implies #[trigger] cell_of(
                    cells@,
                    yy,
                    xx,
                ) == layout_cell(r as int, yy, xx) by {
                    if yy == y && xx == x {
                    } else {
                        assert(yy * 100 + xx < y * 100 + x);
                        assert(cell_of(before, yy, xx) == layout_cell(r as int, yy, xx));
                    }
                }
            }
            if c == Cell::Sand {
                count = count + 1;
            }
            x = x + 1;
        }
        y = y + 1;
    }
    (Grid { cells }, count)
}

} // verus!

//! One step of the sand: every grain falls, slides, shakes or stays put.

use vstd::prelude::*;
use rand::rngs::ThreadRng;
use crate::grid::{
    Cell, Grid, HEIGHT, WIDTH, CELLS, cell_of, idx, in_bounds, count_between, sand_count,
    source_count, lemma_count_split, lemma_count_extend_low, lemma_count_none,
    lemma_count_update_gain, lemma_idx_injective, lemma_count_same, lemma_count_bound,
};
use crate::layout::abs_diff;
use crate::rng::{random_ratio, thread_rng};
use crate::timer::{App, AppState};

verus! {

/// Some grain of `old` lies in the cell (`y`, `x`) or in one of its eight
/// neighbours.
pub open spec fn sand_near(old: Seq<Cell>, y: int, x: int) -> bool {
    exists|sy: int, sx: int|
        in_bounds(sy, sx) && abs_diff(sy, y) <= 1 && abs_diff(sx, x) <= 1 && #[trigger] cell_of(
            old,
            sy,
            sx,
        ) == Cell::Sand
}

/// A grain of `g` stood in the cell (`y`, `x`) or in one of the three
/// cells above it: grains only fall, slide down, or stay.
pub open spec fn falls_from(g: Seq<Cell>, y: int, x: int) -> bool {
    ||| cell_of(g, y, x) == Cell::Sand
    ||| (y + 1 < 160 && x >= 1 && cell_of(g, y + 1, x - 1) == Cell::Sand)
    ||| (y + 1 < 160 && cell_of(g, y + 1, x) == Cell::Sand)
    ||| (y + 1 < 160 && x + 1 < 100 && cell_of(g, y + 1, x + 1) == Cell::Sand)
}

/// Number of grains in the lower bulb: the rows below the neck.
pub open spec fn lower_count(g: Seq<Cell>) -> nat {
    count_between(g, Cell::Sand, 0, 8000)
}

/// Every open cell of the neck's row lies in its opening, as in a glass
/// freshly set with neck radius `r`.
pub open spec fn neck_intact(g: Seq<Cell>, r: int) -> bool {
    forall|x: int| 0 <= x < 100 && #[trigger] cell_of(g, 80, x) != Cell::Wall ==> at_gate_spec(80, x, r)
}

/// Number of grains in the neck's row.
pub open spec fn neck_grains(g: Seq<Cell>) -> nat {
    count_between(g, Cell::Sand, 8000, 8100)
}

/// A running timer whose grains in the neck's row all sit in its opening,
/// each over a free cell, with a whole grain of allowance for each of them.
pub open spec fn neck_open_for_all(a: App) -> bool {
    &&& a.state == AppState::Running
    &&& forall|x: int|
        0 <= x < 100 && #[trigger] cell_of(a.grid@, 80, x) == Cell::Sand ==> at_gate_spec(
            80,
            x,
            a.hole_radius as int,
        ) && cell_of(a.grid@, 79, x) == Cell::Empty
    &&& a.gate_allowance >= neck_grains(a.grid@) * a.grain_unit()
}

/// `next` is a grid being filled from `old`: the walls are those of `old`,
/// and every grain stands next to a grain of `old`.
pub open spec fn next_ok(old: Seq<Cell>, next: Seq<Cell>) -> bool {
    &&& old.len() == 16000
    &&& next.len() == 16000
    &&& forall|i: int| 0 <= i < 16000 ==> (#[trigger] next[i] == Cell::Wall) == (old[i] == Cell::Wall)
    &&& forall|y: int, x: int|
        in_bounds(y, x) && #[trigger] cell_of(next, y, x) == Cell::Sand ==> sand_near(old, y, x)
}

/// The cell (`y`, `x`) touches a wall of `g` on its left, right, bottom or
/// top side.
pub open spec fn adjacent_to_wall_spec(g: Seq<Cell>, y: int, x: int) -> bool {
    ||| (x > 0 && cell_of(g, y, x - 1) == Cell::Wall)
    ||| (x + 1 < 100 && cell_of(g, y, x + 1) == Cell::Wall)
    ||| (y > 0 && cell_of(g, y - 1, x) == Cell::Wall)
    ||| (y + 1 < 160 && cell_of(g, y + 1, x) == Cell::Wall)
}

/// `g` mirrored about the glass's axis: column `x` becomes column `99 - x`.
pub open spec fn mirrored(g: Seq<Cell>) -> Seq<Cell> {
    Seq::new(16000, |i: int| g[(i / 100) * 100 + 99 - i % 100])
}

/// A cell touches a wall exactly when one of its four side neighbours on
/// the grid (left, right, below, above) is a wall.
pub proof fn lemma_adjacent_exact(g: Seq<Cell>, y: int, x: int)
    requires
        in_bounds(y, x),
    ensures
        adjacent_to_wall_spec(g, y, x) <==> exists|ny: int, nx: int|
            in_bounds(ny, nx) && abs_diff(ny, y) + abs_diff(nx, x) == 1 && #[trigger] cell_of(g, ny, nx)
                == Cell::Wall,
{
    if exists|ny: int, nx: int|
        in_bounds(ny, nx) && abs_diff(ny, y) + abs_diff(nx, x) == 1 && #[trigger] cell_of(g, ny, nx)
            == Cell::Wall {
        let (ny, nx) = choose|ny: int, nx: int|
            in_bounds(ny, nx) && abs_diff(ny, y) + abs_diff(nx, x) == 1 && #[trigger] cell_of(g, ny, nx)
                == Cell::Wall;
        assert(adjacent_to_wall_spec(g, y, x));
    }
    if adjacent_to_wall_spec(g, y, x) {
        if x > 0 && cell_of(g, y, x - 1) == Cell::Wall {
            assert(cell_of(g, y, x - 1) == Cell::Wall);
        } else if x + 1 < 100 && cell_of(g, y, x + 1) == Cell::Wall {
            assert(cell_of(g, y, x + 1) == Cell::Wall);
        } else if y > 0 && cell_of(g, y - 1, x) == Cell::Wall {
            assert(cell_of(g, y - 1, x) == Cell::Wall);
        } else {
            assert(cell_of(g, y + 1, x) == Cell::Wall);
        }
    }
}

/// Mirroring the glass about its axis does not change which cells touch
/// a wall.
pub proof fn lemma_adjacent_mirrored(g: Seq<Cell>, y: int, x: int)
    requires
        g.len() == 16000,
        in_bounds(y, x),
    ensures
        adjacent_to_wall_spec(g, y, x) == adjacent_to_wall_spec(mirrored(g), y, 99 - x),
{
    let m = mirrored(g);
    assert forall|yy: int, xx: int| in_bounds(yy, xx) implies cell_of(m, yy, 99 - xx) == cell_of(
        g,
        yy,
        xx,
    ) by {
        let i = yy * 100 + 99 - xx;
        vstd::arithmetic::div_mod::lemma_fundamental_div_mod_converse(i, 100, yy, 99 - xx);
    }
    if x > 0 {
        assert(cell_of(m, y, 99 - x + 1) == cell_of(g, y, x - 1));
    }
    if x + 1 < 100 {
        assert(cell_of(m, y, 99 - x - 1) == cell_of(g, y, x + 1));
    }
    if y > 0 {
        assert(cell_of(m, y - 1, 99 - x) == cell_of(g, y - 1, x));
    }
    if y + 1 < 160 {
        assert(cell_of(m, y + 1, 99 - x) == cell_of(g, y + 1, x));
    }
}

/// Whether a grain of row `y`, column `x` sits in the neck's opening.
pub open spec fn at_gate_spec(y: int, x: int, r: int) -> bool {
    y == 80 && abs_diff(x, 50) <= r
}

/// The chance that a grain does not slide: beside a wall the wall friction,
/// in the upper bulb half the sand friction, below it the sand friction.
pub open spec fn stick_chance_spec(adjacent: bool, in_source: bool, wall_f: int, sand_f: int) -> (
    int,
    int,
) {
    if adjacent {
        (wall_f, 1_000_000)
    } else if in_source {
        (sand_f, 2_000_000)
    } else {
        (sand_f, 1_000_000)
    }
}

/// The chance that a grain that could not move shakes sideways: one in
/// five in the upper bulb, one in twenty below it.
pub open spec fn shake_chance_spec(in_source: bool) -> (int, int) {
    if in_source {
        (1, 5)
    } else {
        (1, 20)
    }
}

/// What one step of the sand keeps and changes, whatever the draws of
/// chance were.
pub open spec fn step_ok(before: App, after: App) -> bool {
    &&& after.wf()
    &&& forall|i: int|
        0 <= i < 16000 ==> (#[trigger] after.grid@[i] == Cell::Wall) == (before.grid@[i] == Cell::Wall)
    &&& forall|y: int, x: int|
        in_bounds(y, x) && #[trigger] cell_of(after.grid@, y, x) == Cell::Sand ==> falls_from(
            before.grid@,
            y,
            x,
        )
    &&& sand_count(after.grid@) == sand_count(before.grid@)
    &&& source_count(after.grid@) <= source_count(before.grid@)
    &&& lower_count(after.grid@) >= lower_count(before.grid@)
    &&& (before.state == AppState::Running && neck_intact(before.grid@, before.hole_radius as int)
        ==> lower_count(after.grid@) == lower_count(before.grid@) + (before.gate_allowance
        - after.gate_allowance) / before.grain_unit())
    &&& (neck_open_for_all(before) ==> (forall|x: int|
        0 <= x < 100 && cell_of(before.grid@, 80, x) == Cell::Sand ==> #[trigger] cell_of(
            after.grid@,
            79,
            x,
        ) == Cell::Sand) && after.gate_allowance == before.gate_allowance - neck_grains(
        before.grid@,
    ) * before.grain_unit())
    &&& exists|xr: Draw, ds: Seq<Draws>|
        #![trigger sweep(before, xr.outcome, ds, 16000)]
        draw_ok(xr) && xr.numerator == 1 && xr.denominator == 2 && ds.len() == 16000 && sweep(
            before,
            xr.outcome,
            ds,
            16000,
        ) == (after.grid@, after.gate_allowance as int) && sweep_draws_fit(
            before,
            xr.outcome,
            ds,
            16000,
        )
    &&& after.state == (if before.state == AppState::Running && before.initial_sand > 0 && source_count(
        after.grid@,
    ) == 0 {
        AppState::Finished
    } else {
        before.state
    })
    &&& after.gate_allowance <= before.gate_allowance
    &&& (before.state != AppState::Running ==> after.gate_allowance == before.gate_allowance)
    &&& (before.gate_allowance - after.gate_allowance) % before.grain_unit() == 0
    &&& after.initial_sand == before.initial_sand
    &&& after.physics_accumulator == before.physics_accumulator
    &&& after.hole_radius == before.hole_radius
    &&& after.elapsed == before.elapsed
    &&& after.total_secs == before.total_secs
    &&& after.h == before.h
    &&& after.m == before.m
    &&& after.s == before.s
    &&& after.selected_unit == before.selected_unit
    &&& after.wall_friction == before.wall_friction
    &&& after.sand_friction == before.sand_friction
    &&& after.is_24h == before.is_24h
}

/// Whether a grain of row `y`, column `x` sits in the neck's opening.
pub fn at_gate(y: usize, x: usize, r: i32) -> (b: bool)
    requires
        y < HEIGHT,
        x < WIDTH,
    ensures
        b == at_gate_spec(y as int, x as int, r as int),
{
    let dx: i64 = if x >= 50 {
        x as i64 - 50
    } else {
        50 - x as i64
    };
    y == 80 && dx <= r as i64
}

/// Whether the cell (`y`, `x`) touches a wall of `g` on one of its four
/// sides.
pub fn adjacent_to_wall(g: &Grid, y: usize, x: usize) -> (b: bool)
    requires
        g.wf(),
        y < HEIGHT,
        x < WIDTH,
    ensures
        b == adjacent_to_wall_spec(g@, y as int, x as int),
{
    (x > 0 && g.get(y, x - 1) == Cell::Wall) || (x + 1 < WIDTH && g.get(y, x + 1) == Cell::Wall)
        || (y > 0 && g.get(y - 1, x) == Cell::Wall) || (y + 1 < HEIGHT && g.get(y + 1, x)
        == Cell::Wall)
}

/// The chance, as numerator and denominator, that a grain does not slide.
pub fn stick_chance(adjacent: bool, in_source: bool, wall_f: i64, sand_f: i64) -> (c: (u32, u32))
    requires
        0 <= wall_f <= 1_000_000,
        0 <= sand_f <= 1_000_000,
    ensures
        (c.0 as int, c.1 as int) == stick_chance_spec(adjacent, in_source, wall_f as int, sand_f as int),
        0 < c.1,
        c.0 <= c.1,
{
    if adjacent {
        (wall_f as u32, 1_000_000)
    } else if in_source {
        (sand_f as u32, 2_000_000)
    } else {
        (sand_f as u32, 1_000_000)
    }
}

/// The chance, as numerator and denominator, that a grain that could not
/// move shakes sideways.
pub fn shake_chance(in_source: bool) -> (c: (u32, u32))
    ensures
        (c.0 as int, c.1 as int) == shake_chance_spec(in_source),
{
    if in_source {
        (1, 5)
    } else {
        (1, 20)
    }
}

/// Putting a grain of `old` into an empty cell next to it keeps `next_ok`.
proof fn lemma_place(old: Seq<Cell>, next: Seq<Cell>, y: int, x: int, sy: int, sx: int)
    requires
        next_ok(old, next),
        in_bounds(y, x),
        in_bounds(sy, sx),
        abs_diff(y, sy) <= 1,
        abs_diff(x, sx) <= 1,
        cell_of(next, y, x) == Cell::Empty,
        cell_of(old, sy, sx) == Cell::Sand,
    ensures
        next_ok(old, next.update(idx(y, x), Cell::Sand)),
        sand_count(next.update(idx(y, x), Cell::Sand)) == sand_count(next) + 1,
{
    let n2 = next.update(idx(y, x), Cell::Sand);
    assert forall|i: int| 0 <= i < 16000 implies (#[trigger] n2[i] == Cell::Wall) == (old[i]
        == Cell::Wall) by {
        if i != idx(y, x) {
            assert(n2[i] == next[i]);
        }
    }
    assert forall|yy: int, xx: int|
        in_bounds(yy, xx) && #[trigger] cell_of(n2, yy, xx) == Cell::Sand implies sand_near(
        old,
        yy,
        xx,
    ) by {
        if yy == y && xx == x {
            assert(cell_of(old, sy, sx) == Cell::Sand);
        } else {
            if idx(yy, xx) == idx(y, x) {
                lemma_idx_injective(yy, xx, y, x);
            }
            assert(cell_of(n2, yy, xx) == cell_of(next, yy, xx));
        }
    }
    lemma_count_update_gain(next, Cell::Sand, idx(y, x), 0, 16000);
}

/// The walls of `g` with every other cell empty.
fn walls_of(g: &Grid) -> (next: Grid)
    requires
        g.wf(),
    ensures
        next.wf(),
        next_ok(g@, next@),
        sand_count(next@) == 0,
        next@ == walls_only(g@),
{
    let mut cells: Vec<Cell> = Vec::new();
    let mut i: usize = 0;
    while i < CELLS
        invariant
            g.wf(),
            i <= 16000,
            cells@.len() == i,
            forall|j: int| 0 <= j < i ==> (#[trigger] cells@[j] == Cell::Wall) == (g@[j] == Cell::Wall),
            forall|j: int| 0 <= j < i ==> #[trigger] cells@[j] != Cell::Sand,
        decreases 16000 - i,
    {
        if g.cells[i] == Cell::Wall {
            cells.push(Cell::Wall);
        } else {
            cells.push(Cell::Empty);
        }
        i = i + 1;
    }
    let next = Grid { cells };
    proof {
        lemma_count_none(next@, Cell::Sand, 0, 16000);
        assert forall|y: int, x: int|
            in_bounds(y, x) && #[trigger] cell_of(next@, y, x) == Cell::Sand implies sand_near(
            g@,
            y,
            x,
        ) by {
            assert(next@[y * 100 + x] != Cell::Sand);
        }
        assert(next@ =~= walls_only(g@));
    }
    next
}

/// The walls of `g` with every other cell empty.
pub open spec fn walls_only(g: Seq<Cell>) -> Seq<Cell> {
    Seq::new(
        16000,
        |i: int|
            if g[i] == Cell::Wall {
                Cell::Wall
            } else {
                Cell::Empty
            },
    )
}

/// The `k`-th cell of the sweep: rows from the bottom; within a row from
/// the left, or from the right where `x_rev`.
pub open spec fn visit(k: int, x_rev: bool) -> (int, int) {
    (k / 100, if x_rev {
        99 - k % 100
    } else {
        k % 100
    })
}

/// The new grid and the allowance after the first `k` cells of the sweep
/// over `before`, the grain of the `i`-th cell moving as `grain_dest` says
/// for the draws `ds[i]`.
pub open spec fn sweep(before: App, x_rev: bool, ds: Seq<Draws>, k: nat) -> (Seq<Cell>, int)
    decreases k,
{
    if k == 0 {
        (walls_only(before.grid@), before.gate_allowance as int)
    } else {
        let (g, a) = sweep(before, x_rev, ds, (k - 1) as nat);
        let (y, x) = visit(k - 1, x_rev);
        if cell_of(before.grid@, y, x) != Cell::Sand {
            (g, a)
        } else {
            let can_pass = a >= before.grain_unit();
            let r = before.hole_radius as int;
            let g2 = match grain_dest(g, y, x, r, can_pass, before.state, ds[k - 1]) {
                Some(t) => g.update(idx(t.0, t.1), Cell::Sand),
                None => g,
            };
            let a2 = if fall_spec(g, y, x, r, can_pass, before.state) is Some && at_gate_spec(y, x, r)
                && before.state == AppState::Running {
                a - before.grain_unit()
            } else {
                a
            };
            (g2, a2)
        }
    }
}

/// The draws of every grain of the sweep are those its move makes.
pub open spec fn sweep_draws_fit(before: App, x_rev: bool, ds: Seq<Draws>, k: nat) -> bool {
    forall|i: nat|
        i < k && cell_of(before.grid@, visit(i as int, x_rev).0, visit(i as int, x_rev).1)
            == Cell::Sand ==> #[trigger] draws_fit_at(before, x_rev, ds, i)
}

/// The draws of the `i`-th cell of the sweep are those its move makes.
pub open spec fn draws_fit_at(before: App, x_rev: bool, ds: Seq<Draws>, i: nat) -> bool {
    let (g, a) = sweep(before, x_rev, ds, i);
    let (y, x) = visit(i as int, x_rev);
    draws_fit(
        before.grid@,
        g,
        y,
        x,
        before.hole_radius as int,
        a >= before.grain_unit(),
        before.state,
        before.wall_friction as int,
        before.sand_friction as int,
        ds[i as int],
    )
}

/// The column's place in the sweep across a row.
pub open spec fn pos(x: int, x_rev: bool) -> int {
    if x_rev {
        99 - x
    } else {
        x
    }
}

/// Grains of the first `j` cells, in sweep order, of row `y` of `g`.
pub open spec fn row_seen(g: Seq<Cell>, y: int, j: int, x_rev: bool) -> nat {
    if x_rev {
        count_between(g, Cell::Sand, y * 100 + 100 - j, y * 100 + 100)
    } else {
        count_between(g, Cell::Sand, y * 100, y * 100 + j)
    }
}

/// No grain has yet been put where a grain of `g` still waits to move:
/// every cell of `g` from the `j`-th cell of row `y` on, in sweep order,
/// that holds a grain is still empty in `n`.
pub open spec fn unvisited_empty(g: Seq<Cell>, n: Seq<Cell>, y: int, j: int, x_rev: bool) -> bool {
    forall|ty: int, tx: int|
        in_bounds(ty, tx) && (ty > y || (ty == y && pos(tx, x_rev) >= j)) && #[trigger] cell_of(
            g,
            ty,
            tx,
        ) == Cell::Sand ==> cell_of(n, ty, tx) == Cell::Empty
}

/// Every grain of `n` fell, slid down or stayed from a grain of `g`.
pub open spec fn moves_down(g: Seq<Cell>, n: Seq<Cell>) -> bool {
    forall|ty: int, tx: int|
        in_bounds(ty, tx) && #[trigger] cell_of(n, ty, tx) == Cell::Sand ==> falls_from(g, ty, tx)
}

/// A grain whose own cell is still free goes somewhere: it falls, slides
/// down, or stays; through the opening of the neck it can only fall.
proof fn lemma_dest_shape(
    next: Seq<Cell>,
    y: int,
    x: int,
    r: int,
    can_pass: bool,
    state: AppState,
    d: Draws,
)
    requires
        in_bounds(y, x),
        cell_of(next, y, x) == Cell::Empty,
    ensures
        ({
            let dest = grain_dest(next, y, x, r, can_pass, state, d);
            &&& dest is Some
            &&& in_bounds(dest.unwrap().0, dest.unwrap().1)
            &&& cell_of(next, dest.unwrap().0, dest.unwrap().1) == Cell::Empty
            &&& (dest.unwrap() == (y, x) || (y >= 1 && dest.unwrap().0 == y - 1 && abs_diff(
                dest.unwrap().1,
                x,
            ) <= 1))
            &&& (dest.unwrap().0 == y - 1 && at_gate_spec(y, x, r) ==> fall_spec(
                next,
                y,
                x,
                r,
                can_pass,
                state,
            ) is Some && dest.unwrap() == (y - 1, x))
        }),
{
    reveal_with_fuel(first_free_spec, 3);
    if d.right_first is Some {
        let cs = slide_cells(y, x, d.right_first.unwrap().outcome);
        assert(cs.drop_first()[0] == cs[1]);
        assert(cs.drop_first().drop_first().len() == 0);
    }
}

/// Putting a grain into an empty cell adds one to the counts of the
/// ranges that hold the cell and leaves the others.
proof fn lemma_place_counts(n: Seq<Cell>, ty: int, tx: int)
    requires
        n.len() == 16000,
        in_bounds(ty, tx),
        cell_of(n, ty, tx) == Cell::Empty,
    ensures
        ({
            let n2 = n.update(idx(ty, tx), Cell::Sand);
            &&& sand_count(n2) == sand_count(n) + 1
            &&& lower_count(n2) == lower_count(n) + if ty < 80 {
                1nat
            } else {
                0nat
            }
            &&& source_count(n2) == source_count(n) + if ty >= 81 {
                1nat
            } else {
                0nat
            }
        }),
{
    let i = idx(ty, tx);
    let n2 = n.update(i, Cell::Sand);
    lemma_count_update_gain(n, Cell::Sand, i, 0, 16000);
    if ty < 80 {
        lemma_count_update_gain(n, Cell::Sand, i, 0, 8000);
    } else {
        assert forall|k: int| 0 <= k < 8000 implies n[k] == n2[k] by {}
        lemma_count_same(n, n2, Cell::Sand, 0, 8000);
    }
    if ty >= 81 {
        lemma_count_update_gain(n, Cell::Sand, i, 8100, 16000);
    } else {
        assert forall|k: int| 8100 <= k < 16000 implies n[k] == n2[k] by {}
        lemma_count_same(n, n2, Cell::Sand, 8100, 16000);
    }
}

/// Moving the grain of (`y`, `x`), the `j`-th cell of its row in sweep
/// order, into its own cell or the row below keeps the cells still to come
/// empty, and keeps every grain one that fell, slid down or stayed.
proof fn lemma_sweep_place(g: Seq<Cell>, n: Seq<Cell>, y: int, x: int, j: int, x_rev: bool, t: (int, int))
    requires
        n.len() == 16000,
        in_bounds(y, x),
        pos(x, x_rev) == j,
        cell_of(g, y, x) == Cell::Sand,
        unvisited_empty(g, n, y, j, x_rev),
        moves_down(g, n),
        in_bounds(t.0, t.1),
        t == (y, x) || (t.0 == y - 1 && abs_diff(t.1, x) <= 1),
    ensures
        unvisited_empty(g, n.update(idx(t.0, t.1), Cell::Sand), y, j + 1, x_rev),
        moves_down(g, n.update(idx(t.0, t.1), Cell::Sand)),
{
    let n2 = n.update(idx(t.0, t.1), Cell::Sand);
    assert forall|ty: int, tx: int|
        in_bounds(ty, tx) && (ty > y || (ty == y && pos(tx, x_rev) >= j + 1)) && #[trigger] cell_of(
            g,
            ty,
            tx,
        ) == Cell::Sand implies cell_of(n2, ty, tx) == Cell::Empty by {
        if idx(ty, tx) == idx(t.0, t.1) {
            lemma_idx_injective(ty, tx, t.0, t.1);
        }
        assert(cell_of(n2, ty, tx) == cell_of(n, ty, tx));
    }
    assert forall|ty: int, tx: int|
        in_bounds(ty, tx) && #[trigger] cell_of(n2, ty, tx) == Cell::Sand implies falls_from(
        g,
        ty,
        tx,
    ) by {
        if ty == t.0 && tx == t.1 {
        } else {
            if idx(ty, tx) == idx(t.0, t.1) {
                lemma_idx_injective(ty, tx, t.0, t.1);
            }
            assert(cell_of(n2, ty, tx) == cell_of(n, ty, tx));
        }
    }
}

/// Grains of row `y` seen so far are at most the grains of the row.
proof fn lemma_row_seen_bound(g: Seq<Cell>, y: int, j: int, x_rev: bool)
    requires
        0 <= j <= 100,
    ensures
        row_seen(g, y, j, x_rev) <= row_seen(g, y, 100, x_rev),
        row_seen(g, y, 100, x_rev) == count_between(g, Cell::Sand, y * 100, y * 100 + 100),
{
    lemma_count_split(g, Cell::Sand, y * 100, y * 100 + j, y * 100 + 100);
    lemma_count_split(g, Cell::Sand, y * 100, y * 100 + 100 - j, y * 100 + 100);
}

/// Row 79 of `n` holds grains only where `g` has them, or below grains
/// of the neck's row that the sweep has passed.
pub open spec fn row79_ok(g: Seq<Cell>, n: Seq<Cell>, y: int, j: int, x_rev: bool) -> bool {
    forall|x: int|
        0 <= x < 100 && #[trigger] cell_of(n, 79, x) == Cell::Sand ==> cell_of(g, 79, x) == Cell::Sand
            || (y == 80 && cell_of(g, 80, x) == Cell::Sand && pos(x, x_rev) < j)
}

/// Every grain of the neck's row that the sweep has passed lies in row 79
/// of `n`.
pub open spec fn neck_passed(g: Seq<Cell>, n: Seq<Cell>, y: int, j: int, x_rev: bool) -> bool {
    forall|x: int|
        0 <= x < 100 && cell_of(g, 80, x) == Cell::Sand && (y > 80 || (y == 80 && pos(x, x_rev) < j))
            ==> #[trigger] cell_of(n, 79, x) == Cell::Sand
}

/// Moving one grain keeps `row79_ok` and `neck_passed`, where a grain of
/// the neck's row falls straight down.
proof fn lemma_row79_step(
    g: Seq<Cell>,
    n: Seq<Cell>,
    y: int,
    x: int,
    j: int,
    x_rev: bool,
    t: (int, int),
)
    requires
        n.len() == 16000,
        in_bounds(y, x),
        pos(x, x_rev) == j,
        0 <= j < 100,
        cell_of(g, y, x) == Cell::Sand,
        in_bounds(t.0, t.1),
        cell_of(n, t.0, t.1) == Cell::Empty,
        t == (y, x) || (t.0 == y - 1 && abs_diff(t.1, x) <= 1),
        y == 80 ==> t == (79int, x),
        y <= 80 ==> row79_ok(g, n, y, j, x_rev),
        neck_passed(g, n, y, j, x_rev),
    ensures
        y <= 80 ==> row79_ok(g, n.update(idx(t.0, t.1), Cell::Sand), y, j + 1, x_rev),
        neck_passed(g, n.update(idx(t.0, t.1), Cell::Sand), y, j + 1, x_rev),
{
    let n2 = n.update(idx(t.0, t.1), Cell::Sand);
    assert forall|xx: int| 0 <= xx < 100 implies cell_of(n2, 79, xx) == if t == (79int, xx) {
        Cell::Sand
    } else {
        cell_of(n, 79, xx)
    } by {
        if idx(79, xx) == idx(t.0, t.1) {
            lemma_idx_injective(79, xx, t.0, t.1);
        }
    }
    if y <= 80 {
        assert forall|xx: int|
            0 <= xx < 100 && #[trigger] cell_of(n2, 79, xx) == Cell::Sand implies cell_of(g, 79, xx)
            == Cell::Sand || (y == 80 && cell_of(g, 80, xx) == Cell::Sand && pos(xx, x_rev) < j + 1) by {
            if t == (79int, xx) {
            } else {
                assert(cell_of(n, 79, xx) == Cell::Sand);
            }
        }
    }
    assert forall|xx: int|
        0 <= xx < 100 && cell_of(g, 80, xx) == Cell::Sand && (y > 80 || (y == 80 && pos(xx, x_rev)
            < j + 1)) implies #[trigger] cell_of(n2, 79, xx) == Cell::Sand by {
        if y == 80 && pos(xx, x_rev) == j {
            assert(xx == x);
        } else if t != (79int, xx) {
            assert(cell_of(n, 79, xx) == Cell::Sand);
        }
    }
}

/// A grain of the neck's row of a timer whose neck is open for all its
/// grains falls straight down while allowance is left for the grains not
/// yet passed.
proof fn lemma_neck_grain_falls(
    before: App,
    n: Seq<Cell>,
    x: int,
    x_rev: bool,
    j: int,
    a: int,
    spent: int,
)
    requires
        neck_open_for_all(before),
        before.wf(),
        next_ok(before.grid@, n),
        0 <= x < 100,
        pos(x, x_rev) == j,
        0 <= j < 100,
        cell_of(before.grid@, 80, x) == Cell::Sand,
        row79_ok(before.grid@, n, 80, j, x_rev),
        spent == row_seen(before.grid@, 80, j, x_rev),
        a + spent * before.grain_unit() == before.gate_allowance,
        row_seen(before.grid@, 80, j + 1, x_rev) == spent + 1,
    ensures
        a >= before.grain_unit(),
        fall_spec(n, 80, x, before.hole_radius as int, a >= before.grain_unit(), AppState::Running)
            == Some((79int, x)),
{
    let g = before.grid@;
    let u = before.grain_unit();
    let k = neck_grains(g) as int;
    lemma_row_seen_bound(g, 80, j + 1, x_rev);
    assert(spent + 1 <= k);
    assert(before.gate_allowance >= k * u);
    assert(a >= u) by (nonlinear_arith)
        requires
            a + spent * u >= k * u,
            spent + 1 <= k,
            u >= 1,
    ;
    assert(cell_of(g, 79, x) == Cell::Empty);
    assert(cell_of(n, 79, x) != Cell::Sand);
    assert(n[79 * 100 + x] != Cell::Wall);
}

/// The sweep over the first `k` cells reads no draws beyond the first `k`.
proof fn lemma_sweep_prefix(before: App, x_rev: bool, ds: Seq<Draws>, d: Draws, k: nat)
    requires
        k <= ds.len(),
    ensures
        sweep(before, x_rev, ds.push(d), k) == sweep(before, x_rev, ds, k),
    decreases k,
{
    if k > 0 {
        lemma_sweep_prefix(before, x_rev, ds, d, (k - 1) as nat);
        assert(ds.push(d)[k - 1] == ds[k - 1]);
    }
}

/// One draw of chance: its outcome and the chance of a true outcome it was
/// drawn with, `numerator / denominator`.
#[derive(Clone, Copy, PartialEq, Eq, Structural, Debug)]
pub struct Draw {
    pub outcome: bool,
    pub numerator: u32,
    pub denominator: u32,
}

/// The outcome agrees with its chance where the chance is zero or one.
pub open spec fn draw_ok(d: Draw) -> bool {
    &&& 0 < d.denominator
    &&& d.numerator <= d.denominator
    &&& (d.numerator == 0 ==> !d.outcome)
    &&& (d.numerator == d.denominator ==> d.outcome)
}

/// The draws of chance that one grain's move made, in the order drawn:
/// which side it tries first when it slides (right when true), whether it
/// sticks instead of sliding, whether it shakes, and which side it tries
/// first when it shakes. `None` where the move did not draw.
#[derive(Clone, Copy, PartialEq, Eq, Structural, Debug)]
pub struct Draws {
    pub right_first: Option<Draw>,
    pub sticks: Option<Draw>,
    pub shakes: Option<Draw>,
    pub shake_right: Option<Draw>,
}

/// A draw made with chance `numerator / denominator`.
pub fn draw(rng: &mut ThreadRng, numerator: u32, denominator: u32) -> (d: Draw)
    requires
        0 < denominator,
        numerator <= denominator,
    ensures
        d.numerator == numerator,
        d.denominator == denominator,
        draw_ok(d),
{
    let outcome = random_ratio(rng, numerator, denominator);
    Draw { outcome, numerator, denominator }
}

/// The cell `c` lies on the grid and is empty in `g`.
pub open spec fn free(g: Seq<Cell>, c: (int, int)) -> bool {
    in_bounds(c.0, c.1) && cell_of(g, c.0, c.1) == Cell::Empty
}

/// The first cell of `cs` that is free in `g`.
pub open spec fn first_free_spec(g: Seq<Cell>, cs: Seq<(int, int)>) -> Option<(int, int)>
    decreases cs.len(),
{
    if cs.len() == 0 {
        None
    } else if free(g, cs[0]) {
        Some(cs[0])
    } else {
        first_free_spec(g, cs.drop_first())
    }
}

/// The column step towards the side tried first.
pub open spec fn side(right_first: bool) -> int {
    if right_first {
        1
    } else {
        -1
    }
}

/// The two cells diagonally below, the side drawn first.
pub open spec fn slide_cells(y: int, x: int, right_first: bool) -> Seq<(int, int)> {
    seq![(y - 1, x + side(right_first)), (y - 1, x - side(right_first))]
}

/// The two cells beside, the side drawn first.
pub open spec fn shake_cells(y: int, x: int, right_first: bool) -> Seq<(int, int)> {
    seq![(y, x + side(right_first)), (y, x - side(right_first))]
}

/// The nine cells around and at (`y`, `x`), row after row from below, left
/// to right.
pub open spec fn rescue_cells(y: int, x: int) -> Seq<(int, int)> {
    seq![
        (y - 1, x - 1),
        (y - 1, x),
        (y - 1, x + 1),
        (y, x - 1),
        (y, x),
        (y, x + 1),
        (y + 1, x - 1),
        (y + 1, x),
        (y + 1, x + 1),
    ]
}

/// The cell straight below, where the grain may fall into it: it is free,
/// and the grain is not in the neck's opening, or the neck may let a grain
/// through, or the timer has finished.
pub open spec fn fall_spec(next: Seq<Cell>, y: int, x: int, r: int, can_pass: bool, state: AppState) -> Option<
    (int, int),
> {
    if y >= 1 && (!at_gate_spec(y, x, r) || can_pass || state == AppState::Finished) && cell_of(
        next,
        y - 1,
        x,
    ) == Cell::Empty {
        Some((y - 1, x))
    } else {
        None
    }
}

/// The grain slides: it did not fall, it is above the bottom row and out
/// of the neck's opening, it did not stick, and a diagonal cell is free.
pub open spec fn slide_spec(next: Seq<Cell>, y: int, x: int, r: int, can_pass: bool, state: AppState, d: Draws) -> Option<
    (int, int),
> {
    if fall_spec(next, y, x, r, can_pass, state) is None && y >= 1 && !at_gate_spec(y, x, r)
        && (d.sticks matches Some(st) && !st.outcome) && d.right_first is Some {
        first_free_spec(next, slide_cells(y, x, d.right_first.unwrap().outcome))
    } else {
        None
    }
}

/// Where the grain of (`y`, `x`) goes in `next`, given the draws: it
/// falls; else it slides; else it stays where it was if that cell is still
/// free; else, if it shakes, to a free cell beside it; else to the first
/// free cell around it. `None`: it finds no free cell and is lost.
pub open spec fn grain_dest(next: Seq<Cell>, y: int, x: int, r: int, can_pass: bool, state: AppState, d: Draws) -> Option<
    (int, int),
> {
    let fall = fall_spec(next, y, x, r, can_pass, state);
    let slide = slide_spec(next, y, x, r, can_pass, state, d);
    if fall is Some {
        fall
    } else if slide is Some {
        slide
    } else if cell_of(next, y, x) == Cell::Empty {
        Some((y, x))
    } else {
        let shake = if (d.shakes matches Some(sh) && sh.outcome) && d.shake_right is Some {
            first_free_spec(next, shake_cells(y, x, d.shake_right.unwrap().outcome))
        } else {
            None
        };
        if shake is Some {
            shake
        } else {
            first_free_spec(next, rescue_cells(y, x))
        }
    }
}

/// The draws are those that the move makes, and the draw of sticking
/// obeys its chance where the chance is zero or one.
pub open spec fn draws_fit(
    cur: Seq<Cell>,
    next: Seq<Cell>,
    y: int,
    x: int,
    r: int,
    can_pass: bool,
    state: AppState,
    wall_f: int,
    sand_f: int,
    d: Draws,
) -> bool {
    let fell = fall_spec(next, y, x, r, can_pass, state) is Some;
    let slide_drawn = y >= 1 && !fell && !at_gate_spec(y, x, r);
    let slid = slide_spec(next, y, x, r, can_pass, state, d) is Some;
    let chance = stick_chance_spec(adjacent_to_wall_spec(cur, y, x), y > 80, wall_f, sand_f);
    &&& (d.right_first is Some) == slide_drawn
    &&& (d.sticks is Some) == slide_drawn
    &&& (d.shakes is Some) == (!fell && !slid && cell_of(next, y, x) != Cell::Empty)
    &&& (d.shake_right is Some) == (d.shakes matches Some(sh) && sh.outcome)
    &&& (d.right_first matches Some(rf) ==> draw_ok(rf) && rf.numerator == 1 && rf.denominator
        == 2)
    &&& (d.sticks matches Some(st) ==> draw_ok(st) && (st.numerator as int, st.denominator as int)
        == chance)
    &&& (d.shakes matches Some(sh) ==> draw_ok(sh) && (sh.numerator as int, sh.denominator as int)
        == shake_chance_spec(y > 80))
    &&& (d.shake_right matches Some(sr) ==> draw_ok(sr) && sr.numerator == 1 && sr.denominator
        == 2)
}

/// A grain that draws whether it sticks draws with the wall friction when
/// a wall is one of its four side neighbours, and otherwise with the sand
/// friction, halved in the upper bulb.
pub proof fn lemma_stick_draw_friction(
    cur: Seq<Cell>,
    next: Seq<Cell>,
    y: int,
    x: int,
    r: int,
    can_pass: bool,
    state: AppState,
    wall_f: int,
    sand_f: int,
    d: Draws,
)
    requires
        in_bounds(y, x),
        draws_fit(cur, next, y, x, r, can_pass, state, wall_f, sand_f, d),
        d.sticks is Some,
    ensures
        ({
            let st = d.sticks.unwrap();
            let beside_wall = exists|ny: int, nx: int|
                in_bounds(ny, nx) && abs_diff(ny, y) + abs_diff(nx, x) == 1 && #[trigger] cell_of(
                    cur,
                    ny,
                    nx,
                ) == Cell::Wall;
            &&& beside_wall ==> st.numerator == wall_f && st.denominator == 1_000_000
            &&& !beside_wall && y > 80 ==> st.numerator == sand_f && st.denominator == 2_000_000
            &&& !beside_wall && y <= 80 ==> st.numerator == sand_f && st.denominator == 1_000_000
        }),
{
    lemma_adjacent_exact(cur, y, x);
}

/// The candidate cells of a move, as the exec code lists them.
pub open spec fn cells_view(cs: Seq<(i64, i64)>) -> Seq<(int, int)> {
    cs.map_values(|c: (i64, i64)| (c.0 as int, c.1 as int))
}

/// The first cell of `cands` that lies on the grid and is empty in `next`.
pub fn first_free(next: &Grid, cands: &[(i64, i64)]) -> (r: Option<(usize, usize)>)
    requires
        next.wf(),
    ensures
        r matches Some(t) ==> first_free_spec(next@, cells_view(cands@)) == Some(
            (t.0 as int, t.1 as int),
        ),
        r is None ==> first_free_spec(next@, cells_view(cands@)) is None,
{
    let mut i: usize = 0;
    proof {
        assert(cells_view(cands@).skip(0) =~= cells_view(cands@));
    }
    while i < cands.len()
        invariant
            next.wf(),
            i <= cands@.len(),
            first_free_spec(next@, cells_view(cands@)) == first_free_spec(
                next@,
                cells_view(cands@).skip(i as int),
            ),
        decreases cands@.len() - i,
    {
        let (ty, tx) = cands[i];
        proof {
            let v = cells_view(cands@).skip(i as int);
            assert(v[0] == (ty as int, tx as int));
            assert(v.drop_first() == cells_view(cands@).skip(i + 1));
        }
        if 0 <= ty && ty < 160 && 0 <= tx && tx < 100 && next.get(ty as usize, tx as usize)
            == Cell::Empty {
            return Some((ty as usize, tx as usize));
        }
        i = i + 1;
    }
    proof {
        assert(cells_view(cands@).skip(i as int).len() == 0);
    }
    None
}

/// Picks where the grain of `cur` at (`y`, `x`) goes in `next`, as
/// `grain_dest` says for the draws it makes, and gives those draws.
fn pick_dest(
    cur: &Grid,
    next: &Grid,
    rng: &mut ThreadRng,
    y: usize,
    x: usize,
    r: i32,
    can_pass: bool,
    state: AppState,
    wall_f: i64,
    sand_f: i64,
) -> (res: (Option<(usize, usize)>, Draws))
    requires
        cur.wf(),
        next.wf(),
        y < HEIGHT,
        x < WIDTH,
        0 <= wall_f <= 1_000_000,
        0 <= sand_f <= 1_000_000,
    ensures
        ({
            let dest = grain_dest(next@, y as int, x as int, r as int, can_pass, state, res.1);
            &&& (res.0 matches Some(t) ==> dest == Some((t.0 as int, t.1 as int)))
            &&& (res.0 is None ==> dest is None)
        }),
        draws_fit(
            cur@,
            next@,
            y as int,
            x as int,
            r as int,
            can_pass,
            state,
            wall_f as int,
            sand_f as int,
            res.1,
        ),
{
    let yi = y as i64;
    let xi = x as i64;
    let gate = at_gate(y, x, r);
    let mut draws = Draws { right_first: None, sticks: None, shakes: None, shake_right: None };
    if y >= 1 && (!gate || can_pass || state == AppState::Finished) && next.get(y - 1, x)
        == Cell::Empty {
        return (Some((y - 1, x)), draws);
    }
    if y >= 1 && !gate {
        let rf = draw(rng, 1, 2);
        draws.right_first = Some(rf);
        let right_first = rf.outcome;
        let adjacent = adjacent_to_wall(cur, y, x);
        let (num, den) = stick_chance(adjacent, y > 80, wall_f, sand_f);
        let st = draw(rng, num, den);
        draws.sticks = Some(st);
        if !st.outcome {
            let d: i64 = if right_first {
                1
            } else {
                -1
            };
            let cands = [(yi - 1, xi + d), (yi - 1, xi - d)];
            proof {
                assert(cells_view(cands@) =~= slide_cells(y as int, x as int, right_first));
            }
            let slid = first_free(next, &cands);
            if slid.is_some() {
                return (slid, draws);
            }
        }
    }
    if next.get(y, x) == Cell::Empty {
        return (Some((y, x)), draws);
    }
    let (num, den) = shake_chance(y > 80);
    let sh = draw(rng, num, den);
    draws.shakes = Some(sh);
    if sh.outcome {
        let sr = draw(rng, 1, 2);
        draws.shake_right = Some(sr);
        let right_first = sr.outcome;
        let d: i64 = if right_first {
            1
        } else {
            -1
        };
        let cands = [(yi, xi + d), (yi, xi - d)];
        proof {
            assert(cells_view(cands@) =~= shake_cells(y as int, x as int, right_first));
        }
        let shaken = first_free(next, &cands);
        if shaken.is_some() {
            return (shaken, draws);
        }
    }
    let cands = [
        (yi - 1, xi - 1),
        (yi - 1, xi),
        (yi - 1, xi + 1),
        (yi, xi - 1),
        (yi, xi),
        (yi, xi + 1),
        (yi + 1, xi - 1),
        (yi + 1, xi),
        (yi + 1, xi + 1),
    ];
    proof {
        assert(cells_view(cands@) =~= rescue_cells(y as int, x as int));
    }
    (first_free(next, &cands), draws)
}

/// Moves the grain of `cur` at (`y`, `x`) into `next`, as `grain_dest`
/// says for the draws it makes, and gives the cell it went to and those
/// draws. A grain that falls through the neck's opening of a running timer
/// spends one grain of allowance.
pub fn move_grain(
    cur: &Grid,
    next: &mut Grid,
    rng: &mut ThreadRng,
    y: usize,
    x: usize,
    r: i32,
    allowance: &mut u128,
    unit: u128,
    state: AppState,
    wall_f: i64,
    sand_f: i64,
) -> (res: (Option<(usize, usize)>, Draws))
    requires
        cur.wf(),
        next_ok(cur@, old(next)@),
        y < HEIGHT,
        x < WIDTH,
        cell_of(cur@, y as int, x as int) == Cell::Sand,
        0 <= wall_f <= 1_000_000,
        0 <= sand_f <= 1_000_000,
        unit >= 1,
    ensures
        ({
            let dest = grain_dest(
                old(next)@,
                y as int,
                x as int,
                r as int,
                *old(allowance) >= unit,
                state,
                res.1,
            );
            &&& (res.0 matches Some(t) ==> dest == Some((t.0 as int, t.1 as int))
                && final(next)@ == old(next)@.update(idx(t.0 as int, t.1 as int), Cell::Sand))
            &&& (res.0 is None ==> dest is None && final(next)@ == old(next)@)
        }),
        draws_fit(
            cur@,
            old(next)@,
            y as int,
            x as int,
            r as int,
            *old(allowance) >= unit,
            state,
            wall_f as int,
            sand_f as int,
            res.1,
        ),
        *final(allowance) == if fall_spec(
            old(next)@,
            y as int,
            x as int,
            r as int,
            *old(allowance) >= unit,
            state,
        ) is Some && at_gate_spec(y as int, x as int, r as int) && state == AppState::Running {
            *old(allowance) - unit
        } else {
            *old(allowance) as int
        },
        next_ok(cur@, final(next)@),
        sand_count(final(next)@) <= sand_count(old(next)@) + 1,
{
    let ghost n0 = next@;
    let can_pass = *allowance >= unit;
    let gate = at_gate(y, x, r);
    let fell = y >= 1 && (!gate || can_pass || state == AppState::Finished) && next.get(y - 1, x)
        == Cell::Empty;
    let (dest, draws) = pick_dest(cur, next, rng, y, x, r, can_pass, state, wall_f, sand_f);
    if fell && gate && state == AppState::Running {
        *allowance = *allowance - unit;
    }
    match dest {
        Some((ty, tx)) => {
            proof {
                lemma_first_free_near(n0, y as int, x as int, r as int, can_pass, state, draws);
                lemma_place(cur@, n0, ty as int, tx as int, y as int, x as int);
            }
            next.set(ty, tx, Cell::Sand);
        },
        None => {},
    }
    (dest, draws)
}

/// The first free cell of a list of cells next to (`y`, `x`) is free and
/// next to it.
proof fn lemma_first_free_in(g: Seq<Cell>, cs: Seq<(int, int)>, y: int, x: int)
    requires
        forall|k: int| 0 <= k < cs.len() ==> abs_diff(#[trigger] cs[k].0, y) <= 1 && abs_diff(cs[k].1, x) <= 1,
    ensures
        first_free_spec(g, cs) matches Some(c) ==> free(g, c) && abs_diff(c.0, y) <= 1 && abs_diff(c.1, x) <= 1,
    decreases cs.len(),
{
    if cs.len() > 0 {
        assert forall|k: int| 0 <= k < cs.drop_first().len() implies abs_diff(
            #[trigger] cs.drop_first()[k].0,
            y,
        ) <= 1 && abs_diff(cs.drop_first()[k].1, x) <= 1 by {
            assert(cs.drop_first()[k] == cs[k + 1]);
        }
        lemma_first_free_in(g, cs.drop_first(), y, x);
        assert(abs_diff(cs[0].0, y) <= 1);
    }
}

/// Every cell that a grain may go to is free and next to it.
proof fn lemma_first_free_near(
    next: Seq<Cell>,
    y: int,
    x: int,
    r: int,
    can_pass: bool,
    state: AppState,
    d: Draws,
)
    requires
        in_bounds(y, x),
    ensures
        grain_dest(next, y, x, r, can_pass, state, d) matches Some(c) ==> free(next, c)
            && abs_diff(c.0, y) <= 1 && abs_diff(c.1, x) <= 1,
{
    if d.right_first is Some {
        lemma_first_free_in(next, slide_cells(y, x, d.right_first.unwrap().outcome), y, x);
    }
    if d.shake_right is Some {
        lemma_first_free_in(next, shake_cells(y, x, d.shake_right.unwrap().outcome), y, x);
    }
    lemma_first_free_in(next, rescue_cells(y, x), y, x);
}

impl App {
    /// One step of the sand. The grid is read as it was before the step and
    /// a new one is filled: its walls are copied, then every grain, row after
    /// row from the bottom, in a direction across the row that a draw picks,
    /// is moved by `move_grain`. A grain passes the neck's opening only while
    /// a whole grain of gate allowance is left, which it then spends, or once
    /// the timer has finished. A running timer whose upper bulb is empty
    /// afterwards is finished. Since no grain finds its own cell taken, every
    /// grain falls, slides down or stays, and none is lost. Both frictions
    /// must be chances, as the draws with them demand.
    #[verifier::rlimit(80)]
    pub fn step_physics(&mut self)
        requires
            old(self).wf(),
            old(self).frictions_ok(),
        ensures
            step_ok(*old(self), *final(self)),
    {
        let ghost before = *self;
        let mut rng = thread_rng();
        let mut next = walls_of(&self.grid);
        let ghost g = self.grid@;
        let ghost r = self.hole_radius as int;
        let ghost gate_counted = before.state == AppState::Running && neck_intact(g, r);
        let ghost h = neck_open_for_all(before);
        let unit = self.unit();
        let start_allowance = self.gate_allowance;
        let mut allowance = self.gate_allowance;
        let ghost mut spent: nat = 0;
        let ghost mut ds: Seq<Draws> = Seq::empty();
        let ghost none = Draws { right_first: None, sticks: None, shakes: None, shake_right: None };
        let ghost mut pu: nat = 0;
        let ghost mut pl: nat = 0;
        let ghost mut f80: nat = 0;
        let ghost mut f81: nat = 0;
        let xr = draw(&mut rng, 1, 2);
        let x_rev = xr.outcome;
        proof {
            lemma_count_none(next@, Cell::Sand, 0, 8000);
            lemma_count_none(next@, Cell::Sand, 8100, 16000);
        }
        let mut y: usize = 0;
        while y < HEIGHT
            invariant
                x_rev == xr.outcome,
                draw_ok(xr) && xr.numerator == 1 && xr.denominator == 2,
                *self == before,
                before.wf(),
                before.frictions_ok(),
                g == before.grid@,
                r == before.hole_radius,
                gate_counted == (before.state == AppState::Running && neck_intact(g, r)),
                y <= 160,
                next_ok(g, next@),
                next.wf(),
                unvisited_empty(g, next@, y as int, 0, x_rev),
                moves_down(g, next@),
                sand_count(next@) == count_between(g, Cell::Sand, 0, y * 100),
                lower_count(next@) == pl + f80,
                source_count(next@) + f81 == pu,
                pu == if y >= 81 {
                    count_between(g, Cell::Sand, 8100, y * 100)
                } else {
                    0
                },
                pl == if y < 80 {
                    count_between(g, Cell::Sand, 0, y * 100)
                } else {
                    count_between(g, Cell::Sand, 0, 8000)
                },
                gate_counted ==> f80 == spent,
                h == neck_open_for_all(before),
                h && y <= 80 ==> row79_ok(g, next@, y as int, 0, x_rev),
                h ==> neck_passed(g, next@, y as int, 0, x_rev),
                h ==> spent == if y <= 80 {
                    0
                } else {
                    neck_grains(g)
                },
                unit == before.grain_unit(),
                unit >= 1,
                allowance + spent * unit == start_allowance,
                start_allowance == before.gate_allowance,
                before.state != AppState::Running ==> allowance == start_allowance,
                ds.len() == y * 100,
                sweep(before, x_rev, ds, ds.len()) == (next@, allowance as int),
                sweep_draws_fit(before, x_rev, ds, ds.len()),
            decreases 160 - y,
        {
            let mut j: usize = 0;
            while j < WIDTH
                invariant
                    *self == before,
                    before.wf(),
                    before.frictions_ok(),
                    g == before.grid@,
                    r == before.hole_radius,
                    gate_counted == (before.state == AppState::Running && neck_intact(g, r)),
                    y < 160,
                    j <= 100,
                    next_ok(g, next@),
                    next.wf(),
                    unvisited_empty(g, next@, y as int, j as int, x_rev),
                    moves_down(g, next@),
                    sand_count(next@) == count_between(g, Cell::Sand, 0, y * 100) + row_seen(
                        g,
                        y as int,
                        j as int,
                        x_rev,
                    ),
                    lower_count(next@) == pl + f80,
                    source_count(next@) + f81 == pu,
                    pu == if y >= 81 {
                        count_between(g, Cell::Sand, 8100, y * 100) + row_seen(
                            g,
                            y as int,
                            j as int,
                            x_rev,
                        )
                    } else {
                        0
                    },
                    pl == if y < 80 {
                        count_between(g, Cell::Sand, 0, y * 100) + row_seen(
                            g,
                            y as int,
                            j as int,
                            x_rev,
                        )
                    } else {
                        count_between(g, Cell::Sand, 0, 8000)
                    },
                    gate_counted ==> f80 == spent,
                    h == neck_open_for_all(before),
                    h && y <= 80 ==> row79_ok(g, next@, y as int, j as int, x_rev),
                    h ==> neck_passed(g, next@, y as int, j as int, x_rev),
                    h ==> spent == if y < 80 {
                        0
                    } else if y == 80 {
                        row_seen(g, 80, j as int, x_rev)
                    } else {
                        neck_grains(g)
                    },
                    unit == before.grain_unit(),
                    unit >= 1,
                    allowance + spent * unit == start_allowance,
                    start_allowance == before.gate_allowance,
                    before.state != AppState::Running ==> allowance == start_allowance,
                    ds.len() == y * 100 + j,
                    sweep(before, x_rev, ds, ds.len()) == (next@, allowance as int),
                    sweep_draws_fit(before, x_rev, ds, ds.len()),
                decreases 100 - j,
            {
                let x = if x_rev {
                    WIDTH - 1 - j
                } else {
                    j
                };
                let ghost kk = ds.len();
                let ghost ds0 = ds;
                let ghost n0 = next@;
                let ghost seen0 = row_seen(g, y as int, j as int, x_rev);
                proof {
                    vstd::arithmetic::div_mod::lemma_fundamental_div_mod_converse(
                        kk as int,
                        100,
                        y as int,
                        j as int,
                    );
                    assert(visit(kk as int, x_rev) == (y as int, x as int));
                    if x_rev {
                        lemma_count_extend_low(g, Cell::Sand, y * 100 + x, y * 100 + 100);
                    }
                    assert(row_seen(g, y as int, j + 1, x_rev) == seen0 + if cell_of(
                        g,
                        y as int,
                        x as int,
                    ) == Cell::Sand {
                        1nat
                    } else {
                        0nat
                    });
                }
                if self.grid.get(y, x) == Cell::Sand {
                    let ghost a0 = allowance;
                    proof {
                        assert(cell_of(n0, y as int, x as int) == Cell::Empty);
                    }
                    let (dest, draws) = move_grain(
                        &self.grid,
                        &mut next,
                        &mut rng,
                        y,
                        x,
                        self.hole_radius,
                        &mut allowance,
                        unit,
                        self.state,
                        self.wall_friction,
                        self.sand_friction,
                    );
                    proof {
                        if h && y == 80 {
                            lemma_neck_grain_falls(before, n0, x as int, x_rev, j as int, a0 as int, spent as int);
                        }
                        lemma_dest_shape(n0, y as int, x as int, r, a0 >= unit, before.state, draws);
                        let t = grain_dest(n0, y as int, x as int, r, a0 >= unit, before.state, draws).unwrap();
                        if h {
                            lemma_row79_step(g, n0, y as int, x as int, j as int, x_rev, t);
                        }
                        assert(next@ == n0.update(idx(t.0, t.1), Cell::Sand));
                        lemma_place_counts(n0, t.0, t.1);
                        lemma_sweep_place(g, n0, y as int, x as int, j as int, x_rev, t);
                        if y >= 81 {
                            pu = pu + 1;
                        }
                        if y < 80 {
                            pl = pl + 1;
                        }
                        if y == 80 && t.0 == 79 {
                            f80 = f80 + 1;
                        }
                        if y == 81 && t.0 == 80 {
                            f81 = f81 + 1;
                        }
                        if gate_counted && y == 80 {
                            assert(cell_of(g, 80, x as int) != Cell::Wall);
                            assert(at_gate_spec(80, x as int, r));
                        }
                        if allowance != a0 {
                            assert((spent + 1) * unit == spent * unit + unit) by (nonlinear_arith);
                            spent = spent + 1;
                        }
                        ds = ds0.push(draws);
                    }
                } else {
                    proof {
                        ds = ds0.push(none);
                        assert(unvisited_empty(g, next@, y as int, j + 1, x_rev));
                        if h {
                            assert(neck_passed(g, next@, y as int, j + 1, x_rev));
                            if y <= 80 {
                                assert(row79_ok(g, next@, y as int, j + 1, x_rev));
                            }
                        }
                    }
                }
                proof {
                    let d = ds[kk as int];
                    lemma_sweep_prefix(before, x_rev, ds0, d, kk);
                    assert forall|i: nat|
                        i < ds.len() && cell_of(
                            before.grid@,
                            visit(i as int, x_rev).0,
                            visit(i as int, x_rev).1,
                        ) == Cell::Sand implies #[trigger] draws_fit_at(before, x_rev, ds, i) by {
                        if i < kk {
                            lemma_sweep_prefix(before, x_rev, ds0, d, i);
                            assert(draws_fit_at(before, x_rev, ds0, i));
                            assert(ds[i as int] == ds0[i as int]);
                        }
                    }
                }
                j = j + 1;
            }
            proof {
                lemma_count_split(g, Cell::Sand, 0, y * 100, y * 100 + 100);
                if y >= 81 {
                    lemma_count_split(g, Cell::Sand, 8100, y * 100, y * 100 + 100);
                }
                assert(row_seen(g, y as int, 100, x_rev) == count_between(
                    g,
                    Cell::Sand,
                    y * 100,
                    y * 100 + 100,
                ));
                if h {
                    lemma_row_seen_bound(g, y as int, 100, x_rev);
                    assert(neck_passed(g, next@, y + 1, 0, x_rev));
                    if y + 1 <= 80 {
                        assert(row79_ok(g, next@, y + 1, 0, x_rev));
                    }
                }
            }
            y = y + 1;
        }
        self.grid = next;
        self.gate_allowance = allowance;
        proof {
            vstd::arithmetic::div_mod::lemma_mod_multiples_basic(spent as int, unit as int);
            assert(start_allowance - allowance == spent * unit);
            assert(spent * unit == unit * spent) by (nonlinear_arith);
            vstd::arithmetic::div_mod::lemma_div_multiples_vanish(spent as int, unit as int);
            assert(sweep(before, xr.outcome, ds, 16000) == (self.grid@, self.gate_allowance as int));
            assert(sweep_draws_fit(before, xr.outcome, ds, 16000));
            if h {
                assert(neck_passed(g, self.grid@, 160, 0, x_rev));
                assert(spent == neck_grains(g));
            }
            lemma_count_bound(g, Cell::Sand, 8100, 16000);
        }
        if self.state == AppState::Running && self.initial_sand > 0 && self.grid.source_sand() == 0 {
            self.state = AppState::Finished;
        }
    }
}

} // verus!

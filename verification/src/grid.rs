//! The grid of cells and the hourglass that is drawn on it.

use vstd::prelude::*;

verus! {

/// Number of columns.
pub const WIDTH: usize = 100;

/// Number of rows. Row 0 is the bottom of the glass.
pub const HEIGHT: usize = 160;

/// Number of cells.
pub const CELLS: usize = 16000;

/// Column of the glass's axis.
pub const CENTER_X: usize = 50;

/// Row of the neck between the two bulbs.
pub const CENTER_Y: usize = 80;

/// What a cell holds.
#[derive(Clone, Copy, PartialEq, Eq, Structural, Debug)]
pub enum Cell {
    Empty,
    Sand,
    Wall,
}

/// The cells of the glass, row after row from the bottom.
pub struct Grid {
    pub cells: Vec<Cell>,
}

impl View for Grid {
    type V = Seq<Cell>;

    open spec fn view(&self) -> Seq<Cell> {
        self.cells@
    }
}

impl Grid {
    /// The grid has exactly one cell for every row and column.
    pub open spec fn wf(&self) -> bool {
        self.cells@.len() == 16000
    }

    /// A grid of empty cells.
    pub fn empty() -> (g: Grid)
        ensures
            g.wf(),
            forall|i: int| 0 <= i < 16000 ==> g@[i] == Cell::Empty,
    {
        let mut cells: Vec<Cell> = Vec::new();
        while cells.len() < CELLS
            invariant
                cells@.len() <= 16000,
                forall|i: int| 0 <= i < cells@.len() ==> cells@[i] == Cell::Empty,
            decreases 16000 - cells@.len(),
        {
            cells.push(Cell::Empty);
        }
        Grid { cells }
    }

    /// The cell in row `y`, column `x`.
    pub fn get(&self, y: usize, x: usize) -> (c: Cell)
        requires
            self.wf(),
            y < HEIGHT,
            x < WIDTH,
        ensures
            c == cell_of(self@, y as int, x as int),
    {
        self.cells[y * WIDTH + x]
    }

    /// Puts `c` in row `y`, column `x`; every other cell keeps its content.
    pub fn set(&mut self, y: usize, x: usize, c: Cell)
        requires
            old(self).wf(),
            y < HEIGHT,
            x < WIDTH,
        ensures
            final(self).wf(),
            final(self)@ == old(self)@.update(idx(y as int, x as int), c),
    {
        self.cells.set(y * WIDTH + x, c);
    }

    /// The cells of kind `k`, as (column, row) pairs, row after row from the
    /// bottom and from left to right within a row.
    pub fn points_of(&self, k: Cell) -> (pts: Vec<(usize, usize)>)
        requires
            self.wf(),
        ensures
            pts@ == points_upto(self@, k, 16000),
            forall|y: int, x: int|
                #![trigger pts@.contains((x as usize, y as usize))]
                in_bounds(y, x) ==> (pts@.contains((x as usize, y as usize)) <==> cell_of(
                    self@,
                    y,
                    x,
                ) == k),
            forall|i: int|
                0 <= i < pts@.len() ==> in_bounds(#[trigger] pts@[i].1 as int, pts@[i].0 as int)
                    && cell_of(self@, pts@[i].1 as int, pts@[i].0 as int) == k,
            pts@.no_duplicates(),
    {
        proof {
            lemma_points_exact(self@, k, 16000);
        }
        let mut pts: Vec<(usize, usize)> = Vec::new();
        let mut y: usize = 0;
        while y < HEIGHT
            invariant
                y <= 160,
                self.wf(),
                pts@ == points_upto(self@, k, y * 100),
            decreases 160 - y,
        {
            let mut x: usize = 0;
            while x < WIDTH
                invariant
                    y < 160,
                    x <= 100,
                    self.wf(),
                    pts@ == points_upto(self@, k, y * 100 + x),
                decreases 100 - x,
            {
                proof {
                    vstd::arithmetic::div_mod::lemma_fundamental_div_mod_converse(
                        y * 100 + x,
                        100,
                        y as int,
                        x as int,
                    );
                }
                if self.get(y, x) == k {
                    pts.push((x, y));
                }
                x = x + 1;
            }
            y = y + 1;
        }
        pts
    }

    /// Number of grains in the upper bulb, the rows above the neck.
    pub fn source_sand(&self) -> (n: usize)
        requires
            self.wf(),
        ensures
            n == source_count(self@),
    {
        let mut n: usize = 0;
        let mut i: usize = 8100;
        while i < CELLS
            invariant
                8100 <= i <= 16000,
                self.wf(),
                n == count_between(self@, Cell::Sand, 8100, i as int),
                n <= i - 8100,
            decreases 16000 - i,
        {
            if self.cells[i] == Cell::Sand {
                n = n + 1;
            }
            i = i + 1;
        }
        n
    }
}

/// The cells of kind `k` among the first `n` flat indices, as
/// (column, row) pairs in index order.
pub open spec fn points_upto(g: Seq<Cell>, k: Cell, n: int) -> Seq<(usize, usize)>
    decreases n,
{
    if n <= 0 {
        Seq::empty()
    } else if g[n - 1] == k {
        points_upto(g, k, n - 1).push((((n - 1) % 100) as usize, ((n - 1) / 100) as usize))
    } else {
        points_upto(g, k, n - 1)
    }
}

/// The list of cells of kind `k` is exact: it holds (`x`, `y`) exactly when
/// the cell in row `y`, column `x` is of kind `k` (among the first `n`
/// cells), each once, and nothing else.
pub proof fn lemma_points_exact(g: Seq<Cell>, k: Cell, n: int)
    requires
        g.len() == 16000,
        0 <= n <= 16000,
    ensures
        forall|y: int, x: int|
            #![trigger points_upto(g, k, n).contains((x as usize, y as usize))]
            in_bounds(y, x) ==> (points_upto(g, k, n).contains((x as usize, y as usize)) <==> (
            y * 100 + x < n && cell_of(g, y, x) == k)),
        forall|i: int|
            0 <= i < points_upto(g, k, n).len() ==> {
                let p = #[trigger] points_upto(g, k, n)[i];
                &&& in_bounds(p.1 as int, p.0 as int)
                &&& p.1 * 100 + p.0 < n
                &&& cell_of(g, p.1 as int, p.0 as int) == k
            },
        points_upto(g, k, n).no_duplicates(),
    decreases n,
{
    if n > 0 {
        lemma_points_exact(g, k, n - 1);
        let prev = points_upto(g, k, n - 1);
        let m = n - 1;
        let q = m / 100;
        let r = m % 100;
        vstd::arithmetic::div_mod::lemma_fundamental_div_mod(m, 100);
        assert(0 <= r < 100);
        assert(m == q * 100 + r);
        assert(0 <= q < 160);
        let c = (r as usize, q as usize);
        assert forall|y: int, x: int| in_bounds(y, x) && y * 100 + x == m implies y == q && x == r by {
            vstd::arithmetic::div_mod::lemma_fundamental_div_mod_converse(m, 100, y, x);
        }
        if g[m] == k {
            let cur = prev.push(c);
            assert(points_upto(g, k, n) == cur);
            assert forall|y: int, x: int| in_bounds(y, x) implies (cur.contains(
                (x as usize, y as usize),
            ) <==> (y * 100 + x < n && cell_of(g, y, x) == k)) by {
                if cur.contains((x as usize, y as usize)) {
                    let j = choose|j: int| 0 <= j < cur.len() && cur[j] == (x as usize, y as usize);
                    if j < prev.len() {
                        assert(prev[j] == cur[j]);
                        assert(prev.contains((x as usize, y as usize)));
                    }
                }
                if y * 100 + x == m {
                    assert(cur[cur.len() - 1] == (x as usize, y as usize));
                } else if y * 100 + x < n && cell_of(g, y, x) == k {
                    assert(prev.contains((x as usize, y as usize)));
                    let j = choose|j: int| 0 <= j < prev.len() && prev[j] == (x as usize, y as usize);
                    assert(cur[j] == prev[j]);
                }
            }
            assert forall|i: int| 0 <= i < cur.len() implies {
                let p = #[trigger] cur[i];
                &&& in_bounds(p.1 as int, p.0 as int)
                &&& p.1 * 100 + p.0 < n
                &&& cell_of(g, p.1 as int, p.0 as int) == k
            } by {
                if i < prev.len() {
                    assert(cur[i] == prev[i]);
                }
            }
            assert forall|i: int, j: int| 0 <= i < cur.len() && 0 <= j < cur.len() && i != j implies cur[i]
                != cur[j] by {
                if i < prev.len() && j < prev.len() {
                    assert(cur[i] == prev[i] && cur[j] == prev[j]);
                } else if i < prev.len() {
                    assert(cur[i] == prev[i]);
                    let p = prev[i];
                    assert(p.1 * 100 + p.0 < m);
                } else if j < prev.len() {
                    assert(cur[j] == prev[j]);
                    let p = prev[j];
                    assert(p.1 * 100 + p.0 < m);
                }
            }
        } else {
            assert(points_upto(g, k, n) == prev);
            assert forall|y: int, x: int| in_bounds(y, x) implies (prev.contains(
                (x as usize, y as usize),
            ) <==> (y * 100 + x < n && cell_of(g, y, x) == k)) by {
                if y * 100 + x == m {
                    if prev.contains((x as usize, y as usize)) {
                        let j = choose|j: int| 0 <= j < prev.len() && prev[j] == (x as usize, y as usize);
                        assert(prev[j] == (x as usize, y as usize));
                    }
                }
            }
        }
    }
}

/// Flat index of the cell in row `y`, column `x`.
pub open spec fn idx(y: int, x: int) -> int {
    y * 100 + x
}

pub open spec fn in_bounds(y: int, x: int) -> bool {
    0 <= y < 160 && 0 <= x < 100
}

/// The cell in row `y`, column `x` of a flat grid.
pub open spec fn cell_of(g: Seq<Cell>, y: int, x: int) -> Cell {
    g[y * 100 + x]
}

/// Number of cells of kind `k` among the flat indices `lo..hi`.
pub open spec fn count_between(s: Seq<Cell>, k: Cell, lo: int, hi: int) -> nat
    decreases hi - lo,
{
    if hi <= lo {
        0
    } else {
        count_between(s, k, lo, hi - 1) + if s[hi - 1] == k {
            1nat
        } else {
            0nat
        }
    }
}

/// Number of grains on the whole grid.
pub open spec fn sand_count(s: Seq<Cell>) -> nat {
    count_between(s, Cell::Sand, 0, 16000)
}

/// Number of grains in the upper bulb: the rows above the neck.
pub open spec fn source_count(s: Seq<Cell>) -> nat {
    count_between(s, Cell::Sand, 8100, 16000)
}

/// Two cells whose flat indices agree are the same cell.
pub proof fn lemma_idx_injective(y1: int, x1: int, y2: int, x2: int)
    requires
        in_bounds(y1, x1),
        in_bounds(y2, x2),
        idx(y1, x1) == idx(y2, x2),
    ensures
        y1 == y2,
        x1 == x2,
{
}

pub proof fn lemma_count_split(s: Seq<Cell>, k: Cell, lo: int, mid: int, hi: int)
    requires
        lo <= mid <= hi,
    ensures
        count_between(s, k, lo, hi) == count_between(s, k, lo, mid) + count_between(s, k, mid, hi),
    decreases hi - mid,
{
    if hi > mid {
        lemma_count_split(s, k, lo, mid, hi - 1);
    }
}

pub proof fn lemma_count_bound(s: Seq<Cell>, k: Cell, lo: int, hi: int)
    requires
        lo <= hi,
    ensures
        count_between(s, k, lo, hi) <= hi - lo,
    decreases hi - lo,
{
    if hi > lo {
        lemma_count_bound(s, k, lo, hi - 1);
    }
}

/// Extending a range by one cell at its lower end.
pub proof fn lemma_count_extend_low(s: Seq<Cell>, k: Cell, lo: int, hi: int)
    requires
        lo < hi,
    ensures
        count_between(s, k, lo, hi) == count_between(s, k, lo + 1, hi) + if s[lo] == k {
            1nat
        } else {
            0nat
        },
{
    lemma_count_split(s, k, lo, lo + 1, hi);
    assert(count_between(s, k, lo, lo) == 0);
}

/// Two sequences that agree on `lo..hi` have the same count there.
pub proof fn lemma_count_same(s: Seq<Cell>, t: Seq<Cell>, k: Cell, lo: int, hi: int)
    requires
        forall|i: int| lo <= i < hi ==> s[i] == t[i],
    ensures
        count_between(s, k, lo, hi) == count_between(t, k, lo, hi),
    decreases hi - lo,
{
    if hi > lo {
        lemma_count_same(s, t, k, lo, hi - 1);
    }
}

/// A sequence that has kind `k` wherever `s` has it counts at least as
/// many.
pub proof fn lemma_count_mono(s: Seq<Cell>, t: Seq<Cell>, k: Cell, lo: int, hi: int)
    requires
        forall|i: int| lo <= i < hi && s[i] == k ==> t[i] == k,
    ensures
        count_between(s, k, lo, hi) <= count_between(t, k, lo, hi),
    decreases hi - lo,
{
    if hi > lo {
        lemma_count_mono(s, t, k, lo, hi - 1);
    }
}

/// A range that holds no cell of kind `k` counts zero.
pub proof fn lemma_count_none(s: Seq<Cell>, k: Cell, lo: int, hi: int)
    requires
        forall|i: int| lo <= i < hi ==> s[i] != k,
    ensures
        count_between(s, k, lo, hi) == 0,
    decreases hi - lo,
{
    if hi > lo {
        lemma_count_none(s, k, lo, hi - 1);
    }
}

/// Turning one cell of another kind into kind `k` adds one to every range
/// that holds it.
pub proof fn lemma_count_update_gain(s: Seq<Cell>, k: Cell, i: int, lo: int, hi: int)
    requires
        0 <= i < s.len(),
        s[i] != k,
        0 <= lo <= i < hi <= s.len(),
    ensures
        count_between(s.update(i, k), k, lo, hi) == count_between(s, k, lo, hi) + 1,
    decreases hi - lo,
{
    let t = s.update(i, k);
    if hi - 1 == i {
        assert forall|j: int| lo <= j < i implies s[j] == t[j] by {}
        lemma_count_same(s, t, k, lo, i);
    } else {
        lemma_count_update_gain(s, k, i, lo, hi - 1);
    }
}

} // verus!

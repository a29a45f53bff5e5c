//! Properties of the timer that span several functions or every input.

use vstd::prelude::*;
use crate::grid::{Cell, cell_of, in_bounds, sand_count, source_count,
    lemma_count_split, lemma_count_none, lemma_count_mono};
use crate::layout::{capacity, ceil_div, hole_radius_spec, layout_cell, total_seconds_spec};
use crate::settings::{Hms, up_spec, down_spec, digit_spec};
use crate::timer::{App, AppState, update_spec, CATCH_UP_LIMIT_NS};
use crate::physics::{step_ok, neck_intact, at_gate_spec, lower_count, neck_open_for_all, neck_grains};
use crate::settings::{Key, KeyAction, key_effect};

verus! {

/// A freshly set timer holds all its sand in the upper bulb: the grains
/// above the neck are exactly the grains poured in.
pub proof fn lemma_fresh_sand_all_above(a: App, h: u32, m: u32, s: u32, wf: i64, sf: i64, t: bool, sel: usize)
    requires
        a.is_fresh(h, m, s, wf, sf, t, sel),
    ensures
        source_count(a.grid@) == a.initial_sand,
{
    let g = a.grid@;
    assert forall|i: int| 0 <= i < 8100 implies g[i] != Cell::Sand by {
        let y = i / 100;
        let x = i % 100;
        assert(in_bounds(y, x));
        assert(i == y * 100 + x);
        assert(cell_of(g, y, x) == layout_cell(a.hole_radius as int, y, x));
    }
    lemma_count_none(g, Cell::Sand, 0, 8100);
    lemma_count_split(g, Cell::Sand, 0, 8100, 16000);
}

/// A freshly set glass is its own mirror image about the axis: columns
/// `50 - d` and `50 + d` hold the same, for every row, up to 47 columns out
/// (column 98 is part of the frame while column 2 is not).
pub proof fn lemma_fresh_glass_symmetric(a: App, h: u32, m: u32, s: u32, wf: i64, sf: i64, t: bool, sel: usize, y: int, d: int)
    requires
        a.is_fresh(h, m, s, wf, sf, t, sel),
        0 <= y < 160,
        0 <= d <= 47,
    ensures
        cell_of(a.grid@, y, 50 - d) == cell_of(a.grid@, y, 50 + d),
{
    assert(cell_of(a.grid@, y, 50 - d) == layout_cell(a.hole_radius as int, y, 50 - d));
    assert(cell_of(a.grid@, y, 50 + d) == layout_cell(a.hole_radius as int, y, 50 + d));
}

/// A longer timer never gets a wider neck.
pub proof fn lemma_longer_timer_narrower_neck(t1: int, t2: int)
    requires
        1 <= t1 <= t2,
    ensures
        0 <= hole_radius_spec(t2) <= hole_radius_spec(t1),
{
    let c = capacity() as int;
    let d1 = 30 * t1;
    let d2 = 30 * t2;
    let q1 = ceil_div(c, d1);
    let q2 = ceil_div(c, d2);
    assert(q2 <= q1) by (nonlinear_arith)
        requires
            q1 == (c + d1 - 1) / d1,
            q2 == (c + d2 - 1) / d2,
            c >= 0,
            30 <= d1 <= d2,
    {
        // q1 * d1 >= c, so q1 * d2 >= c, so (c + d2 - 1) / d2 <= q1.
        assert(q1 * d1 + (c + d1 - 1) % d1 == c + d1 - 1);
        assert(q1 * d1 >= c);
        assert(q1 >= 0);
        assert(q1 * d2 >= q1 * d1);
        assert(c + d2 - 1 < (q1 + 1) * d2);
    }
    assert(q2 >= 0) by (nonlinear_arith)
        requires
            q2 == (c + d2 - 1) / d2,
            c >= 0,
            d2 >= 30,
    ;
}

/// Only the timer's length shapes a freshly set glass: two timers of the
/// same length, whatever their frictions, clock format or selection, hold
/// the same glass, sand and neck.
pub proof fn lemma_glass_depends_on_length_only(
    a: App, h1: u32, m1: u32, s1: u32, w1: i64, f1: i64, t1: bool, e1: usize,
    b: App, h2: u32, m2: u32, s2: u32, w2: i64, f2: i64, t2: bool, e2: usize,
)
    requires
        a.is_fresh(h1, m1, s1, w1, f1, t1, e1),
        b.is_fresh(h2, m2, s2, w2, f2, t2, e2),
        total_seconds_spec(h1 as int, m1 as int, s1 as int) == total_seconds_spec(h2 as int, m2 as int, s2 as int),
    ensures
        a.hole_radius == b.hole_radius,
        a.grid@ == b.grid@,
        a.initial_sand == b.initial_sand,
{
    assert forall|i: int| 0 <= i < 16000 implies a.grid@[i] == b.grid@[i] by {
        let y = i / 100;
        let x = i % 100;
        assert(in_bounds(y, x));
        assert(i == y * 100 + x);
        assert(cell_of(a.grid@, y, x) == layout_cell(a.hole_radius as int, y, x));
        assert(cell_of(b.grid@, y, x) == layout_cell(b.hole_radius as int, y, x));
    }
    assert(a.grid@ =~= b.grid@);
}

/// A longer timer never holds more sand.
pub proof fn lemma_longer_timer_less_sand(
    a: App, h1: u32, m1: u32, s1: u32, w1: i64, f1: i64, t1: bool, e1: usize,
    b: App, h2: u32, m2: u32, s2: u32, w2: i64, f2: i64, t2: bool, e2: usize,
)
    requires
        a.is_fresh(h1, m1, s1, w1, f1, t1, e1),
        b.is_fresh(h2, m2, s2, w2, f2, t2, e2),
        total_seconds_spec(h1 as int, m1 as int, s1 as int) <= total_seconds_spec(h2 as int, m2 as int, s2 as int),
    ensures
        a.hole_radius >= b.hole_radius,
        a.initial_sand >= b.initial_sand,
{
    lemma_longer_timer_narrower_neck(
        total_seconds_spec(h1 as int, m1 as int, s1 as int),
        total_seconds_spec(h2 as int, m2 as int, s2 as int),
    );
    assert forall|i: int| 0 <= i < 16000 && b.grid@[i] == Cell::Sand implies a.grid@[i] == Cell::Sand by {
        let y = i / 100;
        let x = i % 100;
        assert(in_bounds(y, x));
        assert(i == y * 100 + x);
        assert(cell_of(a.grid@, y, x) == layout_cell(a.hole_radius as int, y, x));
        assert(cell_of(b.grid@, y, x) == layout_cell(b.hole_radius as int, y, x));
    }
    lemma_count_mono(b.grid@, a.grid@, Cell::Sand, 0, 16000);
}

/// The timer's length in seconds.
pub open spec fn seconds_of(t: (int, int, int)) -> int {
    t.0 * 3600 + t.1 * 60 + t.2
}

/// The down key undoes the up key on the same field, where minutes and
/// seconds are at most 59.
pub proof fn lemma_down_undoes_up(t: Hms, unit: int)
    requires
        t.0 < u32::MAX,
        t.1 <= 59,
        t.2 <= 59,
        0 <= unit < 3,
    ensures
        ({
            let u = up_spec(t, unit);
            down_spec((u.0 as u32, u.1 as u32, u.2 as u32), unit) == (t.0 as int, t.1 as int, t.2 as int)
        }),
{
}

/// The up key adds an hour, a minute or a second to the timer's length,
/// as field 0, 1 or 2 is selected, where minutes and seconds are at most 59.
pub proof fn lemma_up_adds_one_unit(t: Hms, unit: int)
    requires
        t.1 <= 59,
        t.2 <= 59,
        0 <= unit < 3,
    ensures
        seconds_of(up_spec(t, unit)) == seconds_of((t.0 as int, t.1 as int, t.2 as int)) + if unit
            == 0 {
            3600int
        } else if unit == 1 {
            60int
        } else {
            1int
        },
{
}

/// The down key takes a second off the seconds field's timer unless the
/// minutes and seconds are both zero, in which case nothing changes.
pub proof fn lemma_down_seconds(t: Hms)
    ensures
        seconds_of(down_spec(t, 2)) == if t.1 == 0 && t.2 == 0 {
            seconds_of((t.0 as int, t.1 as int, t.2 as int))
        } else {
            seconds_of((t.0 as int, t.1 as int, t.2 as int)) - 1
        },
{
}

/// The down key never lengthens the timer: on hours it takes an hour off
/// where there is one, on minutes a minute where there is a minute or an
/// hour to take it from, and otherwise leaves the length as it was.
pub proof fn lemma_down_never_lengthens(t: Hms, unit: int)
    requires
        0 <= unit < 3,
    ensures
        seconds_of(down_spec(t, unit)) <= seconds_of((t.0 as int, t.1 as int, t.2 as int)),
        unit == 0 ==> seconds_of(down_spec(t, unit)) == seconds_of((t.0 as int, t.1 as int, t.2 as int))
            - if t.0 > 0 {
            3600int
        } else {
            0int
        },
        unit == 1 ==> seconds_of(down_spec(t, unit)) == seconds_of((t.0 as int, t.1 as int, t.2 as int))
            - if t.0 > 0 || t.1 > 0 {
            60int
        } else {
            0int
        },
        down_spec(t, unit).0 >= 0 && down_spec(t, unit).1 >= 0 && down_spec(t, unit).2 >= 0,
{
}

/// Typing a digit leaves hours below 100 and minutes or seconds at most 59
/// in the field it edits.
pub proof fn lemma_digit_in_range(t: Hms, unit: int, d: int)
    requires
        0 <= d <= 9,
        0 <= unit < 3,
    ensures
        unit == 0 ==> 0 <= digit_spec(t, unit, d).0 < 100,
        unit == 1 ==> 0 <= digit_spec(t, unit, d).1 <= 59,
        unit == 2 ==> 0 <= digit_spec(t, unit, d).2 <= 59,
{
}

/// Typing two digits into an empty minutes or seconds field gives their
/// two-digit number where it is at most 59.
pub proof fn lemma_two_digits_typed(t: Hms, unit: int, d1: int, d2: int)
    requires
        unit == 1 ==> t.1 == 0,
        unit == 2 ==> t.2 == 0,
        unit == 1 || unit == 2,
        0 <= d1 <= 9,
        0 <= d2 <= 9,
        d1 * 10 + d2 <= 59,
    ensures
        ({
            let u = digit_spec(t, unit, d1);
            let v = digit_spec((u.0 as u32, u.1 as u32, u.2 as u32), unit, d2);
            if unit == 1 {
                v.1 == d1 * 10 + d2
            } else {
                v.2 == d1 * 10 + d2
            }
        }),
{
}

/// After the clock of an active timer moves on, at most 50 ms are owed to
/// the sand.
pub proof fn lemma_owed_time_bounded(before: App, delta: u128, after: App)
    requires
        before.physics_accumulator <= CATCH_UP_LIMIT_NS,
        update_spec(before, delta, after),
    ensures
        after.physics_accumulator <= CATCH_UP_LIMIT_NS,
{
}

/// No update of the clock adds sand, moves a wall, or revives a finished
/// timer.
pub proof fn lemma_update_keeps_glass(before: App, delta: u128, after: App)
    requires
        update_spec(before, delta, after),
        before.grid.wf(),
    ensures
        sand_count(after.grid@) <= sand_count(before.grid@),
        forall|i: int|
            0 <= i < 16000 ==> (#[trigger] after.grid@[i] == Cell::Wall) == (before.grid@[i]
                == Cell::Wall),
        before.state == AppState::Finished ==> after.state == AppState::Finished,
        before.state != AppState::Running ==> after.gate_allowance == before.gate_allowance,
        before.state != AppState::Running ==> after.elapsed == before.elapsed,
{
}

/// The right key undoes the left key.
pub proof fn lemma_right_undoes_left(a: App, b: App, c: App, act1: KeyAction, act2: KeyAction)
    requires
        a.wf(),
        a.state == AppState::Setting,
        key_effect(a, Key::Left, b, act1),
        key_effect(b, Key::Right, c, act2),
    ensures
        c == a,
        act1 == KeyAction::Nothing,
        act2 == KeyAction::Nothing,
{
}

/// Three presses of the right key come back to the field they started on.
pub proof fn lemma_right_cycles(a: App, b: App, c: App, d: App, x: KeyAction, y: KeyAction, z: KeyAction)
    requires
        a.wf(),
        a.state == AppState::Setting,
        key_effect(a, Key::Right, b, x),
        key_effect(b, Key::Right, c, y),
        key_effect(c, Key::Right, d, z),
    ensures
        d == a,
{
}

/// Space pauses a running timer and space again resumes it, as it was.
pub proof fn lemma_pause_resume(a: App, b: App, c: App, act1: KeyAction, act2: KeyAction)
    requires
        a.state == AppState::Running,
        a.initial_sand > 0,
        key_effect(a, Key::Char(' '), b, act1),
        key_effect(b, Key::Char(' '), c, act2),
    ensures
        b.state == AppState::Paused,
        c == a,
{
}

/// A timer with no sand never starts.
pub proof fn lemma_empty_timer_never_starts(a: App, b: App, act: KeyAction)
    requires
        a.initial_sand == 0,
        a.state != AppState::Running,
        key_effect(a, Key::Char(' '), b, act),
    ensures
        b.state != AppState::Running,
{
}

/// Switching the clock format twice restores it; each switch asks that
/// the settings be stored.
pub proof fn lemma_clock_format_toggle(a: App, b: App, c: App, act1: KeyAction, act2: KeyAction)
    requires
        key_effect(a, Key::Char('t'), b, act1),
        key_effect(b, Key::Char('t'), c, act2),
    ensures
        b.is_24h == !a.is_24h,
        c == a,
        act1 == KeyAction::Save,
        act2 == KeyAction::Save,
{
}

/// A raised friction is at most one and a lowered one at least zero; the
/// friction keys keep frictions that are chances chances.
pub proof fn lemma_friction_in_range(a: App, key: Key, b: App, act: KeyAction)
    requires
        key_effect(a, key, b, act),
        key == Key::Char(']') || key == Key::Char('[') || key == Key::Char('}') || key == Key::Char('{'),
    ensures
        key == Key::Char(']') ==> b.wall_friction <= 1_000_000,
        key == Key::Char('[') ==> b.wall_friction >= 0,
        key == Key::Char('}') ==> b.sand_friction <= 1_000_000,
        key == Key::Char('{') ==> b.sand_friction >= 0,
        a.frictions_ok() ==> b.frictions_ok(),
{
}

/// In a freshly set glass every open cell of the neck's row lies in the
/// neck's opening.
pub proof fn lemma_fresh_neck_intact(a: App, h: u32, m: u32, s: u32, wf: i64, sf: i64, t: bool, sel: usize)
    requires
        a.is_fresh(h, m, s, wf, sf, t, sel),
    ensures
        neck_intact(a.grid@, a.hole_radius as int),
{
    assert forall|x: int| 0 <= x < 100 && #[trigger] cell_of(a.grid@, 80, x) != Cell::Wall implies at_gate_spec(
        80,
        x,
        a.hole_radius as int,
    ) by {
        assert(cell_of(a.grid@, 80, x) == layout_cell(a.hole_radius as int, 80, x));
    }
}

/// A step or a tick of the clock keeps the neck intact.
pub proof fn lemma_neck_stays_intact(a: App, b: App)
    requires
        advances(a, b),
        neck_intact(a.grid@, a.hole_radius as int),
    ensures
        neck_intact(b.grid@, b.hole_radius as int),
{
    if !step_ok(a, b) {
        let d = choose|d: u128| #[trigger] update_spec(a, d, b);
        assert(update_spec(a, d, b));
    }
    assert forall|x: int| 0 <= x < 100 && #[trigger] cell_of(b.grid@, 80, x) != Cell::Wall implies at_gate_spec(
        80,
        x,
        b.hole_radius as int,
    ) by {
        assert(b.grid@[8000 + x] != Cell::Wall);
        assert(a.grid@[8000 + x] != Cell::Wall);
        assert(cell_of(a.grid@, 80, x) != Cell::Wall);
    }
}

/// A running timer's step moves into the lower bulb no more grains than
/// the whole grains of allowance it held; with less than one grain of
/// allowance the neck lets nothing through.
pub proof fn lemma_neck_metered(a: App, b: App)
    requires
        a.wf(),
        step_ok(a, b),
        a.state == AppState::Running,
        neck_intact(a.grid@, a.hole_radius as int),
    ensures
        lower_count(b.grid@) <= lower_count(a.grid@) + (a.gate_allowance as int) / a.grain_unit(),
        a.gate_allowance < a.grain_unit() ==> lower_count(b.grid@) == lower_count(a.grid@),
{
    let u = a.grain_unit();
    let diff = a.gate_allowance - b.gate_allowance;
    assert(u >= 1);
    assert(0 <= diff <= a.gate_allowance);
    vstd::arithmetic::div_mod::lemma_div_is_ordered(diff, a.gate_allowance as int, u);
    if a.gate_allowance < u {
        vstd::arithmetic::div_mod::lemma_basic_div(diff, u);
    }
}

/// In a step of a running timer whose grains in the neck's row all sit in
/// its opening over free cells, with a whole grain of allowance for each,
/// every one of them falls into the cell below, and exactly that many
/// grains of allowance are spent.
pub proof fn lemma_open_neck_passes_all(a: App, b: App, x: int)
    requires
        step_ok(a, b),
        neck_open_for_all(a),
        0 <= x < 100,
        cell_of(a.grid@, 80, x) == Cell::Sand,
    ensures
        cell_of(b.grid@, 79, x) == Cell::Sand,
        b.gate_allowance == a.gate_allowance - neck_grains(a.grid@) * a.grain_unit(),
{
}

/// `b` follows `a` by one step of the sand or one tick of the clock.
pub open spec fn advances(a: App, b: App) -> bool {
    step_ok(a, b) || exists|d: u128| #[trigger] update_spec(a, d, b)
}

/// Neither a step nor a tick loses or adds a grain, changes the grains
/// poured in, or changes the state but from running to finished.
pub proof fn lemma_advance_keeps_sand(a: App, b: App)
    requires
        a.grid.wf(),
        advances(a, b),
    ensures
        b.grid.wf(),
        sand_count(b.grid@) == sand_count(a.grid@),
        source_count(b.grid@) <= source_count(a.grid@),
        b.initial_sand == a.initial_sand,
        b.hole_radius == a.hole_radius,
        b.state == a.state || (a.state == AppState::Running && b.state == AppState::Finished),
{
    if !step_ok(a, b) {
        let d = choose|d: u128| #[trigger] update_spec(a, d, b);
        assert(update_spec(a, d, b));
    }
}

/// Over any run of steps and ticks from a timer whose grid holds the sand
/// poured in (as a freshly set one does), no grain is ever lost or added,
/// and the upper bulb never holds more than was poured in; so the grains
/// that have left it are `initial_sand - source_sand`.
pub proof fn lemma_run_keeps_sand(run: Seq<App>)
    requires
        run.len() >= 1,
        run[0].grid.wf(),
        run[0].initial_sand == sand_count(run[0].grid@),
        forall|i: int| 0 <= i < run.len() - 1 ==> advances(#[trigger] run[i], run[i + 1]),
    ensures
        forall|i: int|
            0 <= i < run.len() ==> {
                &&& #[trigger] run[i].initial_sand == run[0].initial_sand
                &&& sand_count(run[i].grid@) == run[0].initial_sand
                &&& source_count(run[i].grid@) <= run[0].initial_sand
            },
    decreases run.len(),
{
    lemma_count_split(run[0].grid@, Cell::Sand, 0, 8100, 16000);
    if run.len() > 1 {
        let front = run.drop_last();
        assert forall|i: int| 0 <= i < front.len() - 1 implies advances(#[trigger] front[i], front[i + 1]) by {
            assert(front[i] == run[i]);
            assert(front[i + 1] == run[i + 1]);
        }
        lemma_run_keeps_sand(front);
        let k = run.len() - 2;
        assert(front[k] == run[k]);
        assert(advances(run[k], run[k + 1]));
        lemma_run_grid_wf(run, k);
        lemma_advance_keeps_sand(run[k], run[k + 1]);
        assert forall|i: int| 0 <= i < run.len() implies {
            &&& #[trigger] run[i].initial_sand == run[0].initial_sand
            &&& sand_count(run[i].grid@) == run[0].initial_sand
            &&& source_count(run[i].grid@) <= run[0].initial_sand
        } by {
            if i < run.len() - 1 {
                assert(front[i] == run[i]);
            } else {
                lemma_count_split(run[i].grid@, Cell::Sand, 0, 8100, 16000);
            }
        }
    }
}

/// Every timer of a run has a well-formed grid.
proof fn lemma_run_grid_wf(run: Seq<App>, k: int)
    requires
        0 <= k < run.len(),
        run[0].grid.wf(),
        forall|i: int| 0 <= i < run.len() - 1 ==> advances(#[trigger] run[i], run[i + 1]),
    ensures
        run[k].grid.wf(),
    decreases k,
{
    if k > 0 {
        lemma_run_grid_wf(run, k - 1);
        lemma_advance_keeps_sand(run[k - 1], run[k]);
    }
}

/// Elapsed running time never goes back, for the ticks that `update`
/// takes.
pub proof fn lemma_elapsed_grows(a: App, d: u128, b: App)
    requires
        a.update_fits(d),
        update_spec(a, d, b),
    ensures
        b.elapsed >= a.elapsed,
{
}

} // verus!

//! The timer: the glass with its sand, the clock that drives it, and the
//! settings that the user edits.

use vstd::prelude::*;
use crate::grid::{Grid, Cell, cell_of, in_bounds, sand_count, source_count};
use crate::layout::{
    time_fits, total_seconds_spec, hole_radius_spec, layout_cell, total_seconds, hole_radius_for,
    build_layout,
};
use crate::physics::step_ok;

verus! {

/// Where the timer is in its life.
#[derive(Clone, Copy, PartialEq, Eq, Structural, Debug)]
pub enum AppState {
    /// The user sets the time; the sand does not move.
    Setting,
    /// The sand falls and the neck lets grains through at the set rate.
    Running,
    /// Stopped by the user; nothing moves.
    Paused,
    /// The upper bulb is empty; the sand moves freely through the neck.
    Finished,
}

/// The line of key hints shown for each state.
pub open spec fn status_hint_spec(state: AppState) -> Seq<char> {
    match state {
        AppState::Setting => " [SETTING] Arrows: Adj, Num: Input, Space: Start, t: Clock 12/24h "@,
        AppState::Running => " [RUNNING] Space: Pause, t: Clock 12/24h "@,
        AppState::Paused => " [PAUSED] Space: Resume, t: Clock 12/24h "@,
        AppState::Finished => " [FINISHED] r: Reset, t: Clock 12/24h "@,
    }
}

/// The line of key hints shown in `state`.
pub fn status_hint(state: AppState) -> (s: &'static str)
    ensures
        s@ == status_hint_spec(state),
{
    match state {
        AppState::Setting => " [SETTING] Arrows: Adj, Num: Input, Space: Start, t: Clock 12/24h ",
        AppState::Running => " [RUNNING] Space: Pause, t: Clock 12/24h ",
        AppState::Paused => " [PAUSED] Space: Resume, t: Clock 12/24h ",
        AppState::Finished => " [FINISHED] r: Reset, t: Clock 12/24h ",
    }
}

/// Time between two steps of the sand, in nanoseconds.
pub const PHYSICS_INTERVAL_NS: u128 = 16_000_000;

/// Time owed to the sand beyond which it is forgiven, in nanoseconds.
pub const CATCH_UP_LIMIT_NS: u128 = 50_000_000;

pub const NANOS_PER_SEC: u128 = 1_000_000_000;

/// The longest span a `std::time::Duration` can hold, in nanoseconds.
pub const MAX_DURATION_NS: u128 = 18_446_744_073_709_551_615_999_999_999;

/// A friction is a chance, in millionths; the settings may hold any
/// value, but a step of the sand needs one between zero and one.
pub const FRICTION_SCALE: i64 = 1_000_000;

/// What one press of a friction key adds or takes away, in millionths.
pub const FRICTION_STEP: i64 = 50_000;

/// The whole state of the timer.
pub struct App {
    pub grid: Grid,
    /// Grains poured in when the timer was set.
    pub initial_sand: usize,
    /// Time not yet spent on steps of the sand, in nanoseconds.
    pub physics_accumulator: u128,
    /// Grains that the neck may still let through, in units of
    /// `1 / (total_secs * 10^9)` grain.
    pub gate_allowance: u128,
    /// Half the width of the neck's opening, in cells.
    pub hole_radius: i32,
    /// Running time so far, in nanoseconds.
    pub elapsed: u128,
    /// The timer's length in seconds (at least one).
    pub total_secs: u32,
    pub h: u32,
    pub m: u32,
    pub s: u32,
    /// The field that the arrow and digit keys edit: 0 hours, 1 minutes,
    /// 2 seconds.
    pub selected_unit: usize,
    pub state: AppState,
    /// Chance, in millionths, that a grain beside a wall does not slide.
    pub wall_friction: i64,
    /// Chance, in millionths, that a grain in the lower bulb does not slide;
    /// half of it in the upper bulb.
    pub sand_friction: i64,
    /// Whether the clock shows 24 hours or 12.
    pub is_24h: bool,
}

/// What `update` does with `delta` nanoseconds to the timer `before`,
/// giving `after`.
pub open spec fn update_spec(before: App, delta: u128, after: App) -> bool {
    if before.state == AppState::Setting || before.state == AppState::Paused {
        after == before
    } else {
        let acc = before.physics_accumulator + delta;
        let running = before.state == AppState::Running;
        let elapsed = if running {
            before.elapsed + delta
        } else {
            before.elapsed as int
        };
        let granted = before.gate_allowance + before.initial_sand * delta;
        let allowance = if !running {
            before.gate_allowance as int
        } else if granted > u128::MAX {
            u128::MAX as int
        } else {
            granted
        };
        if acc >= PHYSICS_INTERVAL_NS {
            let rest = acc - PHYSICS_INTERVAL_NS;
            let kept = if rest > CATCH_UP_LIMIT_NS {
                0
            } else {
                rest
            };
            step_ok(App::with_clock(before, kept as u128, elapsed as u128, allowance as u128), after)
        } else {
            after == App::with_clock(before, acc as u128, elapsed as u128, allowance as u128)
        }
    }
}

impl App {
    /// The invariant that every constructor establishes and every method
    /// keeps.
    pub open spec fn wf(&self) -> bool {
        &&& self.grid.wf()
        &&& self.initial_sand <= 16000
        &&& 0 <= self.hole_radius <= 3072
        &&& time_fits(self.h as int, self.m as int, self.s as int)
        &&& self.total_secs == total_seconds_spec(self.h as int, self.m as int, self.s as int)
        &&& self.selected_unit < 3
    }

    /// Both frictions are chances: between zero and one. A step of the sand
    /// draws with them, and the draw panics on any other value.
    pub open spec fn frictions_ok(&self) -> bool {
        &&& 0 <= self.wall_friction <= 1_000_000
        &&& 0 <= self.sand_friction <= 1_000_000
    }

    /// Whether both frictions are chances.
    pub fn frictions_in_range(&self) -> (b: bool)
        ensures
            b == self.frictions_ok(),
    {
        0 <= self.wall_friction && self.wall_friction <= FRICTION_SCALE && 0 <= self.sand_friction
            && self.sand_friction <= FRICTION_SCALE
    }

    /// One grain's worth of gate allowance.
    pub open spec fn grain_unit(&self) -> int {
        self.total_secs * 1_000_000_000
    }

    /// One grain's worth of gate allowance.
    pub fn unit(&self) -> (u: u128)
        requires
            self.wf(),
        ensures
            u == self.grain_unit(),
            u >= 1_000_000_000,
    {
        (self.total_secs as u128) * NANOS_PER_SEC
    }

    /// A timer freshly set to `h`:`m`:`s` with the given frictions and clock
    /// format, with field `sel` selected for editing.
    pub open spec fn is_fresh(
        &self,
        h: u32,
        m: u32,
        s: u32,
        wall_f: i64,
        sand_f: i64,
        is_24h: bool,
        sel: usize,
    ) -> bool {
        &&& self.wf()
        &&& self.h == h
        &&& self.m == m
        &&& self.s == s
        &&& self.hole_radius == hole_radius_spec(total_seconds_spec(h as int, m as int, s as int))
        &&& forall|y: int, x: int|
            in_bounds(y, x) ==> #[trigger] cell_of(self.grid@, y, x) == layout_cell(
                self.hole_radius as int,
                y,
                x,
            )
        &&& self.initial_sand == sand_count(self.grid@)
        &&& self.physics_accumulator == 0
        &&& self.gate_allowance == 0
        &&& self.elapsed == 0
        &&& self.selected_unit == sel
        &&& self.state == AppState::Setting
        &&& self.wall_friction == wall_f
        &&& self.sand_friction == sand_f
        &&& self.is_24h == is_24h
    }

    /// A timer set to `h`:`m`:`s`: the glass is drawn with a neck sized for
    /// that length and its upper bulb is filled; the seconds are selected
    /// and the timer waits in `Setting`. Frictions are in millionths.
    pub fn new(h: u32, m: u32, s: u32, wall_f: i64, sand_f: i64, is_24h: bool) -> (a: App)
        requires
            time_fits(h as int, m as int, s as int),
        ensures
            a.is_fresh(h, m, s, wall_f, sand_f, is_24h, 2),
    {
        let total_secs = total_seconds(h, m, s);
        let hole_radius = hole_radius_for(total_secs);
        let (grid, count) = build_layout(hole_radius);
        proof {
            crate::grid::lemma_count_bound(grid@, Cell::Sand, 0, 16000);
        }
        App {
            grid,
            initial_sand: count,
            physics_accumulator: 0,
            gate_allowance: 0,
            hole_radius,
            elapsed: 0,
            total_secs,
            h,
            m,
            s,
            selected_unit: 2,
            state: AppState::Setting,
            wall_friction: wall_f,
            sand_friction: sand_f,
            is_24h,
        }
    }

    /// Grains that have left the upper bulb since the timer was set (none
    /// where the upper bulb holds more than were poured in).
    pub fn fallen_count(&self) -> (n: usize)
        requires
            self.wf(),
        ensures
            n == if self.initial_sand >= source_count(self.grid@) {
                self.initial_sand - source_count(self.grid@)
            } else {
                0
            },
    {
        let src = self.grid.source_sand();
        self.initial_sand.saturating_sub(src)
    }

    /// `a` with its clock fields replaced.
    pub open spec fn with_clock(a: App, acc: u128, elapsed: u128, allowance: u128) -> App {
        App { physics_accumulator: acc, elapsed: elapsed, gate_allowance: allowance, ..a }
    }

    /// The time that `update` adds fits in a `Duration`, which panics on
    /// overflow, and a step that it runs has frictions that are chances.
    pub open spec fn update_fits(&self, delta: u128) -> bool {
        self.state == AppState::Setting || self.state == AppState::Paused || (
        self.physics_accumulator + delta <= MAX_DURATION_NS && (self.state == AppState::Running
            ==> self.elapsed + delta <= MAX_DURATION_NS) && (self.physics_accumulator + delta
            >= PHYSICS_INTERVAL_NS ==> self.frictions_ok()))
    }

    /// Whether `update` may be called with `delta`.
    pub fn update_fits_exec(&self, delta: u128) -> (b: bool)
        ensures
            b == self.update_fits(delta),
    {
        self.state == AppState::Setting || self.state == AppState::Paused || (
        self.physics_accumulator <= MAX_DURATION_NS && delta <= MAX_DURATION_NS
            - self.physics_accumulator && (self.state != AppState::Running || (self.elapsed
            <= MAX_DURATION_NS && delta <= MAX_DURATION_NS - self.elapsed)) && (self.physics_accumulator
            + delta < PHYSICS_INTERVAL_NS || self.frictions_in_range()))
    }

    /// Advances the timer by `delta` nanoseconds since the last call. A timer
    /// that is being set or is paused does not change. Otherwise the time is
    /// owed to the sand; a running timer also counts it as elapsed and grants
    /// the neck `initial_sand * delta` units of allowance, so that a whole
    /// grain is granted every `total_secs / initial_sand` seconds. Once 16 ms
    /// are owed, they are spent on one step of the sand, and what is still
    /// owed beyond 50 ms is forgiven.
    pub fn update(&mut self, delta: u128)
        requires
            old(self).wf(),
            old(self).update_fits(delta),
        ensures
            final(self).wf(),
            update_spec(*old(self), delta, *final(self)),
    {
        if self.state == AppState::Setting || self.state == AppState::Paused {
            return;
        }
        self.physics_accumulator = self.physics_accumulator + delta;
        if self.state == AppState::Running {
            self.elapsed = self.elapsed + delta;
            proof {
                assert(self.initial_sand * delta <= 16000 * MAX_DURATION_NS) by (nonlinear_arith)
                    requires
                        self.initial_sand <= 16000,
                        delta <= MAX_DURATION_NS,
                ;
            }
            let granted = (self.initial_sand as u128) * delta;
            self.gate_allowance = self.gate_allowance.saturating_add(granted);
        }
        if self.physics_accumulator >= PHYSICS_INTERVAL_NS {
            self.physics_accumulator = self.physics_accumulator - PHYSICS_INTERVAL_NS;
            if self.physics_accumulator > CATCH_UP_LIMIT_NS {
                self.physics_accumulator = 0;
            }
            self.step_physics();
        }
    }

    /// Grains in the upper bulb.
    pub fn source_sand(&self) -> (n: usize)
        requires
            self.wf(),
        ensures
            n == source_count(self.grid@),
    {
        self.grid.source_sand()
    }
}

} // verus!

//! The keys of the timer and what each does to its settings.

use vstd::prelude::*;
use crate::layout::time_fits;
use crate::timer::{App, AppState, FRICTION_SCALE, FRICTION_STEP};

verus! {

/// A key press, as far as the timer tells keys apart.
#[derive(Clone, Copy, PartialEq, Eq, Structural, Debug)]
pub enum Key {
    Char(char),
    Left,
    Right,
    Up,
    Down,
    Other,
}

/// What the surroundings of the timer must do after a key.
#[derive(Clone, Copy, PartialEq, Eq, Structural, Debug)]
pub enum KeyAction {
    /// Nothing.
    Nothing,
    /// Store the settings.
    Save,
    /// Store the settings, then stop.
    Quit,
}

/// A time as hours, minutes and seconds.
pub type Hms = (u32, u32, u32);

/// The time after the up key on field `unit` (0 hours, 1 minutes,
/// 2 seconds): the field grows by one; minutes and seconds at 59 or more
/// turn to 0 and carry one into the next larger field.
pub open spec fn up_spec(t: Hms, unit: int) -> (int, int, int) {
    let (h, m, s) = t;
    if unit == 0 {
        (h + 1, m as int, s as int)
    } else if unit == 1 {
        if m < 59 {
            (h as int, m + 1, s as int)
        } else {
            (h + 1, 0, s as int)
        }
    } else if unit == 2 {
        if s < 59 {
            (h as int, m as int, s + 1)
        } else {
            (h as int, m + 1, 0)
        }
    } else {
        (h as int, m as int, s as int)
    }
}

/// The time after the down key on field `unit`: the field shrinks by one;
/// minutes and seconds at zero borrow one from the next larger field and
/// turn to 59; a field with nothing to borrow from stays.
pub open spec fn down_spec(t: Hms, unit: int) -> (int, int, int) {
    let (h, m, s) = t;
    if unit == 0 {
        if h > 0 {
            (h - 1, m as int, s as int)
        } else {
            (h as int, m as int, s as int)
        }
    } else if unit == 1 {
        if m > 0 {
            (h as int, m - 1, s as int)
        } else if h > 0 {
            (h - 1, 59, s as int)
        } else {
            (h as int, m as int, s as int)
        }
    } else if unit == 2 {
        if s > 0 {
            (h as int, m as int, s - 1)
        } else if m > 0 {
            (h as int, m - 1, 59)
        } else {
            (h as int, m as int, s as int)
        }
    } else {
        (h as int, m as int, s as int)
    }
}

/// The time after typing digit `d` on field `unit`: the digit is appended
/// to the field; hours keep their last two digits, and minutes or seconds
/// that would pass 59 become the digit alone.
pub open spec fn digit_spec(t: Hms, unit: int, d: int) -> (int, int, int) {
    let (h, m, s) = t;
    if unit == 0 {
        ((h * 10 + d) % 100, m as int, s as int)
    } else if unit == 1 {
        (h as int, if m * 10 + d <= 59 {
            m * 10 + d
        } else {
            d
        }, s as int)
    } else if unit == 2 {
        (h as int, m as int, if s * 10 + d <= 59 {
            s * 10 + d
        } else {
            d
        })
    } else {
        (h as int, m as int, s as int)
    }
}

/// Appending the digit does not overflow the field's `u32`.
pub open spec fn digit_fits(t: Hms, unit: int, d: int) -> bool {
    unit == 2 ==> t.2 * 10 + d <= u32::MAX
}

/// The value of a decimal digit character.
pub open spec fn digit_value(c: char) -> int {
    c as int - '0' as int
}

pub open spec fn is_digit(c: char) -> bool {
    '0' <= c && c <= '9'
}

/// A character that a key reserves for itself before digits are read.
pub open spec fn is_command(c: char) -> bool {
    c == 'q' || c == 'r' || c == 't' || c == ' ' || c == ']' || c == '[' || c == '}' || c == '{'
}

/// The time that `key` sets on `a`, where it sets one.
pub open spec fn edited_time(a: App, key: Key) -> Option<(int, int, int)> {
    let t = (a.h, a.m, a.s);
    if a.state != AppState::Setting {
        None
    } else {
        match key {
            Key::Up => Some(up_spec(t, a.selected_unit as int)),
            Key::Down => Some(down_spec(t, a.selected_unit as int)),
            Key::Char(c) => if is_digit(c) && !is_command(c) {
                Some(digit_spec(t, a.selected_unit as int, digit_value(c)))
            } else {
                None
            },
            _ => None,
        }
    }
}

/// `key` leaves a time that fits: the length of the timer is computed in a
/// `u32`, and an edit that overflows it panics.
pub open spec fn key_ok(a: App, key: Key) -> bool {
    &&& match edited_time(a, key) {
        Some(t) => t.0 >= 0 && t.1 >= 0 && t.2 >= 0 && time_fits(t.0, t.1, t.2),
        None => true,
    }
    &&& match key {
        Key::Char(c) => a.state == AppState::Setting && is_digit(c) ==> digit_fits(
            (a.h, a.m, a.s),
            a.selected_unit as int,
            digit_value(c),
        ),
        _ => true,
    }
}

/// The wall friction after `]` or `[`, the sand friction after `}` or `{`:
/// one step more, at most one; one step less, at least zero.
pub open spec fn friction_up(f: int) -> int {
    if f + 50_000 > 1_000_000 {
        1_000_000
    } else {
        f + 50_000
    }
}

pub open spec fn friction_down(f: int) -> int {
    if f < 50_000 {
        0
    } else {
        f - 50_000
    }
}

/// The state after the space key.
pub open spec fn space_spec(a: App) -> AppState {
    match a.state {
        AppState::Setting | AppState::Paused => if a.initial_sand > 0 {
            AppState::Running
        } else {
            a.state
        },
        AppState::Running => AppState::Paused,
        AppState::Finished => AppState::Finished,
    }
}

/// What `key` does to the timer `a`, giving `b` and asking for `act`.
pub open spec fn key_effect(a: App, key: Key, b: App, act: KeyAction) -> bool {
    if key == Key::Char('q') {
        act == KeyAction::Quit && b == a
    } else if key == Key::Char('r') {
        act == KeyAction::Nothing && b.is_fresh(
            a.h,
            a.m,
            a.s,
            a.wall_friction,
            a.sand_friction,
            a.is_24h,
            2,
        )
    } else if key == Key::Char('t') {
        act == KeyAction::Save && b == App { is_24h: !a.is_24h, ..a }
    } else if key == Key::Char(' ') {
        act == KeyAction::Nothing && b == App { state: space_spec(a), ..a }
    } else if key == Key::Char(']') {
        act == KeyAction::Save && b == App {
            wall_friction: friction_up(a.wall_friction as int) as i64,
            ..a
        }
    } else if key == Key::Char('[') {
        act == KeyAction::Save && b == App {
            wall_friction: friction_down(a.wall_friction as int) as i64,
            ..a
        }
    } else if key == Key::Char('}') {
        act == KeyAction::Save && b == App {
            sand_friction: friction_up(a.sand_friction as int) as i64,
            ..a
        }
    } else if key == Key::Char('{') {
        act == KeyAction::Save && b == App {
            sand_friction: friction_down(a.sand_friction as int) as i64,
            ..a
        }
    } else if a.state != AppState::Setting {
        act == KeyAction::Nothing && b == a
    } else if key == Key::Left {
        act == KeyAction::Nothing && b == App { selected_unit: ((a.selected_unit + 2) % 3) as usize, ..a }
    } else if key == Key::Right {
        act == KeyAction::Nothing && b == App { selected_unit: ((a.selected_unit + 1) % 3) as usize, ..a }
    } else {
        match edited_time(a, key) {
            Some(t) => act == KeyAction::Save && b.is_fresh(
                t.0 as u32,
                t.1 as u32,
                t.2 as u32,
                a.wall_friction,
                a.sand_friction,
                a.is_24h,
                a.selected_unit,
            ),
            None => act == KeyAction::Nothing && b == a,
        }
    }
}

/// The time after the up key on field `unit`.
pub fn step_up(t: Hms, unit: usize) -> (r: Hms)
    requires
        time_fits(t.0 as int, t.1 as int, t.2 as int),
    ensures
        (r.0 as int, r.1 as int, r.2 as int) == up_spec(t, unit as int),
{
    let (h, m, s) = t;
    if unit == 0 {
        (h + 1, m, s)
    } else if unit == 1 {
        if m < 59 {
            (h, m + 1, s)
        } else {
            (h + 1, 0, s)
        }
    } else if unit == 2 {
        if s < 59 {
            (h, m, s + 1)
        } else {
            (h, m + 1, 0)
        }
    } else {
        (h, m, s)
    }
}

/// The time after the down key on field `unit`.
pub fn step_down(t: Hms, unit: usize) -> (r: Hms)
    ensures
        (r.0 as int, r.1 as int, r.2 as int) == down_spec(t, unit as int),
{
    let (h, m, s) = t;
    if unit == 0 {
        if h > 0 {
            (h - 1, m, s)
        } else {
            (h, m, s)
        }
    } else if unit == 1 {
        if m > 0 {
            (h, m - 1, s)
        } else if h > 0 {
            (h - 1, 59, s)
        } else {
            (h, m, s)
        }
    } else if unit == 2 {
        if s > 0 {
            (h, m, s - 1)
        } else if m > 0 {
            (h, m - 1, 59)
        } else {
            (h, m, s)
        }
    } else {
        (h, m, s)
    }
}

/// The time after typing digit `d` on field `unit`.
pub fn enter_digit(t: Hms, unit: usize, d: u32) -> (r: Hms)
    requires
        time_fits(t.0 as int, t.1 as int, t.2 as int),
        d <= 9,
        digit_fits(t, unit as int, d as int),
    ensures
        (r.0 as int, r.1 as int, r.2 as int) == digit_spec(t, unit as int, d as int),
{
    let (h, m, s) = t;
    if unit == 0 {
        ((h * 10 + d) % 100, m, s)
    } else if unit == 1 {
        let v = m * 10 + d;
        (h, if v <= 59 {
            v
        } else {
            d
        }, s)
    } else if unit == 2 {
        let v = s * 10 + d;
        (h, m, if v <= 59 {
            v
        } else {
            d
        })
    } else {
        (h, m, s)
    }
}

/// The time that `key` sets on `a`, where it sets one.
fn edited_time_exec(a: &App, key: Key) -> (r: Option<Hms>)
    requires
        a.wf(),
        key_ok(*a, key),
    ensures
        r matches Some(t) ==> edited_time(*a, key) == Some((t.0 as int, t.1 as int, t.2 as int)),
        r is None ==> edited_time(*a, key) is None,
{
    if a.state != AppState::Setting {
        return None;
    }
    let t = (a.h, a.m, a.s);
    match key {
        Key::Up => Some(step_up(t, a.selected_unit)),
        Key::Down => Some(step_down(t, a.selected_unit)),
        Key::Char(c) => {
            if '0' <= c && c <= '9' && !(c == 'q' || c == 'r' || c == 't' || c == ' ' || c == ']'
                || c == '[' || c == '}' || c == '{') {
                let d = (c as u32) - ('0' as u32);
                Some(enter_digit(t, a.selected_unit, d))
            } else {
                None
            }
        },
        _ => None,
    }
}

/// Whether `key` leaves a time that fits, so that `handle_key` may take it.
pub fn key_fits(a: &App, key: Key) -> (b: bool)
    requires
        a.wf(),
    ensures
        b == key_ok(*a, key),
{
    if a.state != AppState::Setting {
        return true;
    }
    let h = a.h as u64;
    let m = a.m as u64;
    let s = a.s as u64;
    let unit = a.selected_unit;
    let max = u32::MAX as u64;
    match key {
        Key::Up => {
            let (nh, nm, ns) = if unit == 0 {
                (h + 1, m, s)
            } else if unit == 1 {
                if m < 59 {
                    (h, m + 1, s)
                } else {
                    (h + 1, 0, s)
                }
            } else if s < 59 {
                (h, m, s + 1)
            } else {
                (h, m + 1, 0)
            };
            nh * 3600 + nm * 60 + ns <= max
        },
        Key::Down => true,
        Key::Char(c) => {
            if '0' <= c && c <= '9' {
                let d = (c as u32 - '0' as u32) as u64;
                if unit == 0 {
                    ((h * 10 + d) % 100) * 3600 + m * 60 + s <= max
                } else if unit == 1 {
                    let v = m * 10 + d;
                    let nm = if v <= 59 {
                        v
                    } else {
                        d
                    };
                    h * 3600 + nm * 60 + s <= max
                } else {
                    let v = s * 10 + d;
                    let ns = if v <= 59 {
                        v
                    } else {
                        d
                    };
                    v <= max && h * 3600 + m * 60 + ns <= max
                }
            } else {
                true
            }
        },
        _ => true,
    }
}

impl App {
    /// Applies a key press. `q` asks to store the settings and stop, `r`
    /// sets the timer afresh, `t` switches the clock between 24 and 12
    /// hours, space starts (where there is sand), pauses or resumes, and
    /// `]` `[` `}` `{` raise or lower the wall or sand friction by a
    /// twentieth. While the time is being set, the left and right keys move
    /// the selection, and the up, down and digit keys edit the selected
    /// field, after which the timer is set afresh with the same selection.
    /// Every change of a setting asks that the settings be stored.
    pub fn handle_key(&mut self, key: Key) -> (act: KeyAction)
        requires
            old(self).wf(),
            key_ok(*old(self), key),
        ensures
            final(self).wf(),
            key_effect(*old(self), key, *final(self), act),
    {
        match key {
            Key::Char('q') => {
                return KeyAction::Quit;
            },
            Key::Char('r') => {
                *self = App::new(
                    self.h,
                    self.m,
                    self.s,
                    self.wall_friction,
                    self.sand_friction,
                    self.is_24h,
                );
                return KeyAction::Nothing;
            },
            Key::Char('t') => {
                self.is_24h = !self.is_24h;
                return KeyAction::Save;
            },
            Key::Char(' ') => {
                match self.state {
                    AppState::Setting | AppState::Paused => {
                        if self.initial_sand > 0 {
                            self.state = AppState::Running;
                        }
                    },
                    AppState::Running => {
                        self.state = AppState::Paused;
                    },
                    AppState::Finished => {},
                }
                return KeyAction::Nothing;
            },
            Key::Char(']') => {
                self.wall_friction = if self.wall_friction > FRICTION_SCALE - FRICTION_STEP {
                    FRICTION_SCALE
                } else {
                    self.wall_friction + FRICTION_STEP
                };
                return KeyAction::Save;
            },
            Key::Char('[') => {
                self.wall_friction = if self.wall_friction < FRICTION_STEP {
                    0
                } else {
                    self.wall_friction - FRICTION_STEP
                };
                return KeyAction::Save;
            },
            Key::Char('}') => {
                self.sand_friction = if self.sand_friction > FRICTION_SCALE - FRICTION_STEP {
                    FRICTION_SCALE
                } else {
                    self.sand_friction + FRICTION_STEP
                };
                return KeyAction::Save;
            },
            Key::Char('{') => {
                self.sand_friction = if self.sand_friction < FRICTION_STEP {
                    0
                } else {
                    self.sand_friction - FRICTION_STEP
                };
                return KeyAction::Save;
            },
            _ => {},
        }
        if self.state != AppState::Setting {
            return KeyAction::Nothing;
        }
        match key {
            Key::Left => {
                self.selected_unit = (self.selected_unit + 2) % 3;
                return KeyAction::Nothing;
            },
            Key::Right => {
                self.selected_unit = (self.selected_unit + 1) % 3;
                return KeyAction::Nothing;
            },
            _ => {},
        }
        match edited_time_exec(self, key) {
            Some((h, m, s)) => {
                let sel = self.selected_unit;
                *self = App::new(h, m, s, self.wall_friction, self.sand_friction, self.is_24h);
                self.selected_unit = sel;
                KeyAction::Save
            },
            None => KeyAction::Nothing,
        }
    }
}

} // verus!

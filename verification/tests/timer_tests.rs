use sand_timer::grid::{Cell, Grid};
use sand_timer::settings::{enter_digit, key_fits, step_down, step_up, Key, KeyAction};
use sand_timer::timer::{App, AppState, MAX_DURATION_NS};

const MS: u128 = 1_000_000;

#[test]
fn setting_timer_ignores_time() {
    let mut app = App::new(0, 1, 0, 0, 0, true);
    let before = app.grid.cells.clone();
    app.update(500 * MS);
    assert_eq!(app.physics_accumulator, 0);
    assert_eq!(app.elapsed, 0);
    assert_eq!(app.gate_allowance, 0);
    assert_eq!(app.grid.cells, before);
}

#[test]
fn paused_timer_ignores_time() {
    let mut app = App::new(0, 1, 0, 0, 0, true);
    app.state = AppState::Paused;
    app.elapsed = 7;
    app.update(500 * MS);
    assert_eq!(app.elapsed, 7);
    assert_eq!(app.physics_accumulator, 0);
}

#[test]
fn running_timer_counts_time_and_grants_allowance() {
    let mut app = App::new(0, 1, 0, 0, 0, true);
    app.state = AppState::Running;
    let before = app.grid.cells.clone();
    app.update(10 * MS);
    assert_eq!(app.physics_accumulator, 10 * MS);
    assert_eq!(app.elapsed, 10 * MS);
    assert_eq!(app.gate_allowance, app.initial_sand as u128 * 10 * MS);
    // not yet time for a step
    assert_eq!(app.grid.cells, before);
}

#[test]
fn allowance_grants_one_grain_per_share_of_time() {
    // after the whole length of the timer, the neck may pass every grain
    let mut app = App::new(0, 0, 2, 0, 0, true);
    app.state = AppState::Running;
    app.update(MS);
    let per_ms = app.gate_allowance;
    assert_eq!(per_ms * 2000, app.initial_sand as u128 * app.unit());
}

#[test]
fn step_runs_after_sixteen_ms() {
    let mut app = App::new(0, 1, 0, 0, 0, true);
    app.state = AppState::Running;
    app.grid = Grid::empty();
    app.grid.set(120, 20, Cell::Sand);
    app.update(20 * MS);
    assert_eq!(app.physics_accumulator, 4 * MS);
    assert_eq!(app.grid.get(119, 20), Cell::Sand);
    assert_eq!(app.grid.get(120, 20), Cell::Empty);
}

#[test]
fn long_pause_in_updates_is_forgiven() {
    let mut app = App::new(0, 1, 0, 0, 0, true);
    app.state = AppState::Running;
    app.update(100 * MS);
    assert_eq!(app.physics_accumulator, 0);
    assert_eq!(app.elapsed, 100 * MS);
    app.update(60 * MS);
    // 60 - 16 = 44 ms are still owed
    assert_eq!(app.physics_accumulator, 44 * MS);
}

#[test]
fn finished_timer_moves_sand_but_not_clock() {
    let mut app = App::new(0, 1, 0, 0, 0, true);
    app.state = AppState::Finished;
    app.update(20 * MS);
    assert_eq!(app.elapsed, 0);
    assert_eq!(app.gate_allowance, 0);
    assert_eq!(app.physics_accumulator, 4 * MS);
    assert_eq!(app.state, AppState::Finished);
}

#[test]
fn update_fits_at_duration_limit() {
    let mut app = App::new(0, 1, 0, 0, 0, true);
    app.state = AppState::Running;
    assert!(app.update_fits_exec(MAX_DURATION_NS));
    app.elapsed = 1;
    assert!(!app.update_fits_exec(MAX_DURATION_NS));
    app.state = AppState::Paused;
    assert!(app.update_fits_exec(MAX_DURATION_NS));
}

#[test]
fn quit_key_asks_to_store_and_stop() {
    let mut app = App::new(0, 1, 0, 0, 0, true);
    assert_eq!(app.handle_key(Key::Char('q')), KeyAction::Quit);
    assert_eq!(app.state, AppState::Setting);
}

#[test]
fn reset_key_sets_timer_afresh() {
    let mut app = App::new(0, 1, 0, 150_000, 50_000, false);
    app.state = AppState::Running;
    app.selected_unit = 0;
    app.update(40 * MS);
    assert_eq!(app.handle_key(Key::Char('r')), KeyAction::Nothing);
    assert_eq!(app.state, AppState::Setting);
    assert_eq!(app.selected_unit, 2);
    assert_eq!(app.elapsed, 0);
    assert_eq!(app.wall_friction, 150_000);
    assert_eq!(app.sand_friction, 50_000);
    assert!(!app.is_24h);
    assert_eq!(app.source_sand(), app.initial_sand);
}

#[test]
fn clock_format_key_toggles() {
    let mut app = App::new(0, 1, 0, 0, 0, true);
    assert_eq!(app.handle_key(Key::Char('t')), KeyAction::Save);
    assert!(!app.is_24h);
    assert_eq!(app.handle_key(Key::Char('t')), KeyAction::Save);
    assert!(app.is_24h);
}

#[test]
fn space_starts_pauses_and_resumes() {
    let mut app = App::new(0, 1, 0, 0, 0, true);
    assert_eq!(app.handle_key(Key::Char(' ')), KeyAction::Nothing);
    assert_eq!(app.state, AppState::Running);
    app.handle_key(Key::Char(' '));
    assert_eq!(app.state, AppState::Paused);
    app.handle_key(Key::Char(' '));
    assert_eq!(app.state, AppState::Running);
    app.state = AppState::Finished;
    app.handle_key(Key::Char(' '));
    assert_eq!(app.state, AppState::Finished);
}

#[test]
fn space_does_not_start_empty_timer() {
    let mut app = App::new(0, 1, 0, 0, 0, true);
    app.initial_sand = 0;
    app.handle_key(Key::Char(' '));
    assert_eq!(app.state, AppState::Setting);
}

#[test]
fn friction_keys_step_and_clamp() {
    let mut app = App::new(0, 1, 0, 980_000, 30_000, true);
    assert_eq!(app.handle_key(Key::Char(']')), KeyAction::Save);
    assert_eq!(app.wall_friction, 1_000_000);
    app.handle_key(Key::Char('['));
    assert_eq!(app.wall_friction, 950_000);
    assert_eq!(app.handle_key(Key::Char('{')), KeyAction::Save);
    assert_eq!(app.sand_friction, 0);
    app.handle_key(Key::Char('}'));
    app.handle_key(Key::Char('}'));
    assert_eq!(app.sand_friction, 100_000);
}

#[test]
fn arrows_move_selection() {
    let mut app = App::new(0, 1, 0, 0, 0, true);
    assert_eq!(app.selected_unit, 2);
    app.handle_key(Key::Right);
    assert_eq!(app.selected_unit, 0);
    app.handle_key(Key::Left);
    assert_eq!(app.selected_unit, 2);
    app.handle_key(Key::Left);
    assert_eq!(app.selected_unit, 1);
}

#[test]
fn edits_ignored_unless_setting() {
    let mut app = App::new(0, 1, 0, 0, 0, true);
    app.state = AppState::Running;
    assert_eq!(app.handle_key(Key::Up), KeyAction::Nothing);
    assert_eq!(app.handle_key(Key::Char('5')), KeyAction::Nothing);
    assert_eq!(app.handle_key(Key::Left), KeyAction::Nothing);
    assert_eq!((app.h, app.m, app.s, app.selected_unit), (0, 1, 0, 2));
    assert_eq!(app.handle_key(Key::Other), KeyAction::Nothing);
}

#[test]
fn up_key_carries_into_next_field() {
    let mut app = App::new(0, 0, 59, 0, 0, true);
    assert_eq!(app.handle_key(Key::Up), KeyAction::Save);
    assert_eq!((app.h, app.m, app.s), (0, 1, 0));
    assert_eq!(app.selected_unit, 2);
    assert_eq!(app.total_secs, 60);
    app.handle_key(Key::Left);
    let mut app2 = App::new(0, 59, 0, 0, 0, true);
    app2.selected_unit = 1;
    app2.handle_key(Key::Up);
    assert_eq!((app2.h, app2.m, app2.s), (1, 0, 0));
    assert_eq!(app2.selected_unit, 1);
}

#[test]
fn down_key_borrows_from_next_field() {
    let mut app = App::new(1, 0, 0, 0, 0, true);
    app.selected_unit = 1;
    app.handle_key(Key::Down);
    assert_eq!((app.h, app.m, app.s), (0, 59, 0));
    let mut app2 = App::new(1, 0, 0, 0, 0, true);
    // seconds at zero with minutes at zero: nothing to borrow
    app2.handle_key(Key::Down);
    assert_eq!((app2.h, app2.m, app2.s), (1, 0, 0));
}

#[test]
fn digits_append_to_field() {
    let mut app = App::new(0, 0, 0, 0, 0, true);
    app.handle_key(Key::Char('4'));
    app.handle_key(Key::Char('5'));
    assert_eq!(app.s, 45);
    // 45 * 10 + 6 = 456 is past 59: the digit alone
    app.handle_key(Key::Char('6'));
    assert_eq!(app.s, 6);
    app.selected_unit = 0;
    app.handle_key(Key::Char('1'));
    app.handle_key(Key::Char('2'));
    app.handle_key(Key::Char('3'));
    assert_eq!(app.h, 23);
    assert_eq!(app.total_secs, 23 * 3600 + 6);
}

#[test]
fn pure_time_edits() {
    assert_eq!(step_up((0, 0, 59), 2), (0, 1, 0));
    assert_eq!(step_up((0, 59, 10), 1), (1, 0, 10));
    assert_eq!(step_up((3, 5, 10), 0), (4, 5, 10));
    assert_eq!(step_down((0, 0, 0), 2), (0, 0, 0));
    assert_eq!(step_down((0, 1, 0), 2), (0, 0, 59));
    assert_eq!(step_down((2, 0, 7), 1), (1, 59, 7));
    assert_eq!(step_down((0, 0, 7), 0), (0, 0, 7));
    assert_eq!(enter_digit((98, 0, 0), 0, 7), (87, 0, 0));
    assert_eq!(enter_digit((0, 5, 0), 1, 9), (0, 59, 0));
    assert_eq!(enter_digit((0, 6, 0), 1, 0), (0, 0, 0));
    for h in 0..3u32 {
        for unit in 0..3usize {
            for m in 0..60u32 {
                let t = (h, m, 59 - m);
                assert_eq!(step_down(step_up(t, unit), unit), t);
            }
        }
    }
}

#[test]
fn key_fits_refuses_overflowing_time() {
    let mut app = App::new(1_193_046, 0, 0, 0, 0, true);
    app.selected_unit = 0;
    assert!(!key_fits(&app, Key::Up));
    assert!(key_fits(&app, Key::Down));
    assert!(key_fits(&app, Key::Char('q')));
    app.selected_unit = 2;
    assert!(key_fits(&app, Key::Up));
}

#[test]
fn friction_above_one_is_accepted_while_setting() {
    let mut app = App::new(0, 1, 0, 1_500_000, 500_000, false);
    assert_eq!(app.wall_friction, 1_500_000);
    assert!(!app.frictions_in_range());
    app.update(100 * MS);
    assert_eq!(app.physics_accumulator, 0);
    // `[` brings it back among the chances
    app.handle_key(Key::Char('['));
    assert_eq!(app.wall_friction, 1_450_000);
    app.handle_key(Key::Char(']'));
    assert_eq!(app.wall_friction, 1_000_000);
    assert!(app.frictions_in_range());
}

#[test]
fn negative_friction_lowers_to_zero() {
    let mut app = App::new(0, 1, 0, -300_000, 0, false);
    app.handle_key(Key::Char('['));
    assert_eq!(app.wall_friction, 0);
    let mut app2 = App::new(0, 1, 0, -300_000, 0, false);
    app2.handle_key(Key::Char(']'));
    assert_eq!(app2.wall_friction, -250_000);
}

#[test]
fn step_needs_frictions_that_are_chances() {
    let mut app = App::new(0, 1, 0, 1_500_000, 0, false);
    app.state = AppState::Running;
    // no step yet: the time fits
    assert!(app.update_fits_exec(10 * MS));
    // a step would draw with the bad friction
    assert!(!app.update_fits_exec(20 * MS));
}

#[test]
fn status_and_title_texts() {
    assert_eq!(sand_timer::timer::status_hint(AppState::Running), " [RUNNING] Space: Pause, t: Clock 12/24h ");
    assert_eq!(sand_timer::timer::status_hint(AppState::Finished), " [FINISHED] r: Reset, t: Clock 12/24h ");
    assert_eq!(sand_timer::clock::clock_title(true), " Digital Clock (24h) ");
    assert_eq!(sand_timer::clock::clock_title(false), " Digital Clock (12h) ");
}

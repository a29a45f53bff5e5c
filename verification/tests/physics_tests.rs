use sand_timer::grid::{Cell, Grid, HEIGHT, WIDTH};
use sand_timer::physics::{adjacent_to_wall, at_gate, first_free, move_grain, shake_chance, stick_chance, Draws};
use sand_timer::timer::{App, AppState};

fn sand_total(g: &Grid) -> usize {
    let mut n = 0;
    for y in 0..HEIGHT {
        for x in 0..WIDTH {
            if g.get(y, x) == Cell::Sand {
                n += 1;
            }
        }
    }
    n
}

fn blank_app() -> App {
    let mut app = App::new(0, 0, 10, 0, 0, true);
    app.grid = Grid::empty();
    app
}

#[test]
fn single_grain_falls_one_row() {
    let mut app = blank_app();
    app.state = AppState::Running;
    app.grid.set(100, 10, Cell::Sand);
    app.step_physics();
    assert_eq!(app.grid.get(100, 10), Cell::Empty);
    assert_eq!(app.grid.get(99, 10), Cell::Sand);
    assert_eq!(sand_total(&app.grid), 1);
}

#[test]
fn grain_on_bottom_row_stays() {
    let mut app = blank_app();
    app.grid.set(0, 30, Cell::Sand);
    app.step_physics();
    assert_eq!(app.grid.get(0, 30), Cell::Sand);
    assert_eq!(sand_total(&app.grid), 1);
}

#[test]
fn closed_neck_holds_grain() {
    let mut app = blank_app();
    app.state = AppState::Running;
    app.initial_sand = 1;
    app.grid.set(80, 50, Cell::Sand);
    app.grid.set(120, 50, Cell::Sand);
    app.gate_allowance = app.unit() - 1;
    app.step_physics();
    assert_eq!(app.grid.get(80, 50), Cell::Sand);
    assert_eq!(app.grid.get(79, 50), Cell::Empty);
    assert_eq!(app.gate_allowance, app.unit() - 1);
}

#[test]
fn neck_spends_one_grain_of_allowance() {
    let mut app = blank_app();
    app.state = AppState::Running;
    app.initial_sand = 1;
    app.grid.set(80, 50, Cell::Sand);
    app.grid.set(120, 50, Cell::Sand);
    app.gate_allowance = app.unit() + 7;
    app.step_physics();
    assert_eq!(app.grid.get(80, 50), Cell::Empty);
    assert_eq!(app.grid.get(79, 50), Cell::Sand);
    assert_eq!(app.gate_allowance, 7);
    assert_eq!(app.state, AppState::Running);
}

#[test]
fn finished_timer_lets_grains_through_for_free() {
    let mut app = blank_app();
    app.state = AppState::Finished;
    app.grid.set(80, 50, Cell::Sand);
    app.gate_allowance = 0;
    app.step_physics();
    assert_eq!(app.grid.get(79, 50), Cell::Sand);
    assert_eq!(app.gate_allowance, 0);
}

#[test]
fn paused_allowance_is_not_spent() {
    let mut app = blank_app();
    app.state = AppState::Paused;
    app.grid.set(80, 50, Cell::Sand);
    app.gate_allowance = app.unit() * 3;
    app.step_physics();
    assert_eq!(app.grid.get(79, 50), Cell::Sand);
    assert_eq!(app.gate_allowance, app.unit() * 3);
}

#[test]
fn empty_upper_bulb_finishes_running_timer() {
    let mut app = blank_app();
    app.state = AppState::Running;
    app.initial_sand = 5;
    app.grid.set(40, 40, Cell::Sand);
    app.step_physics();
    assert_eq!(app.state, AppState::Finished);
}

#[test]
fn grain_above_keeps_timer_running() {
    let mut app = blank_app();
    app.state = AppState::Running;
    app.initial_sand = 5;
    app.grid.set(120, 40, Cell::Sand);
    app.step_physics();
    assert_eq!(app.state, AppState::Running);
}

#[test]
fn timer_without_sand_never_finishes() {
    let mut app = blank_app();
    app.state = AppState::Running;
    app.initial_sand = 0;
    app.step_physics();
    assert_eq!(app.state, AppState::Running);
}

#[test]
fn blocked_grain_with_full_friction_stays() {
    let mut app = blank_app();
    app.wall_friction = 1_000_000;
    app.sand_friction = 1_000_000;
    // a grain resting on a wall cell below it
    app.grid.set(100, 10, Cell::Wall);
    app.grid.set(101, 10, Cell::Sand);
    app.step_physics();
    assert_eq!(app.grid.get(101, 10), Cell::Sand);
    assert_eq!(app.grid.get(100, 10), Cell::Wall);
}

#[test]
fn blocked_grain_without_friction_slides() {
    let mut app = blank_app();
    app.wall_friction = 0;
    app.sand_friction = 0;
    // a grain in the lower bulb resting on a wall cell; below it a wall,
    // so the friction that applies is the wall friction, zero here
    app.grid.set(30, 10, Cell::Wall);
    app.grid.set(31, 10, Cell::Sand);
    app.step_physics();
    assert_eq!(app.grid.get(31, 10), Cell::Empty);
    let left = app.grid.get(30, 9) == Cell::Sand;
    let right = app.grid.get(30, 11) == Cell::Sand;
    assert!(left != right);
}

#[test]
fn steps_keep_walls_and_never_add_sand() {
    let mut app = App::new(0, 0, 3, 200_000, 100_000, true);
    app.state = AppState::Running;
    let walls: Vec<bool> = app.grid.cells.iter().map(|c| *c == Cell::Wall).collect();
    let mut before = sand_total(&app.grid);
    for _ in 0..300 {
        app.gate_allowance = app.unit() * 1000;
        let old: Vec<Cell> = app.grid.cells.clone();
        app.step_physics();
        let after = sand_total(&app.grid);
        assert_eq!(after, before);
        before = after;
        for i in 0..16000 {
            assert_eq!(app.grid.cells[i] == Cell::Wall, walls[i]);
        }
        // every grain stood in its cell or one of the three above it
        for y in 0..HEIGHT as i64 {
            for x in 0..WIDTH as i64 {
                if app.grid.cells[(y * 100 + x) as usize] == Cell::Sand {
                    let mut near = false;
                    for dy in 0..=1i64 {
                        for dx in -1..=1i64 {
                            let (sy, sx) = (y + dy, x + dx);
                            if (0..160).contains(&sy) && (0..100).contains(&sx)
                                && old[(sy * 100 + sx) as usize] == Cell::Sand
                            {
                                near = true;
                            }
                        }
                    }
                    assert!(near);
                }
            }
        }
    }
    assert!(app.fallen_count() > 0);
    assert_eq!(sand_total(&app.grid), app.initial_sand);
    assert_eq!(app.fallen_count(), app.initial_sand - app.source_sand());
}

#[test]
fn running_neck_passes_only_allowed_grains() {
    let mut app = App::new(0, 0, 30, 100_000, 100_000, true);
    app.state = AppState::Running;
    let lower = |a: &App| (0..80).map(|y| (0..WIDTH).filter(|&x| a.grid.get(y, x) == Cell::Sand).count()).sum::<usize>();
    for _ in 0..400 {
        app.gate_allowance = app.unit() * 2 + 5;
        let before = lower(&app);
        app.step_physics();
        let passed = lower(&app) - before;
        assert!(passed <= 2);
        assert_eq!(app.gate_allowance, app.unit() * (2 - passed as u128) + 5);
    }
    // with no allowance nothing more gets through
    for _ in 0..50 {
        app.gate_allowance = 0;
        let before = lower(&app);
        app.step_physics();
        assert_eq!(lower(&app), before);
    }
}

#[test]
fn gate_examples() {
    assert!(at_gate(80, 50, 0));
    assert!(!at_gate(80, 51, 0));
    assert!(at_gate(80, 53, 3));
    assert!(at_gate(80, 47, 3));
    assert!(!at_gate(81, 50, 3));
}

#[test]
fn friction_examples() {
    assert_eq!(stick_chance(true, true, 300_000, 400_000), (300_000, 1_000_000));
    assert_eq!(stick_chance(false, true, 300_000, 400_000), (400_000, 2_000_000));
    assert_eq!(stick_chance(false, false, 300_000, 400_000), (400_000, 1_000_000));
    assert_eq!(shake_chance(true), (1, 5));
    assert_eq!(shake_chance(false), (1, 20));
}

#[test]
fn adjacency_examples() {
    let mut g = Grid::empty();
    assert!(!adjacent_to_wall(&g, 10, 10));
    g.set(10, 11, Cell::Wall);
    assert!(adjacent_to_wall(&g, 10, 10));
    assert!(adjacent_to_wall(&g, 11, 11));
    assert!(!adjacent_to_wall(&g, 12, 12));
    // the edge of the grid is no wall
    assert!(!adjacent_to_wall(&g, 0, 0));
}

#[test]
fn points_list_cells_in_order() {
    let mut g = Grid::empty();
    g.set(5, 7, Cell::Sand);
    g.set(0, 3, Cell::Sand);
    g.set(5, 2, Cell::Sand);
    g.set(1, 1, Cell::Wall);
    assert_eq!(g.points_of(Cell::Sand), vec![(3, 0), (2, 5), (7, 5)]);
    assert_eq!(g.points_of(Cell::Wall), vec![(1, 1)]);
    assert_eq!(g.points_of(Cell::Empty).len(), 16000 - 4);
}

#[test]
fn source_sand_counts_rows_above_neck() {
    let mut g = Grid::empty();
    g.set(80, 50, Cell::Sand);
    g.set(81, 50, Cell::Sand);
    g.set(159, 99, Cell::Sand);
    assert_eq!(g.source_sand(), 2);
}

#[test]
fn first_free_takes_first_open_cell() {
    let mut g = Grid::empty();
    g.set(10, 10, Cell::Sand);
    g.set(10, 11, Cell::Wall);
    assert_eq!(first_free(&g, &[(10, 10), (10, 11), (-1, 5), (10, 12)]), Some((10, 12)));
    assert_eq!(first_free(&g, &[(10, 10), (160, 0), (0, 100)]), None);
    assert_eq!(first_free(&g, &[]), None);
}

#[test]
fn move_grain_falls_without_drawing() {
    let mut cur = Grid::empty();
    cur.set(50, 20, Cell::Sand);
    let mut next = Grid::empty();
    let mut rng = rand::rng();
    let mut allowance: u128 = 5;
    let (dest, draws) = move_grain(&cur, &mut next, &mut rng, 50, 20, 3, &mut allowance, 10, AppState::Running, 0, 0);
    assert_eq!(dest, Some((49, 20)));
    assert_eq!(draws, Draws { right_first: None, sticks: None, shakes: None, shake_right: None });
    assert_eq!(next.get(49, 20), Cell::Sand);
    assert_eq!(allowance, 5);
}

#[test]
fn move_grain_through_open_neck_spends_allowance() {
    let mut cur = Grid::empty();
    cur.set(80, 51, Cell::Sand);
    let mut next = Grid::empty();
    let mut rng = rand::rng();
    let mut allowance: u128 = 25;
    let (dest, _) = move_grain(&cur, &mut next, &mut rng, 80, 51, 3, &mut allowance, 10, AppState::Running, 0, 0);
    assert_eq!(dest, Some((79, 51)));
    assert_eq!(allowance, 15);
}

#[test]
fn move_grain_rescues_into_free_cell() {
    // the grain at (80, 50) may not pass the closed neck and its own cell
    // is already taken: it shakes aside or is rescued into a free neighbour
    let mut cur = Grid::empty();
    cur.set(80, 50, Cell::Sand);
    let mut next = Grid::empty();
    for (y, x) in [(80usize, 50usize), (80, 49), (80, 51), (79, 49), (79, 51), (81, 49), (81, 50)] {
        next.set(y, x, Cell::Sand);
    }
    let mut rng = rand::rng();
    let mut allowance: u128 = 0;
    let (dest, draws) = move_grain(&cur, &mut next, &mut rng, 80, 50, 3, &mut allowance, 10, AppState::Running, 0, 0);
    // below (79, 50) is the first free cell of the rescue order
    assert_eq!(dest, Some((79, 50)));
    assert_eq!(draws.right_first, None);
    assert!(draws.shakes.is_some());
    assert_eq!(allowance, 0);
}

#[test]
fn move_grain_lost_when_boxed_in() {
    let mut cur = Grid::empty();
    cur.set(100, 30, Cell::Sand);
    let mut next = Grid::empty();
    for dy in 0..3usize {
        for dx in 0..3usize {
            next.set(99 + dy, 29 + dx, Cell::Sand);
        }
    }
    let mut rng = rand::rng();
    let mut allowance: u128 = 0;
    let (dest, _) = move_grain(&cur, &mut next, &mut rng, 100, 30, 3, &mut allowance, 10, AppState::Running, 1_000_000, 1_000_000);
    assert_eq!(dest, None);
}

#[test]
fn draws_record_their_chances() {
    // a grain of the upper bulb, away from walls, with a grain below it:
    // it draws a side and whether it sticks, with half the sand friction
    let mut cur = Grid::empty();
    cur.set(101, 10, Cell::Sand);
    let mut next = Grid::empty();
    next.set(100, 10, Cell::Sand);
    let mut rng = rand::rng();
    let mut allowance: u128 = 0;
    let (_, draws) = move_grain(&cur, &mut next, &mut rng, 101, 10, 3, &mut allowance, 10, AppState::Running, 0, 300_000);
    let side = draws.right_first.unwrap();
    assert_eq!((side.numerator, side.denominator), (1, 2));
    let stick = draws.sticks.unwrap();
    assert_eq!((stick.numerator, stick.denominator), (300_000, 2_000_000));
    // the same grain below the neck draws with the full sand friction
    let mut cur2 = Grid::empty();
    cur2.set(51, 10, Cell::Sand);
    let mut next2 = Grid::empty();
    next2.set(50, 10, Cell::Sand);
    let (_, draws2) = move_grain(&cur2, &mut next2, &mut rng, 51, 10, 3, &mut allowance, 10, AppState::Running, 0, 300_000);
    let stick2 = draws2.sticks.unwrap();
    assert_eq!((stick2.numerator, stick2.denominator), (300_000, 1_000_000));
    // beside a wall it draws with the wall friction
    let mut cur3 = Grid::empty();
    cur3.set(51, 10, Cell::Sand);
    cur3.set(51, 11, Cell::Wall);
    let mut next3 = Grid::empty();
    next3.set(50, 10, Cell::Sand);
    let (_, draws3) = move_grain(&cur3, &mut next3, &mut rng, 51, 10, 3, &mut allowance, 10, AppState::Running, 700_000, 300_000);
    let stick3 = draws3.sticks.unwrap();
    assert_eq!((stick3.numerator, stick3.denominator), (700_000, 1_000_000));
}

#[test]
fn stuck_grain_draws_a_shake() {
    let mut cur = Grid::empty();
    cur.set(120, 40, Cell::Sand);
    let mut next = Grid::empty();
    next.set(120, 40, Cell::Sand);
    let mut rng = rand::rng();
    let mut allowance: u128 = 0;
    let (dest, draws) = move_grain(&cur, &mut next, &mut rng, 120, 40, 3, &mut allowance, 10, AppState::Running, 0, 0);
    // it falls first: the cell below is free
    assert_eq!(dest, Some((119, 40)));
    assert!(draws.shakes.is_none());
    let mut next2 = Grid::empty();
    next2.set(120, 40, Cell::Sand);
    next2.set(119, 40, Cell::Sand);
    next2.set(119, 39, Cell::Sand);
    next2.set(119, 41, Cell::Sand);
    let (_, draws2) = move_grain(&cur, &mut next2, &mut rng, 120, 40, 3, &mut allowance, 10, AppState::Running, 0, 0);
    let shake = draws2.shakes.unwrap();
    assert_eq!((shake.numerator, shake.denominator), (1, 5));
}

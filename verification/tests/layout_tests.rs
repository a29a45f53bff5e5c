use sand_timer::grid::{Cell, HEIGHT, WIDTH};
use sand_timer::layout::{build_layout, estimated_capacity, hole_radius_for, layout_at, total_seconds};
use sand_timer::timer::{App, AppState};

/// The neck's radius as the float formula of the glass computes it.
fn float_radius(total_secs: u32) -> i32 {
    let mut estimated = 0.0f64;
    for y in 81..145i32 {
        let dy = (y - 80).abs();
        for x in 2..98i32 {
            let dx = (x - 50).abs();
            if dx as f32 <= (dy as f32 / 1.1) {
                estimated += 1.0;
            }
        }
    }
    let gps = estimated / total_secs as f64;
    let required_width = (gps / 30.0).ceil() as i32;
    (required_width / 2).max(0)
}

/// The glass and its sand as the float formula of the glass draws them.
fn float_glass(r: i32) -> (Vec<Vec<Cell>>, usize) {
    let mut grid = vec![vec![Cell::Empty; 100]; 160];
    for y in 0..160i32 {
        for x in 0..100i32 {
            let dx = (x - 50).abs();
            let dy = (y - 80).abs();
            if x < 2 || x >= 98 || y < 4 || y >= 156 {
                grid[y as usize][x as usize] = Cell::Wall;
                continue;
            }
            if dy == 0 {
                if dx > r {
                    grid[y as usize][x as usize] = Cell::Wall;
                }
            } else if dx as f32 > (dy as f32 / 1.1) + r as f32 {
                grid[y as usize][x as usize] = Cell::Wall;
            }
        }
    }
    let mut count = 0;
    for y in 81..145usize {
        for d in 0..50i32 {
            for sign in [-1, 1] {
                let x = 50 + d * sign;
                if x >= 0 && x < 100 && grid[y][x as usize] == Cell::Empty {
                    grid[y][x as usize] = Cell::Sand;
                    count += 1;
                }
                if d == 0 {
                    break;
                }
            }
        }
    }
    (grid, count)
}

#[test]
fn capacity_matches_float_cone() {
    let mut estimated = 0u32;
    for y in 81..145i32 {
        let dy = (y - 80).abs();
        for x in 2..98i32 {
            let dx = (x - 50).abs();
            if dx as f32 <= (dy as f32 / 1.1) {
                estimated += 1;
            }
        }
    }
    assert_eq!(estimated_capacity(), estimated);
}

#[test]
fn hole_radius_matches_float_formula() {
    for t in 1..=20000u32 {
        assert_eq!(hole_radius_for(t), float_radius(t), "total {}", t);
    }
    for t in [86_399u32, 359_999, 1_000_000, 123_456_789, u32::MAX] {
        assert_eq!(hole_radius_for(t), float_radius(t), "total {}", t);
    }
}

#[test]
fn hole_radius_examples() {
    let cap = estimated_capacity() as u64;
    // one second: the whole capacity must pass in one second
    assert_eq!(hole_radius_for(1) as u64, ((cap + 29) / 30) / 2);
    // long timers get the narrowest neck
    assert_eq!(hole_radius_for(3600), 0);
}

#[test]
fn longer_timer_narrower_neck() {
    let mut prev = hole_radius_for(1);
    for t in 2..5000u32 {
        let r = hole_radius_for(t);
        assert!(r <= prev);
        assert!(r >= 0);
        prev = r;
    }
}

#[test]
fn total_seconds_examples() {
    assert_eq!(total_seconds(1, 2, 3), 3723);
    assert_eq!(total_seconds(0, 0, 0), 1);
    assert_eq!(total_seconds(0, 0, 7), 7);
}

#[test]
fn glass_matches_float_drawing() {
    for r in 0..=300i32 {
        let (expected, _) = float_glass(r);
        for y in 0..HEIGHT {
            for x in 0..WIDTH {
                assert_eq!(layout_at(r, y, x), expected[y][x], "r {} y {} x {}", r, y, x);
            }
        }
    }
}

#[test]
fn build_layout_counts_its_sand() {
    for r in [0i32, 1, 5, 40, 267] {
        let (grid, count) = build_layout(r);
        let (expected, expected_count) = float_glass(r);
        assert_eq!(count, expected_count);
        for y in 0..HEIGHT {
            for x in 0..WIDTH {
                assert_eq!(grid.get(y, x), expected[y][x]);
            }
        }
    }
}

#[test]
fn new_timer_is_set_and_full() {
    let app = App::new(0, 1, 30, 300_000, 100_000, true);
    assert_eq!(app.state, AppState::Setting);
    assert_eq!(app.selected_unit, 2);
    assert_eq!(app.total_secs, 90);
    assert_eq!(app.hole_radius, float_radius(90));
    let (expected, count) = float_glass(app.hole_radius);
    assert_eq!(app.initial_sand, count);
    assert_eq!(app.source_sand(), app.initial_sand);
    assert_eq!(app.fallen_count(), 0);
    for y in 0..HEIGHT {
        for x in 0..WIDTH {
            assert_eq!(app.grid.get(y, x), expected[y][x]);
        }
    }
    assert_eq!(app.gate_allowance, 0);
    assert_eq!(app.elapsed, 0);
    assert_eq!(app.physics_accumulator, 0);
}

#[test]
fn zero_time_counts_as_one_second() {
    let app = App::new(0, 0, 0, 0, 0, false);
    assert_eq!(app.total_secs, 1);
    assert_eq!(app.hole_radius, float_radius(1));
}

#[test]
fn fresh_glass_mirror_symmetric() {
    let app = App::new(0, 0, 5, 0, 0, true);
    for y in 0..HEIGHT {
        for d in 0..=47usize {
            assert_eq!(app.grid.get(y, 50 - d), app.grid.get(y, 50 + d));
        }
    }
    // column 98 is frame while column 2 is not
    assert_eq!(app.grid.get(140, 98), Cell::Wall);
    assert_eq!(app.grid.get(140, 2), Cell::Sand);
}

#[test]
fn sand_starts_in_upper_bulb_only() {
    let app = App::new(0, 10, 0, 0, 0, true);
    for y in 0..=80usize {
        for x in 0..WIDTH {
            assert_ne!(app.grid.get(y, x), Cell::Sand);
        }
    }
    assert_eq!(app.source_sand(), app.initial_sand);
}

#[test]
fn only_length_shapes_the_glass() {
    let a = App::new(0, 1, 0, 0, 0, true);
    let b = App::new(0, 0, 60, 700_000, 2_000_000, false);
    assert_eq!(a.grid.cells, b.grid.cells);
    assert_eq!(a.initial_sand, b.initial_sand);
    assert_eq!(a.hole_radius, b.hole_radius);
}

#[test]
fn longer_timer_holds_no_more_sand() {
    let mut prev = App::new(0, 0, 1, 0, 0, true).initial_sand;
    for s in [2u32, 5, 10, 30, 60, 121, 122, 600] {
        let n = App::new(0, 0, s, 0, 0, true).initial_sand;
        assert!(n <= prev);
        prev = n;
    }
}

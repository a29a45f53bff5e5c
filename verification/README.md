# sand_timer

A terminal hourglass. Sand falls through the neck of a glass drawn on a
100 × 160 grid. The neck is sized from the time that the user sets, and
while the timer runs it lets grains through at no more than the rate of
all the sand poured in per set time.

- `src/` — the library, verified with Verus:
  - `grid.rs` — cells, the flat grid, counting grains;
  - `layout.rs` — the timer's length, the neck's width, the glass and its
    sand when the timer is set;
  - `physics.rs` — one step of the sand, grain by grain, with the draws of
    chance it makes;
  - `timer.rs` — the timer's state, its construction and its clock;
  - `settings.rs` — the keys and what they do to the settings;
  - `clock.rs` — the time of day as text and in large block letters;
  - `rng.rs` — the source of chance (`rand`);
  - `laws.rs` — properties that span several functions.
- `app/` — the terminal program: settings file, screen, keyboard, wall clock.
- `tests/` — tests of the library.

Chances and frictions are held as integers (frictions in millionths), and
the neck's allowance is counted in units of `1 / (seconds × 10^9)` of a
grain, so that the library holds no floating-point numbers.

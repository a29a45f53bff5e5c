use sand_timer::clock::{clock_text, glyph_row, to_big};

#[test]
fn clock_24_hours() {
    assert_eq!(clock_text(7, 8, 9, 0, true), "07:08:09");
    assert_eq!(clock_text(23, 59, 0, 0, true), "23:59:00");
}

#[test]
fn clock_12_hours() {
    assert_eq!(clock_text(0, 5, 9, 0, false), "12:05:09 AM");
    assert_eq!(clock_text(12, 0, 0, 0, false), "12:00:00 PM");
    assert_eq!(clock_text(13, 30, 1, 0, false), "01:30:01 PM");
    assert_eq!(clock_text(11, 59, 59, 999_999_999, false), "11:59:59 AM");
}

#[test]
fn clock_leap_second() {
    assert_eq!(clock_text(23, 59, 59, 1_500_000_000, true), "23:59:60");
}

#[test]
fn big_letters() {
    let lines = to_big("1:");
    assert_eq!(lines.len(), 5);
    assert_eq!(lines[0], "  █     ");
    assert_eq!(lines[1], "  █  ▄  ");
    assert_eq!(lines[3], "  █  ▀  ");
    assert_eq!(lines[4], "  █     ");
}

#[test]
fn big_letters_of_clock() {
    let lines = to_big("12:00:00 PM");
    for line in &lines {
        assert_eq!(line.chars().count(), 11 * 4);
    }
    assert!(lines[0].starts_with("  █ ███ "));
}

#[test]
fn unknown_characters_are_blank() {
    assert_eq!(glyph_row('x', 2), "   ");
    assert_eq!(to_big("")[0], "");
    assert_eq!(to_big("?")[4], "    ");
}

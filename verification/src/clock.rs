//! The digital clock beside the glass: the time of day as text, and that
//! text drawn in large block letters.

use vstd::prelude::*;
use chrono::NaiveTime;

verus! {

/// The glyph of `c` in large block letters: five rows of three columns.
/// Characters other than digits, `:`, `A`, `P`, `M` and space are blank.
pub open spec fn glyph(c: char, row: int) -> Seq<char> {
    let rows: Seq<&str> = if c == '0' {
        seq!["███", "█ █", "█ █", "█ █", "███"]
    } else if c == '1' {
        seq!["  █", "  █", "  █", "  █", "  █"]
    } else if c == '2' {
        seq!["███", "  █", "███", "█  ", "███"]
    } else if c == '3' {
        seq!["███", "  █", "███", "  █", "███"]
    } else if c == '4' {
        seq!["█ █", "█ █", "███", "  █", "  █"]
    } else if c == '5' {
        seq!["███", "█  ", "███", "  █", "███"]
    } else if c == '6' {
        seq!["███", "█  ", "███", "█ █", "███"]
    } else if c == '7' {
        seq!["███", "  █", "  █", "  █", "  █"]
    } else if c == '8' {
        seq!["███", "█ █", "███", "█ █", "███"]
    } else if c == '9' {
        seq!["███", "█ █", "███", "  █", "███"]
    } else if c == ':' {
        seq!["   ", " ▄ ", "   ", " ▀ ", "   "]
    } else if c == 'A' {
        seq![" ██", "█ █", "███", "█ █", "█ █"]
    } else if c == 'P' {
        seq!["██ ", "█ █", "██ ", "█  ", "█  "]
    } else if c == 'M' {
        seq!["█ █", "███", "█ █", "█ █", "█ █"]
    } else {
        seq!["   ", "   ", "   ", "   ", "   "]
    };
    rows[row]@
}

/// Row `row` of the large rendering of `cs`: the glyph row of every
/// character, each followed by a space.
pub open spec fn big_line(cs: Seq<char>, row: int) -> Seq<char>
    decreases cs.len(),
{
    if cs.len() == 0 {
        Seq::empty()
    } else {
        big_line(cs.drop_last(), row) + glyph(cs.last(), row) + seq![' ']
    }
}

/// Row `row` of the glyph of `c`.
pub fn glyph_row(c: char, row: usize) -> (g: &'static str)
    requires
        row < 5,
    ensures
        g@ == glyph(c, row as int),
{
    let rows: [&'static str; 5] = if c == '0' {
        ["███", "█ █", "█ █", "█ █", "███"]
    } else if c == '1' {
        ["  █", "  █", "  █", "  █", "  █"]
    } else if c == '2' {
        ["███", "  █", "███", "█  ", "███"]
    } else if c == '3' {
        ["███", "  █", "███", "  █", "███"]
    } else if c == '4' {
        ["█ █", "█ █", "███", "  █", "  █"]
    } else if c == '5' {
        ["███", "█  ", "███", "  █", "███"]
    } else if c == '6' {
        ["███", "█  ", "███", "█ █", "███"]
    } else if c == '7' {
        ["███", "  █", "  █", "  █", "  █"]
    } else if c == '8' {
        ["███", "█ █", "███", "█ █", "███"]
    } else if c == '9' {
        ["███", "█ █", "███", "  █", "███"]
    } else if c == ':' {
        ["   ", " ▄ ", "   ", " ▀ ", "   "]
    } else if c == 'A' {
        [" ██", "█ █", "███", "█ █", "█ █"]
    } else if c == 'P' {
        ["██ ", "█ █", "██ ", "█  ", "█  "]
    } else if c == 'M' {
        ["█ █", "███", "█ █", "█ █", "█ █"]
    } else {
        ["   ", "   ", "   ", "   ", "   "]
    };
    rows[row]
}

/// `s` in large block letters: five lines, each the glyph rows of its
/// characters followed by a space.
pub fn to_big(s: &str) -> (lines: Vec<String>)
    ensures
        lines@.len() == 5,
        forall|i: int| 0 <= i < 5 ==> #[trigger] lines@[i]@ == big_line(s@, i),
{
    let n = s.unicode_len();
    let mut lines: Vec<String> = Vec::new();
    let mut row: usize = 0;
    while row < 5
        invariant
            row <= 5,
            n == s@.len(),
            lines@.len() == row,
            forall|i: int| 0 <= i < row ==> #[trigger] lines@[i]@ == big_line(s@, i),
        decreases 5 - row,
    {
        let mut line = String::new();
        let mut k: usize = 0;
        while k < n
            invariant
                row < 5,
                k <= n,
                n == s@.len(),
                line@ == big_line(s@.take(k as int), row as int),
            decreases n - k,
        {
            let c = s.get_char(k);
            line.append(glyph_row(c, row));
            line.append(" ");
            proof {
                assert(s@.take(k + 1).drop_last() == s@.take(k as int));
                reveal_strlit(" ");
            }
            k = k + 1;
        }
        proof {
            assert(s@.take(n as int) == s@);
        }
        lines.push(line);
        row = row + 1;
    }
    lines
}

/// The decimal digit `d`.
pub open spec fn digit_char(d: int) -> char {
    ('0' as int + d) as char
}

/// `v` as two decimal digits, with a leading zero below ten.
pub open spec fn two_digits(v: int) -> Seq<char> {
    seq![digit_char(v / 10), digit_char(v % 10)]
}

/// The hour on a 12-hour dial: 12 for noon and midnight.
pub open spec fn hour12(h: int) -> int {
    if h % 12 == 0 {
        12
    } else {
        h % 12
    }
}

/// The time of day as the clock shows it: `HH:MM:SS` on a 24-hour clock,
/// `II:MM:SS AM` or `II:MM:SS PM` on a 12-hour one. The seconds count the
/// whole seconds of `nano` too, which reach 60 during a leap second.
pub open spec fn clock_spec(hour: int, minute: int, second: int, nano: int, is_24h: bool) -> Seq<
    char,
> {
    let secs = second + nano / 1_000_000_000;
    let hms = two_digits(minute) + seq![':'] + two_digits(secs);
    if is_24h {
        two_digits(hour) + seq![':'] + hms
    } else {
        two_digits(hour12(hour)) + seq![':'] + hms + seq![' '] + if hour >= 12 {
            seq!['P', 'M']
        } else {
            seq!['A', 'M']
        }
    }
}

/// A time of day that `chrono` accepts: a nanosecond count of a second or
/// more stands for a leap second and needs second 59.
pub open spec fn valid_time(hour: int, minute: int, second: int, nano: int) -> bool {
    &&& hour < 24
    &&& minute < 60
    &&& second < 60
    &&& nano < 2_000_000_000
    &&& (nano >= 1_000_000_000 ==> second == 59)
}

/// `chrono::NaiveTime::from_hms_nano_opt` followed by `format` and
/// `to_string`. The crate's source builds the time for exactly the inputs
/// of `valid_time` (the `unwrap` panics on the others, which `requires`
/// leaves out) and, for these two patterns, writes hours (`%H`, or `%I`
/// on a 12-hour dial where 0 reads 12), minutes and seconds (plus any whole
/// second in the nanoseconds) as two zero-padded digits, and `%p` as `AM`
/// before noon and `PM` from noon.
#[verifier::external_body]
fn format_time_of_day(hour: u32, minute: u32, second: u32, nano: u32, pattern: &str) -> (text: String)
    requires
        valid_time(hour as int, minute as int, second as int, nano as int),
        pattern@ == "%H:%M:%S"@ || pattern@ == "%I:%M:%S %p"@,
    ensures
        pattern@ == "%H:%M:%S"@ ==> text@ == clock_spec(
            hour as int,
            minute as int,
            second as int,
            nano as int,
            true,
        ),
        pattern@ == "%I:%M:%S %p"@ ==> text@ == clock_spec(
            hour as int,
            minute as int,
            second as int,
            nano as int,
            false,
        ),
{
    NaiveTime::from_hms_nano_opt(hour, minute, second, nano).unwrap().format(pattern).to_string()
}

/// The time of day as the clock shows it, in the 24-hour or the 12-hour
/// format.
pub fn clock_text(hour: u32, minute: u32, second: u32, nano: u32, is_24h: bool) -> (text: String)
    requires
        valid_time(hour as int, minute as int, second as int, nano as int),
    ensures
        text@ == clock_spec(hour as int, minute as int, second as int, nano as int, is_24h),
{
    if is_24h {
        format_time_of_day(hour, minute, second, nano, "%H:%M:%S")
    } else {
        format_time_of_day(hour, minute, second, nano, "%I:%M:%S %p")
    }
}

/// The glyphs of the digits, row by row from the top.
pub proof fn lemma_digit_glyphs()
    ensures
        glyph('0', 0) == "███"@ && glyph('0', 1) == "█ █"@ && glyph('0', 2) == "█ █"@ && glyph('0', 3) == "█ █"@ && glyph('0', 4) == "███"@,
        glyph('1', 0) == "  █"@ && glyph('1', 1) == "  █"@ && glyph('1', 2) == "  █"@ && glyph('1', 3) == "  █"@ && glyph('1', 4) == "  █"@,
        glyph('2', 0) == "███"@ && glyph('2', 1) == "  █"@ && glyph('2', 2) == "███"@ && glyph('2', 3) == "█  "@ && glyph('2', 4) == "███"@,
        glyph('3', 0) == "███"@ && glyph('3', 1) == "  █"@ && glyph('3', 2) == "███"@ && glyph('3', 3) == "  █"@ && glyph('3', 4) == "███"@,
        glyph('4', 0) == "█ █"@ && glyph('4', 1) == "█ █"@ && glyph('4', 2) == "███"@ && glyph('4', 3) == "  █"@ && glyph('4', 4) == "  █"@,
        glyph('5', 0) == "███"@ && glyph('5', 1) == "█  "@ && glyph('5', 2) == "███"@ && glyph('5', 3) == "  █"@ && glyph('5', 4) == "███"@,
        glyph('6', 0) == "███"@ && glyph('6', 1) == "█  "@ && glyph('6', 2) == "███"@ && glyph('6', 3) == "█ █"@ && glyph('6', 4) == "███"@,
        glyph('7', 0) == "███"@ && glyph('7', 1) == "  █"@ && glyph('7', 2) == "  █"@ && glyph('7', 3) == "  █"@ && glyph('7', 4) == "  █"@,
        glyph('8', 0) == "███"@ && glyph('8', 1) == "█ █"@ && glyph('8', 2) == "███"@ && glyph('8', 3) == "█ █"@ && glyph('8', 4) == "███"@,
        glyph('9', 0) == "███"@ && glyph('9', 1) == "█ █"@ && glyph('9', 2) == "███"@ && glyph('9', 3) == "  █"@ && glyph('9', 4) == "███"@,
        glyph(':', 0) == "   "@ && glyph(':', 1) == " ▄ "@ && glyph(':', 2) == "   "@ && glyph(':', 3) == " ▀ "@ && glyph(':', 4) == "   "@,
        glyph('A', 0) == " ██"@ && glyph('A', 1) == "█ █"@ && glyph('A', 2) == "███"@ && glyph('A', 3) == "█ █"@ && glyph('A', 4) == "█ █"@,
        glyph('P', 0) == "██ "@ && glyph('P', 1) == "█ █"@ && glyph('P', 2) == "██ "@ && glyph('P', 3) == "█  "@ && glyph('P', 4) == "█  "@,
        glyph('M', 0) == "█ █"@ && glyph('M', 1) == "███"@ && glyph('M', 2) == "█ █"@ && glyph('M', 3) == "█ █"@ && glyph('M', 4) == "█ █"@,
        glyph(' ', 0) == "   "@ && glyph(' ', 1) == "   "@ && glyph(' ', 2) == "   "@ && glyph(' ', 3) == "   "@ && glyph(' ', 4) == "   "@,
{
}

/// Every glyph row is three characters wide, so each line of large
/// letters has four characters per character of the text.
pub proof fn lemma_glyph_width(c: char, row: int)
    requires
        0 <= row < 5,
    ensures
        glyph(c, row).len() == 3,
{
    reveal_strlit("███");
    reveal_strlit("█ █");
    reveal_strlit("  █");
    reveal_strlit("█  ");
    reveal_strlit("   ");
    reveal_strlit(" ▄ ");
    reveal_strlit(" ▀ ");
    reveal_strlit(" ██");
    reveal_strlit("██ ");
}

/// No two digits are drawn alike: some row of their glyphs differs.
pub proof fn lemma_digits_distinct(c1: char, c2: char)
    requires
        '0' <= c1 <= '9',
        '0' <= c2 <= '9',
        c1 != c2,
    ensures
        exists|row: int| 0 <= row < 5 && #[trigger] glyph(c1, row) != glyph(c2, row),
{
    reveal_strlit("███");
    reveal_strlit("█ █");
    reveal_strlit("  █");
    reveal_strlit("█  ");
    assert("███"@[0] != "  █"@[0]);
    assert("███"@[1] != "█ █"@[1]);
    assert("  █"@[0] != "█ █"@[0]);
    assert("█  "@[2] != "  █"@[2]);
    assert("█  "@[0] != "  █"@[0]);
    assert("█  "@[2] != "█ █"@[2]);
    assert("███"@[1] != "█  "@[1]);
    if glyph(c1, 0) != glyph(c2, 0) {
        assert(glyph(c1, 0) != glyph(c2, 0));
    } else if glyph(c1, 1) != glyph(c2, 1) {
        assert(glyph(c1, 1) != glyph(c2, 1));
    } else if glyph(c1, 2) != glyph(c2, 2) {
        assert(glyph(c1, 2) != glyph(c2, 2));
    } else if glyph(c1, 3) != glyph(c2, 3) {
        assert(glyph(c1, 3) != glyph(c2, 3));
    } else {
        assert(glyph(c1, 4) != glyph(c2, 4));
    }
}

/// Each line of `s` in large letters has four characters per character
/// of `s`.
pub proof fn lemma_big_line_len(cs: Seq<char>, row: int)
    requires
        0 <= row < 5,
    ensures
        big_line(cs, row).len() == 4 * cs.len(),
    decreases cs.len(),
{
    if cs.len() > 0 {
        lemma_big_line_len(cs.drop_last(), row);
        lemma_glyph_width(cs.last(), row);
    }
}

/// The title of the clock's panel, which names its format.
pub fn clock_title(is_24h: bool) -> (t: &'static str)
    ensures
        t@ == if is_24h {
            " Digital Clock (24h) "@
        } else {
            " Digital Clock (12h) "@
        },
{
    if is_24h {
        " Digital Clock (24h) "
    } else {
        " Digital Clock (12h) "
    }
}

} // verus!

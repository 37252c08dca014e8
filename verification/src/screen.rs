//! What the screen shows: the clock, the art, the progress bar, and the
//! main and settings screens laid out for the terminal's size.

use vstd::prelude::*;

use crate::settings::{is_digit, phase_label, ClockStyle, Config, Phase};
use crate::text::{
    append_chars, append_str, chars_of, decimal, decimal_digits, lines_of, push_row, push_rows,
    repeat, repeat_char, rows_view, split_lines, strings_of, strings_view, trim_end, trimmed_end,
    string_of, zero_pad, zero_padded,
};
use crate::timer::{phase_seconds, seconds_left, seconds_of, StateView};
use crate::width::{
    all_printable_ascii, center, center_str, centered, display_columns, display_width,
    is_printable_ascii, truncate_to_width, truncated,
};

verus! {

/// The large digits of the digital clock, five rows each; the last glyph is
/// the colon.
pub const DIGITS: [[&'static str; 5]; 11] = [
    [" __ ", "|  |", "|  |", "|  |", "|__|"],
    ["    ", "   |", "   |", "   |", "   |"],
    [" __ ", "   |", " __|", "|   ", "|__ "],
    [" __ ", "   |", " __|", "   |", " __|"],
    ["    ", "|  |", "|__|", "   |", "   |"],
    [" __ ", "|   ", "|__ ", "   |", " __|"],
    [" __ ", "|   ", "|__ ", "|  |", "|__|"],
    [" __ ", "   |", "   |", "   |", "   |"],
    [" __ ", "|  |", "|__|", "|  |", "|__|"],
    [" __ ", "|  |", "|__|", "   |", " __|"],
    [" ", "o", " ", "o", " "],
];

/// The time left as minutes and seconds, each of at least two digits,
/// seconds rounded up: `MM:SS`.
pub open spec fn mmss(remaining_ms: u128) -> Seq<char> {
    let total = seconds_left(remaining_ms) as nat;
    zero_padded(total / 60, 2) + ":"@ + zero_padded(total % 60, 2)
}

/// The time left as `MM:SS`, seconds rounded up.
pub fn human_mmss(remaining_ms: u128) -> (text: Vec<char>)
    ensures
        text@ == mmss(remaining_ms),
{
    let total = crate::timer::ceil_seconds(remaining_ms);
    let mut text = zero_pad(total / 60, 2);
    append_str(&mut text, ":");
    let seconds = zero_pad(total % 60, 2);
    append_chars(&mut text, &seconds);
    text
}

/// The time left as the plain clock shows it: dashes while idle.
pub open spec fn plain_clock(state: StateView) -> Seq<char> {
    if state.phase == Phase::Idle {
        "--:--"@
    } else {
        mmss(state.remaining_ms)
    }
}

/// The glyph of the digital clock that stands for a character: the colon's
/// own, a digit's own, the zero's for anything else.
pub open spec fn glyph_index(c: char) -> int {
    if c == ':' {
        10
    } else if is_digit(c) {
        c as int - '0' as int
    } else {
        0
    }
}

/// The parts joined with a space between them.
pub open spec fn join_spaced(parts: Seq<Seq<char>>) -> Seq<char>
    decreases parts.len(),
{
    if parts.len() == 0 {
        Seq::<char>::empty()
    } else if parts.len() == 1 {
        parts[0]
    } else {
        join_spaced(parts.drop_last()) + seq![' '] + parts.last()
    }
}

/// A row of the digital clock for some text: that row of each character's
/// glyph, spaced, without trailing white space.
pub open spec fn digital_row(text: Seq<char>, row: int) -> Seq<char> {
    trim_end(join_spaced(text.map_values(|c: char| DIGITS@[glyph_index(c)]@[row]@)))
}

/// The lines of the clock in the configured style, for a space
/// `available_width` columns wide.
pub open spec fn clock_rows(state: StateView, config: Config, available_width: u16) -> Seq<
    Seq<char>,
> {
    let plain = plain_clock(state);
    match config.clock_style {
        ClockStyle::Classic => seq![plain],
        ClockStyle::Minimal => if state.phase == Phase::Idle {
            seq!["ready"@]
        } else {
            let total = seconds_left(state.remaining_ms) as nat;
            seq![
                crate::text::decimal_digits(total / 60) + "m "@ + zero_padded(total % 60, 2)
                    + "s"@,
            ]
        },
        ClockStyle::Digital => if state.phase != Phase::Idle && available_width >= 25 {
            Seq::new(5, |row: int| digital_row(plain, row))
        } else {
            seq![plain]
        },
    }
}

/// The minimal clock of a running phase is one line: the whole minutes
/// left, `m `, the seconds beyond them as two digits, and `s`, the seconds
/// left counted up to the next whole second (1 500 000 ms show as
/// `25m 00s`, 61 000 ms as `1m 01s`); while idle it reads `ready`.
pub proof fn lemma_minimal_clock(state: StateView, config: Config, available_width: u16)
    requires
        config.clock_style == ClockStyle::Minimal,
    ensures
        state.phase != Phase::Idle ==> clock_rows(state, config, available_width) == seq![
            decimal_digits(((state.remaining_ms + 999) / 1000) as nat / 60) + "m "@ + zero_padded(
                ((state.remaining_ms + 999) / 1000) as nat % 60,
                2,
            ) + "s"@,
        ],
        state.phase == Phase::Idle ==> clock_rows(state, config, available_width) == seq!["ready"@],
{
}

/// The classic clock, and the digital one on a narrow screen or while idle,
/// is one line: `MM:SS` of the time left (seconds counted up), or `--:--`
/// while idle.
pub proof fn lemma_plain_clock(state: StateView, config: Config, available_width: u16)
    requires
        config.clock_style == ClockStyle::Classic || (config.clock_style == ClockStyle::Digital && (
        state.phase == Phase::Idle || available_width < 25)),
    ensures
        clock_rows(state, config, available_width) == seq![
            if state.phase == Phase::Idle {
                "--:--"@
            } else {
                zero_padded(((state.remaining_ms + 999) / 1000) as nat / 60, 2) + ":"@ + zero_padded(
                    ((state.remaining_ms + 999) / 1000) as nat % 60,
                    2,
                )
            },
        ],
{
}

fn glyph(c: char) -> (index: usize)
    ensures
        index == glyph_index(c),
        index < 11,
{
    if c == ':' {
        10
    } else if '0' <= c && c <= '9' {
        (c as u32 - '0' as u32) as usize
    } else {
        0
    }
}

/// A row of the digital clock for the text.
fn digital_line(text: &Vec<char>, row: usize) -> (line: Vec<char>)
    requires
        row < 5,
    ensures
        line@ == digital_row(text@, row as int),
{
    let ghost parts = text@.map_values(|c: char| DIGITS@[glyph_index(c)]@[row as int]@);
    let mut joined: Vec<char> = Vec::new();
    for i in 0..text.len()
        invariant
            row < 5,
            parts == text@.map_values(|c: char| DIGITS@[glyph_index(c)]@[row as int]@),
            joined@ == join_spaced(parts.take(i as int)),
    {
        if i > 0 {
            joined.push(' ');
        }
        let glyph_row = DIGITS[glyph(text[i])][row];
        append_str(&mut joined, glyph_row);
        let ghost t = parts.take(i + 1);
        assert(t.drop_last() =~= parts.take(i as int));
        assert(t.last() == glyph_row@);
        if i == 0 {
            assert(t =~= seq![glyph_row@]);
            assert(Seq::<char>::empty() + glyph_row@ =~= glyph_row@);
        }
    }
    assert(parts.take(text@.len() as int) =~= parts);
    trimmed_end(&joined)
}

/// The lines of the clock in the configured style.
pub fn clock_lines(state: &crate::timer::State, config: &Config, available_width: u16) -> (lines:
    Vec<Vec<char>>)
    ensures
        rows_view(lines@) == clock_rows(state@, *config, available_width),
        1 <= lines@.len() <= 5,
{
    let plain = if state.phase == Phase::Idle {
        chars_of("--:--")
    } else {
        human_mmss(state.remaining_ms)
    };
    let mut lines: Vec<Vec<char>> = Vec::new();
    match config.clock_style {
        ClockStyle::Classic => {
            lines.push(plain);
        },
        ClockStyle::Minimal => {
            if state.phase == Phase::Idle {
                lines.push(chars_of("ready"));
            } else {
                let total = crate::timer::ceil_seconds(state.remaining_ms);
                let mut text = crate::text::decimal(total / 60);
                append_str(&mut text, "m ");
                let seconds = zero_pad(total % 60, 2);
                append_chars(&mut text, &seconds);
                append_str(&mut text, "s");
                lines.push(text);
            }
        },
        ClockStyle::Digital => {
            if state.phase != Phase::Idle && available_width >= 25 {
                for row in 0..5usize
                    invariant
                        rows_view(lines@) == Seq::new(
                            row as nat,
                            |r: int| digital_row(plain@, r),
                        ),
                {
                    let line = digital_line(&plain, row);
                    let ghost before = rows_view(lines@);
                    assert(before.len() == lines@.len());
                    lines.push(line);
                    let ghost target = Seq::new((row + 1) as nat, |r: int| digital_row(plain@, r));
                    assert(rows_view(lines@).len() == target.len());
                    assert forall|k: int| 0 <= k < target.len() implies #[trigger] rows_view(
                        lines@,
                    )[k] == target[k] by {
                        if k < row {
                            assert(before[k] == digital_row(plain@, k));
                        }
                    }
                    assert(rows_view(lines@) =~= target);
                }
            } else {
                lines.push(plain);
            }
        },
    }
    assert(rows_view(lines@) =~= clock_rows(state@, *config, available_width));
    lines
}

/// The lines of the art, at most `max_height` of them, each cut to
/// `max_width` columns.
pub open spec fn art_rows(state: StateView, max_width: u16, max_height: int) -> Seq<Seq<char>> {
    let art = match state.ascii_art {
        Some(a) => a,
        None => Seq::<char>::empty(),
    };
    let lines = lines_of(art);
    let count = if lines.len() < max_height {
        lines.len() as int
    } else {
        max_height
    };
    Seq::new(count as nat, |i: int| truncated(lines[i], max_width as nat))
}

/// The lines of the art that fit.
pub fn art_lines(state: &crate::timer::State, max_width: u16, max_height: usize) -> (lines: Vec<
    Vec<char>,
>)
    ensures
        rows_view(lines@) == art_rows(state@, max_width, max_height as int),
{
    let art = match &state.ascii_art {
        Some(a) => chars_of(a.as_str()),
        None => Vec::new(),
    };
    let all = split_lines(&art);
    let count = if all.len() < max_height {
        all.len()
    } else {
        max_height
    };
    let mut lines: Vec<Vec<char>> = Vec::new();
    for i in 0..count
        invariant
            count <= all@.len(),
            rows_view(all@) == lines_of(art@),
            rows_view(lines@) == Seq::new(
                i as nat,
                |k: int| truncated(lines_of(art@)[k], max_width as nat),
            ),
    {
        assert(all@[i as int]@ == lines_of(art@)[i as int]);
        let line = truncate_to_width(&all[i], max_width as usize);
        let ghost before = rows_view(lines@);
        assert(before.len() == lines@.len());
        lines.push(line);
        let ghost target = Seq::new(
            (i + 1) as nat,
            |k: int| truncated(lines_of(art@)[k], max_width as nat),
        );
        assert(rows_view(lines@).len() == target.len());
        assert forall|k: int| 0 <= k < target.len() implies #[trigger] rows_view(lines@)[k]
            == target[k] by {
            if k < i {
                assert(before[k] == truncated(lines_of(art@)[k], max_width as nat));
            }
        }
        assert(rows_view(lines@) =~= target);
    }
    assert(art@ == match state@.ascii_art {
        Some(a) => a,
        None => Seq::<char>::empty(),
    });
    assert(rows_view(lines@) =~= art_rows(state@, max_width, max_height as int));
    lines
}

/// How many of the progress bar's `inner` cells are filled: the part of the
/// phase that has passed, rounded to the nearest cell (halves up); none
/// while idle, or when no time has passed.
pub open spec fn filled_cells(state: StateView, config: Config, inner: int) -> int {
    let total = phase_seconds(config, state.phase) as int * 1000;
    if state.phase == Phase::Idle || total == 0 || state.remaining_ms >= total {
        0
    } else {
        (2 * (total - state.remaining_ms) * inner + total) / (2 * total)
    }
}

/// The cells inside the progress bar for a width: two less than it, kept
/// within 5 and 70.
pub open spec fn bar_cells(width: u16) -> int {
    let inner = if width >= 2 {
        width - 2
    } else {
        0
    };
    if inner < 5 {
        5
    } else if inner > 70 {
        70
    } else {
        inner
    }
}

/// The progress bar: the filled cells as `#`, the rest as `-`, in brackets.
pub open spec fn progress_bar(state: StateView, config: Config, width: u16) -> Seq<char> {
    let inner = bar_cells(width);
    let filled = filled_cells(state, config, inner);
    "["@ + repeat_char('#', filled as nat) + repeat_char('-', (inner - filled) as nat) + "]"@
}

/// The progress bar for a width.
pub fn progress_line(state: &crate::timer::State, config: &Config, width: u16) -> (line: Vec<
    char,
>)
    ensures
        line@ == progress_bar(state@, *config, width),
{
    let available = width.saturating_sub(2);
    let inner: u16 = if available < 5 {
        5
    } else if available > 70 {
        70
    } else {
        available
    };
    let total = seconds_of(config, state.phase) as u128 * 1000;
    let filled: u128 = if state.phase == Phase::Idle || total == 0 || state.remaining_ms >= total {
        0
    } else {
        let passed = total - state.remaining_ms;
        assert(2 * passed * (inner as u128) + total <= 141 * 18446744073709551615000) by (nonlinear_arith)
            requires
                passed <= total,
                inner <= 70,
                total <= 18446744073709551615000,
        ;
        (2 * passed * inner as u128 + total) / (2 * total)
    };
    assert(filled <= inner as u128) by (nonlinear_arith)
        requires
            filled == 0 || (total > 0 && filled == (2 * (total - state.remaining_ms) * inner
                + total) / (2 * total)),
            state.remaining_ms < total || filled == 0,
    ;
    let mut line = chars_of("[");
    let hashes = repeat('#', filled as usize);
    append_chars(&mut line, &hashes);
    let dashes = repeat('-', (inner as u128 - filled) as usize);
    append_chars(&mut line, &dashes);
    append_str(&mut line, "]");
    line
}


/// As time runs down the progress bar never shrinks: less time left fills
/// at least as many cells, never more than the bar has, and none while
/// idle; the bar is always two brackets around its cells.
pub proof fn lemma_progress_never_shrinks(state: StateView, config: Config, width: u16, less: u128)
    requires
        less <= state.remaining_ms,
    ensures
        0 <= filled_cells(state, config, bar_cells(width)) <= filled_cells(
            StateView { remaining_ms: less, ..state },
            config,
            bar_cells(width),
        ) <= bar_cells(width),
        state.phase == Phase::Idle ==> filled_cells(state, config, bar_cells(width)) == 0,
        progress_bar(state, config, width).len() == bar_cells(width) + 2,
{
    let later = StateView { remaining_ms: less, ..state };
    let inner = bar_cells(width);
    let total = phase_seconds(config, state.phase) as int * 1000;
    if !(state.phase == Phase::Idle || total == 0 || less >= total) {
        let b = 2 * (total - less) * inner + total;
        assert(0 <= b < 2 * total * (inner + 1)) by (nonlinear_arith)
            requires
                b == 2 * (total - less) * inner + total,
                0 <= less < total,
                inner >= 5,
        ;
        assert(b / (2 * total) <= inner) by (nonlinear_arith)
            requires
                0 <= b < 2 * total * (inner + 1),
                total > 0,
        ;
        assert(b / (2 * total) >= 0) by (nonlinear_arith)
            requires
                b >= 0,
                total > 0,
        ;
        if state.remaining_ms < total {
            let a = 2 * (total - state.remaining_ms) * inner + total;
            assert(0 <= a <= b) by (nonlinear_arith)
                requires
                    a == 2 * (total - state.remaining_ms) * inner + total,
                    b == 2 * (total - less) * inner + total,
                    less <= state.remaining_ms < total,
                    inner >= 5,
            ;
            vstd::arithmetic::div_mod::lemma_div_is_ordered(a, b, 2 * total);
            assert(a / (2 * total) >= 0) by (nonlinear_arith)
                requires
                    a >= 0,
                    total > 0,
            ;
        }
    }
    let filled = filled_cells(state, config, inner);
    reveal_strlit("[");
    reveal_strlit("]");
}

/// The progress bar measures the phase against its own configured length:
/// with `total` the work, short-break or long-break length in milliseconds
/// for a work session, short break or long break, the filled cells are the
/// part of `total` that has passed times the cells, rounded to the nearest
/// cell (halves up). A phase that has just begun fills none, and one whose
/// time is up fills them all.
pub proof fn lemma_progress_measures_its_phase(state: StateView, config: Config, width: u16)
    requires
        state.phase != Phase::Idle,
    ensures
        ({
            let total: int = match state.phase {
                Phase::Work => config.work_sec as int * 1000,
                Phase::Short => config.short_sec as int * 1000,
                Phase::Long => config.long_sec as int * 1000,
                Phase::Idle => 0,
            };
            let inner = bar_cells(width);
            let filled = filled_cells(state, config, inner);
            &&& total > 0 && state.remaining_ms <= total ==> filled == (2 * (total
                - state.remaining_ms) * inner + total) / (2 * total)
            &&& state.remaining_ms >= total ==> filled == 0
            &&& total > 0 && state.remaining_ms == 0 ==> filled == inner
        }),
{
    let total: int = match state.phase {
        Phase::Work => config.work_sec as int * 1000,
        Phase::Short => config.short_sec as int * 1000,
        Phase::Long => config.long_sec as int * 1000,
        Phase::Idle => 0,
    };
    let inner = bar_cells(width);
    if total > 0 && state.remaining_ms == 0 {
        assert((2 * (total - 0) * inner + total) / (2 * total) == inner) by (nonlinear_arith)
            requires
                total > 0,
                inner >= 0,
        ;
    }
    if total > 0 && state.remaining_ms == total {
        assert((2 * (total - total) * inner + total) / (2 * total) == 0) by (nonlinear_arith)
            requires
                total > 0,
        ;
    }
}

/// The phase in brackets, marked when paused.
pub open spec fn status_text(state: StateView) -> Seq<char> {
    if state.paused {
        "[ "@ + phase_label(state.phase) + " / PAUSED ]"@
    } else {
        "[ "@ + phase_label(state.phase) + " ]"@
    }
}

fn status(state: &crate::timer::State) -> (text: Vec<char>)
    ensures
        text@ == status_text(state@),
{
    let mut text = chars_of("[ ");
    append_str(&mut text, state.phase.label());
    if state.paused {
        append_str(&mut text, " / PAUSED ]");
    } else {
        append_str(&mut text, " ]");
    }
    text
}

/// The width of the main screen's content: the screen's width up to 120
/// columns, less a margin of two.
pub open spec fn content_width(width: u16) -> u16 {
    let w = if width < 120 {
        width
    } else {
        120
    };
    if w >= 2 {
        (w - 2) as u16
    } else {
        0
    }
}

/// Each row centred in `width` columns.
pub open spec fn centered_all(rows: Seq<Seq<char>>, width: u16) -> Seq<Seq<char>> {
    rows.map_values(|row: Seq<char>| centered(row, width as nat))
}

/// `a - b`, or zero when `b` is larger.
pub open spec fn saturating_sub(a: int, b: int) -> int {
    if a >= b {
        a - b
    } else {
        0
    }
}

/// The line counting the sessions.
pub open spec fn sessions_text(state: StateView, config: Config) -> Seq<char> {
    "sessions "@ + decimal_digits(state.sessions_completed as nat) + " / long break every "@
        + decimal_digits(config.long_every as nat)
}

/// The keys, spelled out.
pub open spec fn keys_long() -> Seq<char> {
    "[s] start  [p] pause  [e] settings  [q] quit"@
}

/// The keys, in short.
pub open spec fn keys_short() -> Seq<char> {
    "s:start  p:pause  e:settings  q:quit"@
}

/// The screen of a terminal too small for the layout: the name, the phase,
/// the time and the keys, as many as there are rows, each cut to the width.
pub open spec fn tiny_screen(state: StateView, width: u16, height: u16) -> Seq<Seq<char>> {
    let rows = seq!["PTIMER"@, phase_label(state.phase), mmss(state.remaining_ms), "s e q"@];
    let count = if height < 4 {
        height as int
    } else {
        4
    };
    Seq::new(count as nat, |i: int| truncated(rows[i], width as nat))
}

/// The clock of the grand layout: the digital clock needs 28 rows, and
/// falls back to the plain one on shorter screens.
pub open spec fn grand_clock(state: StateView, config: Config, width: u16, height: u16) -> Seq<
    Seq<char>,
> {
    let clock = clock_rows(state, config, width);
    if height < 28 && clock.len() > 1 {
        seq![plain_clock(state)]
    } else {
        clock
    }
}

/// The grand layout, down to its art: the name, the status and the clock
/// centred, then the art centred below them, as tall as the rows left
/// above the six kept for what follows.
pub open spec fn grand_body(state: StateView, config: Config, width: u16, height: u16) -> Seq<
    Seq<char>,
> {
    let cw = content_width(width);
    let head = seq![
        centered("PTIMER"@, cw as nat),
        Seq::<char>::empty(),
        centered(status_text(state), cw as nat),
        Seq::<char>::empty(),
    ] + centered_all(grand_clock(state, config, cw, height), cw) + seq![Seq::<char>::empty()];
    head + centered_all(art_rows(state, cw, saturating_sub(height as int, head.len() + 6int)), cw)
}

/// The width of the left column of the two-column layout.
pub open spec fn left_column(width: u16) -> u16 {
    let half = (content_width(width) / 2) as u16;
    if half < 28 {
        28
    } else {
        half
    }
}

/// The width of the right column of the two-column layout.
pub open spec fn right_column(width: u16) -> u16 {
    saturating_sub(content_width(width) as int, left_column(width) + 2) as u16
}

/// The left column: the status and the clock, centred.
pub open spec fn left_rows(state: StateView, config: Config, width: u16) -> Seq<Seq<char>> {
    let lw = left_column(width);
    seq![centered(status_text(state), lw as nat), Seq::<char>::empty()] + centered_all(
        clock_rows(state, config, lw),
        lw,
    )
}

/// A row of the two columns: each side padded with spaces to its column's
/// width (by display width), two spaces between them.
pub open spec fn two_column_row(lhs: Seq<char>, rhs: Seq<char>, lw: u16, rw: u16) -> Seq<char> {
    let lhs_used = if display_columns(lhs) < lw {
        display_columns(lhs) as int
    } else {
        lw as int
    };
    let rhs_used = if display_columns(rhs) < rw {
        display_columns(rhs) as int
    } else {
        rw as int
    };
    lhs + repeat_char(' ', (lw - lhs_used) as nat) + "  "@ + rhs + repeat_char(
        ' ',
        (rw - rhs_used) as nat,
    )
}

/// The row of a column, or nothing below its end.
pub open spec fn row_or_empty(rows: Seq<Seq<char>>, i: int) -> Seq<char> {
    if i < rows.len() {
        rows[i]
    } else {
        Seq::<char>::empty()
    }
}

/// The two-column layout, down to its columns: the name centred, then the
/// status and clock beside the art (as tall as the rows less nine).
pub open spec fn two_column_body(state: StateView, config: Config, width: u16, height: u16) -> Seq<
    Seq<char>,
> {
    let cw = content_width(width);
    let lw = left_column(width);
    let rw = right_column(width);
    let left = left_rows(state, config, width);
    let art = art_rows(state, rw, saturating_sub(height as int, 9));
    let count = if left.len() >= art.len() {
        left.len()
    } else {
        art.len()
    };
    seq![centered("PTIMER"@, cw as nat), Seq::<char>::empty()] + Seq::new(
        count,
        |i: int| two_column_row(row_or_empty(left, i), row_or_empty(art, i), lw, rw),
    )
}

/// The stacked layout, down to its art: the name, the status and the clock
/// centred, and the art below them when there are 17 rows or more, as tall
/// as the rows left above the seven kept for what follows.
pub open spec fn stacked_body(state: StateView, config: Config, width: u16, height: u16) -> Seq<
    Seq<char>,
> {
    let cw = content_width(width);
    let head = seq![
        centered("PTIMER"@, cw as nat),
        Seq::<char>::empty(),
        centered(status_text(state), cw as nat),
        Seq::<char>::empty(),
    ] + centered_all(clock_rows(state, config, cw), cw);
    if height >= 17 {
        let with_gap = head.push(Seq::<char>::empty());
        with_gap + centered_all(
            art_rows(state, cw, saturating_sub(height as int, with_gap.len() + 7int)),
            cw,
        )
    } else {
        head
    }
}

/// The layout followed by a blank line and the progress bar, then by the
/// sessions and the keys spelled out when three more lines fit in `height`,
/// or by the keys in short.
pub open spec fn with_footer(
    body: Seq<Seq<char>>,
    state: StateView,
    config: Config,
    cw: u16,
    height: u16,
) -> Seq<Seq<char>> {
    let lines = body + seq![
        Seq::<char>::empty(),
        centered(progress_bar(state, config, cw), cw as nat),
    ];
    if lines.len() + 3 < height {
        lines + seq![
            Seq::<char>::empty(),
            centered(sessions_text(state, config), cw as nat),
            centered(keys_long(), cw as nat),
        ]
    } else {
        lines.push(centered(keys_short(), cw as nat))
    }
}

/// The most columns the screen is laid out in.
pub const MAX_COLUMNS: u16 = 150;

/// The most rows the screen is laid out in.
pub const MAX_ROWS: u16 = 100;

/// `size` kept to at most `most`.
pub open spec fn capped(size: u16, most: u16) -> u16 {
    if size > most {
        most
    } else {
        size
    }
}

/// The main screen's lines for a terminal of `width` columns and `height`
/// rows, laid out in a box of at most 150 columns and 100 rows.
///
/// Below 18 columns or 9 rows only the name, phase, time and keys are shown.
/// Otherwise the layout is grand (a grand art style on 76 columns and 22
/// rows or more), in two columns (68 columns and 15 rows or more) or
/// stacked; the progress bar follows, then the sessions and the keys spelled
/// out when three more lines fit, or the keys in short.
pub open spec fn normal_rows(state: StateView, config: Config, width: u16, height: u16) -> Seq<
    Seq<char>,
> {
    boxed_rows(state, config, capped(width, MAX_COLUMNS), capped(height, MAX_ROWS))
}

/// The main screen's lines laid out in exactly `width` columns and
/// `height` rows.
pub open spec fn boxed_rows(state: StateView, config: Config, width: u16, height: u16) -> Seq<
    Seq<char>,
> {
    if width < 18 || height < 9 {
        tiny_screen(state, width, height)
    } else {
        let cw = content_width(width);
        let body = if crate::settings::is_grand_style(config.art_style) && width >= 76 && height >= 22 {
            grand_body(state, config, width, height)
        } else if width >= 68 && height >= 15 {
            two_column_body(state, config, width, height)
        } else {
            stacked_body(state, config, width, height)
        };
        with_footer(body, state, config, cw, height)
    }
}

fn centered_lines(rows: &Vec<Vec<char>>, width: u16) -> (lines: Vec<Vec<char>>)
    ensures
        rows_view(lines@) == centered_all(rows_view(rows@), width),
{
    let mut lines: Vec<Vec<char>> = Vec::new();
    for i in 0..rows.len()
        invariant
            rows_view(lines@) == centered_all(rows_view(rows@).take(i as int), width),
    {
        let line = center(&rows[i], width);
        push_row(&mut lines, line);
        assert(centered_all(rows_view(rows@).take(i + 1), width) =~= centered_all(
            rows_view(rows@).take(i as int),
            width,
        ).push(line@));
    }
    assert(rows_view(rows@).take(rows@.len() as int) =~= rows_view(rows@));
    lines
}

fn tiny(state: &crate::timer::State, width: u16, height: u16) -> (lines: Vec<Vec<char>>)
    ensures
        rows_view(lines@) == tiny_screen(state@, width, height),
{
    let mut all: Vec<Vec<char>> = Vec::new();
    push_row(&mut all, chars_of("PTIMER"));
    push_row(&mut all, chars_of(state.phase.label()));
    push_row(&mut all, human_mmss(state.remaining_ms));
    push_row(&mut all, chars_of("s e q"));
    let ghost rows = seq!["PTIMER"@, phase_label(state.phase), mmss(state.remaining_ms), "s e q"@];
    assert(rows_view(all@) =~= rows);
    let count: usize = if height < 4 {
        height as usize
    } else {
        4
    };
    let mut lines: Vec<Vec<char>> = Vec::new();
    for i in 0..count
        invariant
            count <= 4,
            all@.len() == 4,
            rows_view(all@) == rows,
            rows_view(lines@) == Seq::new(i as nat, |k: int| truncated(rows[k], width as nat)),
    {
        assert(rows_view(all@)[i as int] == all@[i as int]@);
        let line = truncate_to_width(&all[i], width as usize);
        push_row(&mut lines, line);
        assert(rows_view(lines@) =~= Seq::new(
            (i + 1) as nat,
            |k: int| truncated(rows[k], width as nat),
        ));
    }
    lines
}


fn content(width: u16) -> (cw: u16)
    ensures
        cw == content_width(width),
{
    let w = if width < 120 {
        width
    } else {
        120
    };
    w.saturating_sub(2)
}

fn head_rows(state: &crate::timer::State, cw: u16) -> (lines: Vec<Vec<char>>)
    ensures
        rows_view(lines@) == seq![
            centered("PTIMER"@, cw as nat),
            Seq::<char>::empty(),
            centered(status_text(state@), cw as nat),
            Seq::<char>::empty(),
        ],
{
    let mut lines: Vec<Vec<char>> = Vec::new();
    push_row(&mut lines, center_str("PTIMER", cw));
    push_row(&mut lines, Vec::new());
    push_row(&mut lines, center(&status(state), cw));
    push_row(&mut lines, Vec::new());
    lines
}

fn grand_part(state: &crate::timer::State, config: &Config, width: u16, height: u16) -> (lines: Vec<
    Vec<char>,
>)
    ensures
        rows_view(lines@) == grand_body(state@, *config, width, height),
{
    let cw = content(width);
    let mut lines = head_rows(state, cw);
    let mut clock = clock_lines(state, config, cw);
    if height < 28 && clock.len() > 1 {
        let plain = if state.phase == Phase::Idle {
            chars_of("--:--")
        } else {
            human_mmss(state.remaining_ms)
        };
        clock = Vec::new();
        push_row(&mut clock, plain);
        assert(rows_view(clock@) =~= seq![plain_clock(state@)]);
    }
    assert(rows_view(clock@) == grand_clock(state@, *config, cw, height));
    assert(rows_view(clock@).len() == clock@.len());
    assert(clock@.len() <= 5);
    push_rows(&mut lines, centered_lines(&clock, cw));
    push_row(&mut lines, Vec::new());
    assert(rows_view(lines@).len() == lines@.len());
    assert(lines@.len() <= 10);
    let art_height = height.saturating_sub(lines.len() as u16 + 6);
    let art = art_lines(state, cw, art_height as usize);
    push_rows(&mut lines, centered_lines(&art, cw));
    lines
}

fn two_column_part(state: &crate::timer::State, config: &Config, width: u16, height: u16) -> (lines: Vec<
    Vec<char>,
>)
    requires
        width >= 68,
    ensures
        rows_view(lines@) == two_column_body(state@, *config, width, height),
{
    let cw = content(width);
    let half = cw / 2;
    let left_width: u16 = if half < 28 {
        28
    } else {
        half
    };
    let right_width = cw.saturating_sub(left_width + 2);
    assert(left_width == left_column(width));
    assert(right_width == right_column(width));
    let mut left: Vec<Vec<char>> = Vec::new();
    push_row(&mut left, center(&status(state), left_width));
    push_row(&mut left, Vec::new());
    push_rows(&mut left, centered_lines(&clock_lines(state, config, left_width), left_width));
    assert(rows_view(left@) =~= left_rows(state@, *config, width));
    let art = art_lines(state, right_width, height.saturating_sub(9) as usize);
    let ghost lv = left_rows(state@, *config, width);
    let ghost av = art_rows(state@, right_width, saturating_sub(height as int, 9));
    let row_count = if left.len() >= art.len() {
        left.len()
    } else {
        art.len()
    };
    let mut lines: Vec<Vec<char>> = Vec::new();
    push_row(&mut lines, center_str("PTIMER", cw));
    push_row(&mut lines, Vec::new());
    let ghost top = rows_view(lines@);
    for row in 0..row_count
        invariant
            rows_view(left@) == lv,
            rows_view(art@) == av,
            row_count == if lv.len() >= av.len() { lv.len() } else { av.len() },
            rows_view(lines@) == top + Seq::new(
                row as nat,
                |i: int| two_column_row(row_or_empty(lv, i), row_or_empty(av, i), left_width, right_width),
            ),
    {
        let lhs: Vec<char> = if row < left.len() {
            let mut l: Vec<char> = Vec::new();
            append_chars(&mut l, &left[row]);
            assert(l@ == lv[row as int]);
            l
        } else {
            Vec::new()
        };
        let lhs_width = display_width(&lhs);
        let lhs_used = if lhs_width < left_width as usize {
            lhs_width
        } else {
            left_width as usize
        };
        let rhs: Vec<char> = if row < art.len() {
            let mut r: Vec<char> = Vec::new();
            append_chars(&mut r, &art[row]);
            assert(r@ == av[row as int]);
            r
        } else {
            Vec::new()
        };
        let rhs_width = display_width(&rhs);
        let rhs_used = if rhs_width < right_width as usize {
            rhs_width
        } else {
            right_width as usize
        };
        let mut line = lhs;
        append_chars(&mut line, &repeat(' ', left_width as usize - lhs_used));
        append_str(&mut line, "  ");
        append_chars(&mut line, &rhs);
        append_chars(&mut line, &repeat(' ', right_width as usize - rhs_used));
        assert(line@ =~= two_column_row(row_or_empty(lv, row as int), row_or_empty(av, row as int), left_width, right_width));
        push_row(&mut lines, line);
        assert(rows_view(lines@) =~= top + Seq::new(
            (row + 1) as nat,
            |i: int| two_column_row(row_or_empty(lv, i), row_or_empty(av, i), left_width, right_width),
        ));
    }
    lines
}

fn stacked_part(state: &crate::timer::State, config: &Config, width: u16, height: u16) -> (lines: Vec<
    Vec<char>,
>)
    ensures
        rows_view(lines@) == stacked_body(state@, *config, width, height),
{
    let cw = content(width);
    let mut lines = head_rows(state, cw);
    let clock = clock_lines(state, config, cw);
    assert(rows_view(clock@).len() == clock@.len());
    push_rows(&mut lines, centered_lines(&clock, cw));
    if height >= 17 {
        push_row(&mut lines, Vec::new());
        assert(rows_view(lines@).len() == lines@.len());
        assert(lines@.len() <= 10);
        let art_height = height.saturating_sub(lines.len() as u16 + 7);
        let art = art_lines(state, cw, art_height as usize);
        push_rows(&mut lines, centered_lines(&art, cw));
    }
    lines
}

fn sessions_line(state: &crate::timer::State, config: &Config) -> (text: Vec<char>)
    ensures
        text@ == sessions_text(state@, *config),
{
    let mut text = chars_of("sessions ");
    append_chars(&mut text, &decimal(state.sessions_completed as u128));
    append_str(&mut text, " / long break every ");
    append_chars(&mut text, &decimal(config.long_every as u128));
    text
}

fn footer(
    lines: &mut Vec<Vec<char>>,
    state: &crate::timer::State,
    config: &Config,
    cw: u16,
    height: u16,
)
    ensures
        rows_view(final(lines)@) == with_footer(rows_view(old(lines)@), state@, *config, cw, height),
{
    let ghost body = rows_view(lines@);
    push_row(lines, Vec::new());
    push_row(lines, center(&progress_line(state, config, cw), cw));
    assert(rows_view(lines@).len() == lines@.len());
    if height as usize > 3 && lines.len() < height as usize - 3 {
        push_row(lines, Vec::new());
        push_row(lines, center(&sessions_line(state, config), cw));
        push_row(lines, center_str("[s] start  [p] pause  [e] settings  [q] quit", cw));
    } else {
        push_row(lines, center_str("s:start  p:pause  e:settings  q:quit", cw));
    }
}

/// The main screen's lines for a terminal of `width` columns and `height`
/// rows.
pub fn normal_screen(state: &crate::timer::State, config: &Config, width: u16, height: u16) -> (lines: Vec<String>)
    ensures
        strings_view(lines@) == normal_rows(state@, *config, width, height),
        lines@.len() <= MAX_ROWS,
        crate::fitting::art_printable(state@) ==> forall|i: int|
            0 <= i < lines@.len() ==> display_columns(#[trigger] lines@[i]@) <= MAX_COLUMNS,
{
    let ghost full = (width, height);
    let width = if width > MAX_COLUMNS {
        MAX_COLUMNS
    } else {
        width
    };
    let height = if height > MAX_ROWS {
        MAX_ROWS
    } else {
        height
    };
    let rows = if width < 18 || height < 9 {
        tiny(state, width, height)
    } else {
        let cw = content(width);
        let mut lines = if config.art_style.is_grand() && width >= 76 && height >= 22 {
            grand_part(state, config, width, height)
        } else if width >= 68 && height >= 15 {
            two_column_part(state, config, width, height)
        } else {
            stacked_part(state, config, width, height)
        };
        footer(&mut lines, state, config, cw, height);
        lines
    };
    let lines = strings_of(&rows);
    proof {
        crate::fitting::lemma_main_screen_in_its_box(state@, *config, full.0, full.1);
        assert forall|i: int| 0 <= i < lines@.len() implies #[trigger] lines@[i]@ == strings_view(
            lines@,
        )[i] by {}
    }
    lines
}


/// The names of the settings, in order.
pub const SETTING_NAMES: [&'static str; 9] = [
    "Work duration",
    "Short break",
    "Long break",
    "Long break every",
    "ASCII art",
    "Animate art",
    "Clock",
    "Desktop notice",
    "Sound alert",
];

/// The value shown for a setting.
pub open spec fn setting_value(config: Config, index: int) -> Seq<char> {
    if index == 0 {
        decimal_digits((config.work_sec / 60) as nat) + " min"@
    } else if index == 1 {
        decimal_digits((config.short_sec / 60) as nat) + " min"@
    } else if index == 2 {
        decimal_digits((config.long_sec / 60) as nat) + " min"@
    } else if index == 3 {
        decimal_digits(config.long_every as nat) + " sessions"@
    } else if index == 4 {
        crate::settings::art_style_label(config.art_style)
    } else if index == 5 {
        if config.animations_enabled {
            "on"@
        } else {
            "off"@
        }
    } else if index == 6 {
        crate::settings::clock_style_label(config.clock_style)
    } else if index == 7 {
        crate::settings::notification_style_label(config.notifications)
    } else {
        crate::settings::sound_style_label(config.sound)
    }
}

/// The width of the settings screen's content: the screen's width up to 72
/// columns, less a margin of two, and at least one column.
pub open spec fn settings_width(width: u16) -> u16 {
    let w = if width < 72 {
        width
    } else {
        72
    };
    if w >= 3 {
        (w - 2) as u16
    } else {
        1
    }
}

/// How many settings fit: the rows less those kept for the title and the
/// footer (one more with a message shown), at least one and at most all.
pub open spec fn visible_settings(state: StateView, height: u16) -> int {
    let reserved = if state.save_message is Some {
        6int
    } else {
        5int
    };
    let fit = saturating_sub(height as int, reserved);
    let fit = if fit < 1 {
        1
    } else {
        fit
    };
    if fit > 9 {
        9
    } else {
        fit
    }
}

/// The first setting shown: the window of visible settings keeps the
/// selected one near its middle without running past the end.
pub open spec fn first_visible(state: StateView, height: u16) -> int {
    let visible = visible_settings(state, height);
    let start = saturating_sub(state.selected_setting as int, visible / 2);
    if start > 9 - visible {
        9 - visible
    } else {
        start
    }
}

/// The line of a setting: a marker (`>` when selected), its name cut to
/// leave room for the value, and its value at the right edge.
pub open spec fn setting_line(state: StateView, config: Config, cw: u16, index: int) -> Seq<char> {
    let marker = if index == state.selected_setting {
        ">"@
    } else {
        " "@
    };
    let value = setting_value(config, index);
    let available = cw as int;
    let fixed = display_columns(marker) + display_columns(value) + 3int;
    let name = truncated(SETTING_NAMES@[index]@, saturating_sub(available, fixed) as nat);
    let gap = saturating_sub(available, display_columns(name) + display_columns(value) + 2int);
    marker + " "@ + name + repeat_char(' ', gap as nat) + value
}

/// The settings screen before it is cut to the terminal's height: a title
/// and a hint, the settings that fit, a blank line, the message of the last
/// save if any, and the keys.
pub open spec fn settings_all(state: StateView, config: Config, width: u16, height: u16) -> Seq<
    Seq<char>,
> {
    let cw = settings_width(width);
    let first = first_visible(state, height);
    let visible = visible_settings(state, height);
    let head = seq![
        centered("PTIMER SETTINGS"@, cw as nat),
        centered("use arrows to select and change"@, cw as nat),
        Seq::<char>::empty(),
    ];
    let body = Seq::new(visible as nat, |i: int| setting_line(state, config, cw, first + i));
    let tail = match state.save_message {
        Some(m) => seq![
            Seq::<char>::empty(),
            centered(m, cw as nat),
            centered("[t] test alerts  [r] defaults  [enter/e/esc] done"@, cw as nat),
        ],
        None => seq![
            Seq::<char>::empty(),
            centered("[t] test alerts  [r] defaults  [enter/e/esc] done"@, cw as nat),
        ],
    };
    head + body + tail
}

/// The settings screen's lines for a terminal of `width` columns and
/// `height` rows: all of them, cut to `height` lines.
pub open spec fn settings_rows(state: StateView, config: Config, width: u16, height: u16) -> Seq<
    Seq<char>,
> {
    let all = settings_all(state, config, width, height);
    all.take(
        if all.len() < height {
            all.len() as int
        } else {
            height as int
        },
    )
}

/// Each entry of the settings screen shows the configured value its name
/// speaks of: the work, short-break and long-break lengths in whole
/// minutes, the long-break cycle in sessions, the art's label, whether the
/// art is animated, and the clock, notice and sound labels.
pub proof fn lemma_settings_show_their_values(config: Config)
    ensures
        SETTING_NAMES@[0]@ == "Work duration"@ && setting_value(config, 0) == decimal_digits(
            (config.work_sec / 60) as nat,
        ) + " min"@,
        SETTING_NAMES@[1]@ == "Short break"@ && setting_value(config, 1) == decimal_digits(
            (config.short_sec / 60) as nat,
        ) + " min"@,
        SETTING_NAMES@[2]@ == "Long break"@ && setting_value(config, 2) == decimal_digits(
            (config.long_sec / 60) as nat,
        ) + " min"@,
        SETTING_NAMES@[3]@ == "Long break every"@ && setting_value(config, 3) == decimal_digits(
            config.long_every as nat,
        ) + " sessions"@,
        SETTING_NAMES@[4]@ == "ASCII art"@ && setting_value(config, 4)
            == crate::settings::art_style_label(config.art_style),
        SETTING_NAMES@[5]@ == "Animate art"@ && setting_value(config, 5) == if config.animations_enabled {
            "on"@
        } else {
            "off"@
        },
        SETTING_NAMES@[6]@ == "Clock"@ && setting_value(config, 6) == crate::settings::clock_style_label(
            config.clock_style,
        ),
        SETTING_NAMES@[7]@ == "Desktop notice"@ && setting_value(config, 7)
            == crate::settings::notification_style_label(config.notifications),
        SETTING_NAMES@[8]@ == "Sound alert"@ && setting_value(config, 8)
            == crate::settings::sound_style_label(config.sound),
{
}

/// A setting's line starts with its marker (`>` for the selected one) and
/// a space, and ends with the setting's value.
pub proof fn lemma_setting_line_ends_with_value(
    state: StateView,
    config: Config,
    cw: u16,
    index: int,
)
    requires
        0 <= index < 9,
    ensures
        ({
            let line = setting_line(state, config, cw, index);
            let value = setting_value(config, index);
            &&& line.len() >= value.len() + 2
            &&& line.subrange(line.len() - value.len(), line.len() as int) == value
            &&& line[0] == if index == state.selected_setting { '>' } else { ' ' }
            &&& line[1] == ' '
        }),
{
    reveal_strlit(">");
    reveal_strlit(" ");
    let line = setting_line(state, config, cw, index);
    let value = setting_value(config, index);
    assert(line.subrange(line.len() - value.len(), line.len() as int) =~= value);
}

/// The status reads the phase's name in brackets, `[ WORK ]`, `[ SHORT
/// BREAK ]`, `[ LONG BREAK ]` or `[ READY ]`, with ` / PAUSED` before the
/// closing bracket when paused.
pub proof fn lemma_status_names_the_phase(state: StateView)
    ensures
        status_text(state) == "[ "@ + match state.phase {
            Phase::Idle => "READY"@,
            Phase::Work => "WORK"@,
            Phase::Short => "SHORT BREAK"@,
            Phase::Long => "LONG BREAK"@,
        } + if state.paused {
            " / PAUSED ]"@
        } else {
            " ]"@
        },
{
}

/// Decimal digits spell the number they are written for.
pub proof fn lemma_decimal_digits_spell(n: nat)
    ensures
        crate::settings::digits_value(decimal_digits(n)) == n,
        forall|i: int|
            0 <= i < decimal_digits(n).len() ==> is_digit(#[trigger] decimal_digits(n)[i]),
    decreases n,
{
    let d = n % 10;
    assert(crate::settings::digits_value(seq![crate::text::digit_char(d)].drop_last()) == 0) by {
        assert(seq![crate::text::digit_char(d)].drop_last().len() == 0);
    }
    assert(crate::text::digit_char(d) as nat - '0' as nat == d);
    if n >= 10 {
        lemma_decimal_digits_spell(n / 10);
        let t = decimal_digits(n);
        assert(t.drop_last() == decimal_digits(n / 10));
        assert(t.last() == crate::text::digit_char(d));
        assert(n == (n / 10) * 10 + d);
    } else {
        assert(decimal_digits(n) == seq![crate::text::digit_char(n)]);
    }
}

proof fn lemma_zeros_spell_nothing(k: nat)
    ensures
        crate::settings::digits_value(repeat_char('0', k)) == 0,
    decreases k,
{
    if k > 0 {
        assert(repeat_char('0', k).drop_last() =~= repeat_char('0', (k - 1) as nat));
        lemma_zeros_spell_nothing((k - 1) as nat);
    }
}

proof fn lemma_leading_zeros(k: nat, digits: Seq<char>)
    ensures
        crate::settings::digits_value(repeat_char('0', k) + digits) == crate::settings::digits_value(
            digits,
        ),
    decreases digits.len(),
{
    if digits.len() == 0 {
        assert(repeat_char('0', k) + digits =~= repeat_char('0', k));
        lemma_zeros_spell_nothing(k);
    } else {
        assert((repeat_char('0', k) + digits).drop_last() =~= repeat_char('0', k)
            + digits.drop_last());
        lemma_leading_zeros(k, digits.drop_last());
    }
}

/// A zero-padded number spells the number, in at least as many digits as
/// asked for, and in no more than that unless the number needs them.
pub proof fn lemma_zero_padded_spells(n: nat, width: nat)
    ensures
        crate::settings::digits_value(zero_padded(n, width)) == n,
        forall|i: int|
            0 <= i < zero_padded(n, width).len() ==> is_digit(#[trigger] zero_padded(n, width)[i]),
        zero_padded(n, width).len() == if decimal_digits(n).len() >= width {
            decimal_digits(n).len()
        } else {
            width
        },
{
    lemma_decimal_digits_spell(n);
    let digits = decimal_digits(n);
    if digits.len() < width {
        let zeros = repeat_char('0', (width - digits.len()) as nat);
        lemma_leading_zeros((width - digits.len()) as nat, digits);
        let z = zero_padded(n, width);
        assert forall|i: int| 0 <= i < z.len() implies is_digit(#[trigger] z[i]) by {
            if i >= zeros.len() {
                assert(z[i] == digits[i - zeros.len()]);
            }
        }
    }
}

/// Joined printable text is printable.
pub proof fn lemma_concat_printable(a: Seq<char>, b: Seq<char>)
    requires
        all_printable_ascii(a),
        all_printable_ascii(b),
    ensures
        all_printable_ascii(a + b),
{
    assert forall|i: int| 0 <= i < (a + b).len() implies is_printable_ascii(#[trigger] (a + b)[i]) by {
        if i < a.len() {
            assert((a + b)[i] == a[i]);
        } else {
            assert((a + b)[i] == b[i - a.len()]);
        }
    }
}

/// Decimal digits are printable, and there is at least one.
pub proof fn lemma_decimal_printable(n: nat)
    ensures
        all_printable_ascii(decimal_digits(n)),
        decimal_digits(n).len() >= 1,
    decreases n,
{
    if n >= 10 {
        lemma_decimal_printable(n / 10);
        lemma_concat_printable(decimal_digits(n / 10), seq![crate::text::digit_char(n % 10)]);
    }
}

/// Every label the screens show is printable ASCII.
pub proof fn lemma_labels_printable()
    ensures
        forall|phase: Phase| all_printable_ascii(#[trigger] phase_label(phase)),
        forall|style: crate::settings::ArtStyle| all_printable_ascii(
            #[trigger] crate::settings::art_style_label(style),
        ),
        forall|style: ClockStyle| all_printable_ascii(
            #[trigger] crate::settings::clock_style_label(style),
        ),
        forall|style: crate::settings::NotificationStyle| all_printable_ascii(
            #[trigger] crate::settings::notification_style_label(style),
        ),
        forall|style: crate::settings::SoundStyle| all_printable_ascii(
            #[trigger] crate::settings::sound_style_label(style),
        ),
{
    reveal_strlit("GRAND castle");
    reveal_strlit("GRAND cat");
    reveal_strlit("GRAND cosmos");
    reveal_strlit("IDLE");
    reveal_strlit("LONG BREAK");
    reveal_strlit("LONG PAUSE");
    reveal_strlit("PAUSE");
    reveal_strlit("READY");
    reveal_strlit("SHORT BREAK");
    reveal_strlit("WORK");
    reveal_strlit("aquarium");
    reveal_strlit("classic");
    reveal_strlit("coffee");
    reveal_strlit("custom");
    reveal_strlit("digital");
    reveal_strlit("drifting sky");
    reveal_strlit("fireplace");
    reveal_strlit("focus orb");
    reveal_strlit("growing plant");
    reveal_strlit("hourglass");
    reveal_strlit("minimal");
    reveal_strlit("normal");
    reveal_strlit("off");
    reveal_strlit("original cat");
    reveal_strlit("rocket");
    reveal_strlit("small cat");
    reveal_strlit("system chime");
    reveal_strlit("terminal bell");
    reveal_strlit("tomato");
    reveal_strlit("urgent");
}

/// The name and the value of every setting are printable ASCII.
pub proof fn lemma_setting_texts_printable(config: Config, index: int)
    requires
        0 <= index < 9,
    ensures
        all_printable_ascii(setting_value(config, index)),
        all_printable_ascii(SETTING_NAMES@[index]@),
{
    lemma_labels_printable();
    reveal_strlit(" min");
    reveal_strlit(" sessions");
    reveal_strlit("on");
    reveal_strlit("off");
    reveal_strlit("Work duration");
    reveal_strlit("Short break");
    reveal_strlit("Long break");
    reveal_strlit("Long break every");
    reveal_strlit("ASCII art");
    reveal_strlit("Animate art");
    reveal_strlit("Clock");
    reveal_strlit("Desktop notice");
    reveal_strlit("Sound alert");
    lemma_decimal_printable((config.work_sec / 60) as nat);
    lemma_decimal_printable((config.short_sec / 60) as nat);
    lemma_decimal_printable((config.long_sec / 60) as nat);
    lemma_decimal_printable(config.long_every as nat);
    lemma_concat_printable(decimal_digits((config.work_sec / 60) as nat), " min"@);
    lemma_concat_printable(decimal_digits((config.short_sec / 60) as nat), " min"@);
    lemma_concat_printable(decimal_digits((config.long_sec / 60) as nat), " min"@);
    lemma_concat_printable(decimal_digits(config.long_every as nat), " sessions"@);
}


/// Ten to the power `k`.
pub open spec fn pow10(k: nat) -> nat
    decreases k,
{
    if k == 0 {
        1
    } else {
        10 * pow10((k - 1) as nat)
    }
}

/// A number below ten to the `k` has at most `k` digits (and always one).
pub proof fn lemma_decimal_length(n: nat, k: nat)
    requires
        n < pow10(k),
    ensures
        decimal_digits(n).len() <= if k == 0 {
            1
        } else {
            k
        },
    decreases k,
{
    if n >= 10 {
        assert(k >= 2) by {
            if k == 0 {
            } else if k == 1 {
                assert(pow10(1) == 10 * pow10(0));
            }
        }
        assert(n / 10 < pow10((k - 1) as nat));
        lemma_decimal_length(n / 10, (k - 1) as nat);
    }
}

/// A `u64` has at most twenty digits.
pub proof fn lemma_u64_digits(n: u64)
    ensures
        decimal_digits(n as nat).len() <= 20,
{
    reveal_with_fuel(pow10, 21);
    assert(pow10(20) == 100000000000000000000);
    lemma_decimal_length(n as nat, 20);
}

fn setting_value_text(config: &Config, index: usize) -> (value: Vec<char>)
    requires
        index < 9,
    ensures
        value@ == setting_value(*config, index as int),
        value@.len() <= 29,
{
    proof {
        lemma_u64_digits(config.work_sec / 60);
        lemma_u64_digits(config.short_sec / 60);
        lemma_u64_digits(config.long_sec / 60);
        lemma_u64_digits(config.long_every);
        reveal_strlit(" min");
        reveal_strlit(" sessions");
        reveal_strlit("on");
        reveal_strlit("GRAND castle");
        reveal_strlit("GRAND cat");
        reveal_strlit("GRAND cosmos");
        reveal_strlit("IDLE");
        reveal_strlit("LONG BREAK");
        reveal_strlit("LONG PAUSE");
        reveal_strlit("PAUSE");
        reveal_strlit("READY");
        reveal_strlit("SHORT BREAK");
        reveal_strlit("WORK");
        reveal_strlit("aquarium");
        reveal_strlit("classic");
        reveal_strlit("coffee");
        reveal_strlit("custom");
        reveal_strlit("digital");
        reveal_strlit("drifting sky");
        reveal_strlit("fireplace");
        reveal_strlit("focus orb");
        reveal_strlit("growing plant");
        reveal_strlit("hourglass");
        reveal_strlit("minimal");
        reveal_strlit("normal");
        reveal_strlit("off");
        reveal_strlit("original cat");
        reveal_strlit("rocket");
        reveal_strlit("small cat");
        reveal_strlit("system chime");
        reveal_strlit("terminal bell");
        reveal_strlit("tomato");
        reveal_strlit("urgent");
    }
    if index == 0 {
        let mut v = decimal((config.work_sec / 60) as u128);
        append_str(&mut v, " min");
        v
    } else if index == 1 {
        let mut v = decimal((config.short_sec / 60) as u128);
        append_str(&mut v, " min");
        v
    } else if index == 2 {
        let mut v = decimal((config.long_sec / 60) as u128);
        append_str(&mut v, " min");
        v
    } else if index == 3 {
        let mut v = decimal(config.long_every as u128);
        append_str(&mut v, " sessions");
        v
    } else if index == 4 {
        proof {
            lemma_labels_printable();
        }
        chars_of(config.art_style.label())
    } else if index == 5 {
        if config.animations_enabled {
            chars_of("on")
        } else {
            chars_of("off")
        }
    } else if index == 6 {
        chars_of(config.clock_style.label())
    } else if index == 7 {
        chars_of(config.notifications.label())
    } else {
        chars_of(config.sound.label())
    }
}


/// Printable text cut to a width is a start of it no longer than the width.
pub proof fn lemma_truncated_printable(s: Seq<char>, width: nat)
    requires
        all_printable_ascii(s),
    ensures
        truncated(s, width) == s.take(if s.len() < width { s.len() as int } else { width as int }),
        all_printable_ascii(truncated(s, width)),
    decreases s.len(),
{
    crate::width::lemma_printable_fits(s, width as int);
    let t = truncated(s, width);
    assert forall|i: int| 0 <= i < t.len() implies is_printable_ascii(#[trigger] t[i]) by {
        assert(t[i] == s[i]);
    }
}

fn setting_line_text(state: &crate::timer::State, config: &Config, cw: u16, index: usize) -> (line: Vec<char>)
    requires
        index < 9,
    ensures
        line@ == setting_line(state@, *config, cw, index as int),
{
    proof {
        lemma_setting_texts_printable(*config, index as int);
        reveal_strlit(">");
        reveal_strlit(" ");
        reveal_strlit("Work duration");
        reveal_strlit("Short break");
        reveal_strlit("Long break");
        reveal_strlit("Long break every");
        reveal_strlit("ASCII art");
        reveal_strlit("Animate art");
        reveal_strlit("Clock");
        reveal_strlit("Desktop notice");
        reveal_strlit("Sound alert");
    }
    let marker = if index == state.selected_setting {
        chars_of(">")
    } else {
        chars_of(" ")
    };
    let value = setting_value_text(config, index);
    let available = cw as usize;
    let fixed = display_width(&marker) + display_width(&value) + 3;
    let name_chars = chars_of(SETTING_NAMES[index]);
    let name = truncate_to_width(&name_chars, available.saturating_sub(fixed));
    proof {
        lemma_truncated_printable(name_chars@, available.saturating_sub(fixed) as nat);
    }
    let gap = available.saturating_sub(display_width(&name) + display_width(&value) + 2);
    let mut line = marker;
    append_str(&mut line, " ");
    append_chars(&mut line, &name);
    append_chars(&mut line, &repeat(' ', gap));
    append_chars(&mut line, &value);
    line
}

#[verifier::rlimit(50)]
fn settings_lines(state: &crate::timer::State, config: &Config, width: u16, height: u16) -> (lines: Vec<Vec<char>>)
    ensures
        rows_view(lines@) == settings_all(state@, *config, width, height),
{
    let w = if width < 72 {
        width
    } else {
        72
    };
    let cw: u16 = if w >= 3 {
        w - 2
    } else {
        1
    };
    assert(cw == settings_width(width));
    let mut lines: Vec<Vec<char>> = Vec::new();
    push_row(&mut lines, center_str("PTIMER SETTINGS", cw));
    push_row(&mut lines, center_str("use arrows to select and change", cw));
    push_row(&mut lines, Vec::new());
    let ghost head = rows_view(lines@);
    let reserved: usize = if state.save_message.is_some() {
        6
    } else {
        5
    };
    let fit = (height as usize).saturating_sub(reserved);
    let fit = if fit < 1 {
        1
    } else {
        fit
    };
    let visible = if fit > 9 {
        9
    } else {
        fit
    };
    let start = state.selected_setting.saturating_sub(visible / 2);
    let first = if start > 9 - visible {
        9 - visible
    } else {
        start
    };
    assert(visible == visible_settings(state@, height));
    assert(first == first_visible(state@, height));
    for i in 0..visible
        invariant
            visible <= 9,
            first + visible <= 9,
            rows_view(lines@) == head + Seq::new(
                i as nat,
                |k: int| setting_line(state@, *config, cw, first + k),
            ),
    {
        let line = setting_line_text(state, config, cw, first + i);
        push_row(&mut lines, line);
        assert(rows_view(lines@) =~= head + Seq::new(
            (i + 1) as nat,
            |k: int| setting_line(state@, *config, cw, first + k),
        ));
    }
    push_row(&mut lines, Vec::new());
    match &state.save_message {
        Some(message) => {
            push_row(&mut lines, center_str(message.as_str(), cw));
        },
        None => {},
    }
    push_row(&mut lines, center_str("[t] test alerts  [r] defaults  [enter/e/esc] done", cw));
    assert(rows_view(lines@) =~= settings_all(state@, *config, width, height));
    lines
}

/// The settings screen's lines for a terminal of `width` columns and
/// `height` rows.
pub fn settings_screen(state: &crate::timer::State, config: &Config, width: u16, height: u16) -> (lines: Vec<String>)
    ensures
        strings_view(lines@) == settings_rows(state@, *config, width, height),
{
    let mut lines = settings_lines(state, config, width, height);
    let ghost all = rows_view(lines@);
    assert(all.len() == lines@.len());
    lines.truncate(height as usize);
    assert(rows_view(lines@) =~= settings_rows(state@, *config, width, height));
    strings_of(&lines)
}

/// The colour a line is drawn in.
#[derive(Copy, Clone, Debug, PartialEq, Eq, Structural)]
pub enum Color {
    Cyan,
    Grey,
    Yellow,
    Green,
    Magenta,
}

/// A line placed on the terminal.
pub struct Placed {
    /// The column it starts at.
    pub x: u16,
    /// The row it is on.
    pub y: u16,
    pub text: String,
    pub color: Color,
    pub bold: bool,
    pub reverse: bool,
}

/// A placed line as plain values.
pub struct PlacedView {
    pub x: u16,
    pub y: int,
    pub text: Seq<char>,
    pub color: Color,
    pub bold: bool,
    pub reverse: bool,
}

/// The placed lines as plain values.
pub open spec fn placed_view(placed: Seq<Placed>) -> Seq<PlacedView> {
    placed.map_values(
        |p: Placed|
            PlacedView {
                x: p.x,
                y: p.y as int,
                text: p.text@,
                color: p.color,
                bold: p.bold,
                reverse: p.reverse,
            },
    )
}

/// The colour of the main screen in a phase.
pub open spec fn phase_color(phase: Phase) -> Color {
    match phase {
        Phase::Idle => Color::Yellow,
        Phase::Work => Color::Cyan,
        Phase::Short => Color::Green,
        Phase::Long => Color::Magenta,
    }
}

/// The lines of the screen showing: the settings or the main screen.
pub open spec fn screen_rows(state: StateView, config: Config) -> Seq<Seq<char>> {
    if state.settings_open {
        settings_rows(state, config, state.last_size.0, state.last_size.1)
    } else {
        normal_rows(state, config, state.last_size.0, state.last_size.1)
    }
}

/// Where and how each line of the screen is drawn: the block of lines
/// (as many as there are rows) centred vertically, each line cut to the
/// columns and centred by its display width; the first line bold; on the
/// settings screen the selected line (it starts with `>`) in cyan and
/// reversed and the others grey, on the main screen every line in the
/// phase's colour.
pub open spec fn placement(state: StateView, config: Config) -> Seq<PlacedView> {
    let cols = state.last_size.0;
    let rows = state.last_size.1;
    let lines = screen_rows(state, config);
    let shown = if lines.len() < rows {
        lines.len() as int
    } else {
        rows as int
    };
    let y_offset = saturating_sub(rows as int, shown) / 2;
    Seq::new(
        shown as nat,
        |row: int|
            {
                let selected = state.settings_open && lines[row].len() > 0 && lines[row][0] == '>';
                let text = truncated(lines[row], cols as nat);
                PlacedView {
                    x: (saturating_sub(cols as int, (display_columns(text) as u16) as int) / 2) as u16,
                    y: y_offset + row,
                    text,
                    color: if state.settings_open {
                        if selected {
                            Color::Cyan
                        } else {
                            Color::Grey
                        }
                    } else {
                        phase_color(state.phase)
                    },
                    bold: row == 0,
                    reverse: selected,
                }
            },
    )
}

/// Where and how each line of the screen is drawn.
pub fn draw_plan(state: &crate::timer::State, config: &Config) -> (placed: Vec<Placed>)
    ensures
        placed_view(placed@) == placement(state@, *config),
{
    let cols = state.last_size.0;
    let rows = state.last_size.1;
    let lines = if state.settings_open {
        settings_screen(state, config, cols, rows)
    } else {
        normal_screen(state, config, cols, rows)
    };
    let ghost lv = strings_view(lines@);
    assert(lv == screen_rows(state@, *config));
    assert(lv.len() == lines@.len());
    let shown: usize = if lines.len() < rows as usize {
        lines.len()
    } else {
        rows as usize
    };
    let y_offset: u16 = rows.saturating_sub(shown as u16) / 2;
    let ghost spec_shown = if screen_rows(state@, *config).len() < rows {
        screen_rows(state@, *config).len() as int
    } else {
        rows as int
    };
    assert(spec_shown == shown);
    assert(placement(state@, *config).len() == spec_shown);
    let mut placed: Vec<Placed> = Vec::new();
    for row in 0..shown
        invariant
            shown <= rows,
            shown <= lines@.len(),
            shown == placement(state@, *config).len(),
            lv == strings_view(lines@),
            lv == screen_rows(state@, *config),
            y_offset == saturating_sub(rows as int, shown as int) / 2,
            cols == state@.last_size.0,
            rows == state@.last_size.1,
            placed_view(placed@) == placement(state@, *config).take(row as int),
    {
        let text = chars_of(lines[row].as_str());
        assert(text@ == lv[row as int]);
        let selected = state.settings_open && text.len() > 0 && text[0] == '>';
        let cut = truncate_to_width(&text, cols as usize);
        let used = display_width(&cut) as u16;
        let x = cols.saturating_sub(used) / 2;
        let color = if state.settings_open {
            if selected {
                Color::Cyan
            } else {
                Color::Grey
            }
        } else {
            match state.phase {
                Phase::Idle => Color::Yellow,
                Phase::Work => Color::Cyan,
                Phase::Short => Color::Green,
                Phase::Long => Color::Magenta,
            }
        };
        let item = Placed {
            x,
            y: y_offset + row as u16,
            text: string_of(&cut),
            color,
            bold: row == 0,
            reverse: selected,
        };
        let ghost before = placed_view(placed@);
        assert(before.len() == placed@.len());
        let ghost expected = placement(state@, *config)[row as int];
        assert(item.text@ == expected.text);
        assert(item.x == expected.x);
        assert(item.y as int == expected.y);
        assert(item.color == expected.color);
        assert(item.reverse == expected.reverse);
        placed.push(item);
        assert(placed_view(placed@) =~= placement(state@, *config).take(row + 1));
    }
    assert(placement(state@, *config).take(shown as int) =~= placement(state@, *config));
    placed
}

} // verus!

//! How the main and settings screens fit the terminal they are drawn on.

use vstd::prelude::*;

use crate::screen::{
    art_rows, centered_all, clock_rows, content_width, digital_row, first_visible, glyph_index,
    grand_body, grand_clock, join_spaced, keys_long, keys_short, left_column, left_rows, mmss,
    normal_rows, boxed_rows, capped, MAX_COLUMNS, MAX_ROWS, plain_clock, progress_bar, right_column, row_or_empty, saturating_sub,
    sessions_text, setting_line, settings_all, settings_rows, settings_width, stacked_body,
    status_text, two_column_body, two_column_row, visible_settings, with_footer, placement,
    lemma_concat_printable, lemma_decimal_printable, lemma_labels_printable,
    lemma_truncated_printable, lemma_setting_texts_printable, setting_value, SETTING_NAMES,
    DIGITS,
};
use crate::text::{decimal_digits, lines_of, repeat_char, trim_end, zero_padded};
use crate::width::{all_printable_ascii, centered, display_columns, is_printable_ascii, truncated};
use crate::settings::{ClockStyle, Config, Phase};
use crate::timer::{well_formed, StateView};

verus! {

/// The clock is one line, or five for the digital clock of a running phase
/// given at least 25 columns.
pub proof fn lemma_clock_height(state: StateView, config: Config, available_width: u16)
    ensures
        clock_rows(state, config, available_width).len() == if config.clock_style
            == ClockStyle::Digital && state.phase != Phase::Idle && available_width >= 25 {
            5int
        } else {
            1int
        },
{
}

/// The art takes no more rows than it is given.
pub proof fn lemma_art_height(state: StateView, max_width: u16, max_height: int)
    requires
        max_height >= 0,
    ensures
        art_rows(state, max_width, max_height).len() <= max_height,
{
}

/// The layout above the footer leaves the footer its three rows.
proof fn lemma_body_height(state: StateView, config: Config, width: u16, height: u16)
    requires
        width >= 18,
        height >= 9,
    ensures
        crate::settings::is_grand_style(config.art_style) && width >= 76 && height >= 22
            ==> grand_body(state, config, width, height).len() + 3 <= height,
        !(crate::settings::is_grand_style(config.art_style) && width >= 76 && height >= 22)
            && width >= 68 && height >= 15 ==> two_column_body(state, config, width, height).len()
            + 3 <= height,
        !(width >= 27 && height <= 11 && config.clock_style == ClockStyle::Digital && state.phase
            != Phase::Idle) ==> stacked_body(state, config, width, height).len() + 3 <= height,
        stacked_body(state, config, width, height).len() + 3 <= height || stacked_body(
            state,
            config,
            width,
            height,
        ).len() <= 9,
{
    let cw = content_width(width);
    lemma_clock_height(state, config, cw);
    let grand = grand_clock(state, config, cw, height);
    assert(grand.len() <= 5);
    assert(height < 28 ==> grand.len() == 1);
    let grand_head_len = 5 + grand.len();
    lemma_art_height(state, cw, saturating_sub(height as int, grand_head_len + 6int));
    let lw = crate::screen::left_column(width);
    lemma_clock_height(state, config, lw);
    assert(left_rows(state, config, width).len() <= 7);
    lemma_art_height(
        state,
        crate::screen::right_column(width),
        saturating_sub(height as int, 9),
    );
    let stacked_head_len = 4 + clock_rows(state, config, cw).len();
    lemma_art_height(state, cw, saturating_sub(height as int, stacked_head_len + 1 + 7int));
}

/// The main screen has no more lines than the terminal has rows, except
/// where the five-line digital clock of a running phase is stacked on a
/// terminal of 9 to 11 rows and 27 columns or more: there the layout needs
/// twelve.
pub proof fn lemma_main_screen_fits_height(
    state: StateView,
    config: Config,
    width: u16,
    height: u16,
)
    requires
        !(width >= 27 && 9 <= height <= 11 && config.clock_style == ClockStyle::Digital
            && state.phase != Phase::Idle),
    ensures
        normal_rows(state, config, width, height).len() <= height,
{
    let w = capped(width, MAX_COLUMNS);
    let h = capped(height, MAX_ROWS);
    if !(w < 18 || h < 9) {
        lemma_body_height(state, config, w, h);
    }
}

/// The main screen is laid out in a box of at most 100 rows, and, when the
/// art's lines are printable ASCII, at most 150 columns.
pub proof fn lemma_main_screen_in_its_box(
    state: StateView,
    config: Config,
    width: u16,
    height: u16,
)
    ensures
        normal_rows(state, config, width, height).len() <= MAX_ROWS,
        art_printable(state) ==> forall|i: int|
            0 <= i < normal_rows(state, config, width, height).len() ==> display_columns(
                #[trigger] normal_rows(state, config, width, height)[i],
            ) <= MAX_COLUMNS,
{
    let w = capped(width, MAX_COLUMNS);
    let h = capped(height, MAX_ROWS);
    if !(w < 18 || h < 9) {
        lemma_body_height(state, config, w, h);
    }
    if art_printable(state) {
        lemma_main_screen_fits_width(state, config, width, height);
    }
}

/// The settings screen never has more lines than the terminal has rows.
pub proof fn lemma_settings_screen_fits_height(
    state: StateView,
    config: Config,
    width: u16,
    height: u16,
)
    ensures
        settings_rows(state, config, width, height).len() <= height,
{
}

/// With four rows or more the settings screen shows the selected setting,
/// marked with `>` at the start of its line.
pub proof fn lemma_selection_is_shown(state: StateView, config: Config, width: u16, height: u16)
    requires
        well_formed(state),
        height >= 4,
    ensures
        ({
            let rows = settings_rows(state, config, width, height);
            let row = 3 + state.selected_setting - first_visible(state, height);
            &&& 0 <= row < rows.len()
            &&& rows[row] == setting_line(
                state,
                config,
                settings_width(width),
                state.selected_setting as int,
            )
            &&& rows[row][0] == '>'
        }),
{
    let visible = visible_settings(state, height);
    let first = first_visible(state, height);
    let selected = state.selected_setting as int;
    assert(1 <= visible <= 9);
    assert(first <= selected < first + visible);
    let all = settings_all(state, config, width, height);
    let row = 3 + selected - first;
    assert(all[row] == setting_line(state, config, settings_width(width), first + (row - 3)));
    reveal_strlit(">");
}


/// Every row is printable ASCII and at most `width` characters long.
pub open spec fn rows_fit(rows: Seq<Seq<char>>, width: int) -> bool {
    forall|i: int|
        0 <= i < rows.len() ==> all_printable_ascii(#[trigger] rows[i]) && rows[i].len() <= width
}

/// The state's art, empty when there is none.
pub open spec fn art_text(state: StateView) -> Seq<char> {
    match state.ascii_art {
        Some(a) => a,
        None => Seq::<char>::empty(),
    }
}

/// Every line of the state's art is printable ASCII.
pub open spec fn art_printable(state: StateView) -> bool {
    forall|i: int|
        0 <= i < lines_of(art_text(state)).len() ==> all_printable_ascii(
            #[trigger] lines_of(art_text(state))[i],
        )
}

proof fn lemma_repeat_printable(c: char, n: nat)
    requires
        is_printable_ascii(c),
    ensures
        all_printable_ascii(repeat_char(c, n)),
        repeat_char(c, n).len() == n,
{
}

proof fn lemma_empty_printable()
    ensures
        all_printable_ascii(Seq::<char>::empty()),
{
}

/// Printable text centred in `width` columns is printable and exactly
/// `width` characters long.
proof fn lemma_centered_fits(text: Seq<char>, width: nat)
    requires
        all_printable_ascii(text),
    ensures
        all_printable_ascii(centered(text, width)),
        centered(text, width).len() == width,
{
    lemma_truncated_printable(text, width);
    let cut = truncated(text, width);
    let used = display_columns(cut);
    assert(used == cut.len());
    let remaining: nat = if used < width {
        (width - used) as nat
    } else {
        0
    };
    let left = remaining / 2;
    lemma_repeat_printable(' ', left);
    lemma_repeat_printable(' ', (remaining - left) as nat);
    lemma_concat_printable(repeat_char(' ', left), cut);
    lemma_concat_printable(repeat_char(' ', left) + cut, repeat_char(' ', (remaining - left) as nat));
}

proof fn lemma_centered_all_fits(rows: Seq<Seq<char>>, width: u16)
    requires
        forall|i: int| 0 <= i < rows.len() ==> all_printable_ascii(#[trigger] rows[i]),
    ensures
        rows_fit(centered_all(rows, width), width as int),
        centered_all(rows, width).len() == rows.len(),
{
    assert forall|i: int| 0 <= i < centered_all(rows, width).len() implies all_printable_ascii(
        #[trigger] centered_all(rows, width)[i],
    ) && centered_all(rows, width)[i].len() <= width by {
        lemma_centered_fits(rows[i], width as nat);
    }
}

proof fn lemma_rows_fit_concat(a: Seq<Seq<char>>, b: Seq<Seq<char>>, width: int)
    requires
        rows_fit(a, width),
        rows_fit(b, width),
    ensures
        rows_fit(a + b, width),
{
    assert forall|i: int| 0 <= i < (a + b).len() implies all_printable_ascii(#[trigger] (a + b)[i])
        && (a + b)[i].len() <= width by {
        if i < a.len() {
            assert((a + b)[i] == a[i]);
        } else {
            assert((a + b)[i] == b[i - a.len()]);
        }
    }
}

proof fn lemma_zero_padded_printable(n: nat, width: nat)
    ensures
        all_printable_ascii(zero_padded(n, width)),
{
    lemma_decimal_printable(n);
    let digits = decimal_digits(n);
    if digits.len() < width {
        lemma_repeat_printable('0', (width - digits.len()) as nat);
        lemma_concat_printable(repeat_char('0', (width - digits.len()) as nat), digits);
    }
}

proof fn lemma_mmss_printable(remaining_ms: u128)
    ensures
        all_printable_ascii(mmss(remaining_ms)),
{
    let total = crate::timer::seconds_left(remaining_ms) as nat;
    lemma_zero_padded_printable(total / 60, 2);
    lemma_zero_padded_printable(total % 60, 2);
    reveal_strlit(":");
    lemma_concat_printable(zero_padded(total / 60, 2), ":"@);
    lemma_concat_printable(zero_padded(total / 60, 2) + ":"@, zero_padded(total % 60, 2));
}

/// Every row of every glyph of the digital clock is printable.
proof fn lemma_digits_printable()
    ensures
        forall|g: int, r: int|
            0 <= g < 11 && 0 <= r < 5 ==> all_printable_ascii(#[trigger] DIGITS@[g]@[r]@),
{
    reveal_strlit(" __ ");
    reveal_strlit("|  |");
    reveal_strlit("|__|");
    reveal_strlit("    ");
    reveal_strlit("   |");
    reveal_strlit(" __|");
    reveal_strlit("|   ");
    reveal_strlit("|__ ");
    reveal_strlit(" ");
    reveal_strlit("o");
    assert forall|g: int, r: int| 0 <= g < 11 && 0 <= r < 5 implies all_printable_ascii(
        #[trigger] DIGITS@[g]@[r]@,
    ) by {
        if g == 0 {
        } else if g == 1 {
        } else if g == 2 {
        } else if g == 3 {
        } else if g == 4 {
        } else if g == 5 {
        } else if g == 6 {
        } else if g == 7 {
        } else if g == 8 {
        } else if g == 9 {
        } else {
        }
    }
}

proof fn lemma_join_spaced_printable(parts: Seq<Seq<char>>)
    requires
        forall|i: int| 0 <= i < parts.len() ==> all_printable_ascii(#[trigger] parts[i]),
    ensures
        all_printable_ascii(join_spaced(parts)),
    decreases parts.len(),
{
    if parts.len() >= 2 {
        let init = parts.drop_last();
        assert forall|i: int| 0 <= i < init.len() implies all_printable_ascii(#[trigger] init[i]) by {
            assert(init[i] == parts[i]);
        }
        lemma_join_spaced_printable(init);
        assert(all_printable_ascii(parts.last()));
        lemma_concat_printable(join_spaced(init), seq![' ']);
        lemma_concat_printable(join_spaced(init) + seq![' '], parts.last());
    } else if parts.len() == 1 {
        assert(all_printable_ascii(parts[0]));
    }
}

proof fn lemma_trim_end_printable(s: Seq<char>)
    requires
        all_printable_ascii(s),
    ensures
        all_printable_ascii(trim_end(s)),
{
    crate::text::lemma_trim_end_prefix(s);
    let t = trim_end(s);
    assert forall|i: int| 0 <= i < t.len() implies is_printable_ascii(#[trigger] t[i]) by {
        assert(t[i] == s[i]);
    }
}

/// Every line of the clock is printable.
proof fn lemma_clock_printable(state: StateView, config: Config, available_width: u16)
    ensures
        forall|i: int|
            0 <= i < clock_rows(state, config, available_width).len() ==> all_printable_ascii(
                #[trigger] clock_rows(state, config, available_width)[i],
            ),
{
    let plain = plain_clock(state);
    lemma_mmss_printable(state.remaining_ms);
    reveal_strlit("--:--");
    reveal_strlit("ready");
    reveal_strlit("m ");
    reveal_strlit("s");
    assert(all_printable_ascii(plain));
    let rows = clock_rows(state, config, available_width);
    if config.clock_style == ClockStyle::Minimal && state.phase != Phase::Idle {
        let total = crate::timer::seconds_left(state.remaining_ms) as nat;
        lemma_decimal_printable(total / 60);
        lemma_zero_padded_printable(total % 60, 2);
        lemma_concat_printable(decimal_digits(total / 60), "m "@);
        lemma_concat_printable(decimal_digits(total / 60) + "m "@, zero_padded(total % 60, 2));
        lemma_concat_printable(
            decimal_digits(total / 60) + "m "@ + zero_padded(total % 60, 2),
            "s"@,
        );
    }
    if config.clock_style == ClockStyle::Digital && state.phase != Phase::Idle && available_width
        >= 25 {
        lemma_digits_printable();
        assert forall|r: int| 0 <= r < 5 implies all_printable_ascii(
            #[trigger] digital_row(plain, r),
        ) by {
            let parts = plain.map_values(|c: char| DIGITS@[glyph_index(c)]@[r]@);
            assert forall|i: int| 0 <= i < parts.len() implies all_printable_ascii(
                #[trigger] parts[i],
            ) by {
                let g = glyph_index(plain[i]);
                assert(0 <= g < 11);
                assert(all_printable_ascii(DIGITS@[g]@[r]@));
            }
            lemma_join_spaced_printable(parts);
            lemma_trim_end_printable(join_spaced(parts));
        }
        assert forall|i: int| 0 <= i < rows.len() implies all_printable_ascii(#[trigger] rows[i]) by {
            assert(rows[i] == digital_row(plain, i));
        }
    }
}

/// The art's rows are printable and cut to the width they are given.
proof fn lemma_art_fits(state: StateView, max_width: u16, max_height: int)
    requires
        art_printable(state),
        max_height >= 0,
    ensures
        rows_fit(art_rows(state, max_width, max_height), max_width as int),
{
    let art = art_text(state);
    let rows = art_rows(state, max_width, max_height);
    assert forall|i: int| 0 <= i < rows.len() implies all_printable_ascii(#[trigger] rows[i])
        && rows[i].len() <= max_width by {
        assert(0 <= i < lines_of(art).len());
        assert(all_printable_ascii(lines_of(art)[i]));
        lemma_truncated_printable(lines_of(art)[i], max_width as nat);
    }
}

proof fn lemma_status_printable(state: StateView)
    ensures
        all_printable_ascii(status_text(state)),
{
    lemma_labels_printable();
    reveal_strlit("[ ");
    reveal_strlit(" / PAUSED ]");
    reveal_strlit(" ]");
    let label = crate::settings::phase_label(state.phase);
    lemma_concat_printable("[ "@, label);
    lemma_concat_printable("[ "@ + label, " / PAUSED ]"@);
    lemma_concat_printable("[ "@ + label, " ]"@);
}

/// The stacked and grand layouts hold centred or blank lines only; the two
/// columns are as wide as the content together.
proof fn lemma_body_fits(state: StateView, config: Config, width: u16, height: u16)
    requires
        art_printable(state),
        width >= 18,
    ensures
        rows_fit(grand_body(state, config, width, height), content_width(width) as int),
        width >= 68 ==> rows_fit(
            two_column_body(state, config, width, height),
            content_width(width) as int,
        ),
        rows_fit(stacked_body(state, config, width, height), content_width(width) as int),
{
    let cw = content_width(width);
    reveal_strlit("PTIMER");
    lemma_status_printable(state);
    lemma_empty_printable();
    lemma_centered_fits("PTIMER"@, cw as nat);
    lemma_centered_fits(status_text(state), cw as nat);
    let head = seq![
        centered("PTIMER"@, cw as nat),
        Seq::<char>::empty(),
        centered(status_text(state), cw as nat),
        Seq::<char>::empty(),
    ];
    assert(rows_fit(head, cw as int));
    let blank = seq![Seq::<char>::empty()];
    assert(rows_fit(blank, cw as int));

    // The grand layout.
    lemma_clock_printable(state, config, cw);
    let gclock = grand_clock(state, config, cw, height);
    assert forall|i: int| 0 <= i < gclock.len() implies all_printable_ascii(#[trigger] gclock[i]) by {
        if height < 28 && clock_rows(state, config, cw).len() > 1 {
            lemma_mmss_printable(state.remaining_ms);
            reveal_strlit("--:--");
            assert(gclock[i] == plain_clock(state));
        }
    }
    lemma_centered_all_fits(gclock, cw);
    lemma_rows_fit_concat(head, centered_all(gclock, cw), cw as int);
    let ghead = head + centered_all(gclock, cw) + blank;
    lemma_rows_fit_concat(head + centered_all(gclock, cw), blank, cw as int);
    let gart = art_rows(state, cw, saturating_sub(height as int, ghead.len() + 6int));
    lemma_art_fits(state, cw, saturating_sub(height as int, ghead.len() + 6int));
    assert forall|i: int| 0 <= i < gart.len() implies all_printable_ascii(#[trigger] gart[i]) by {}
    lemma_centered_all_fits(gart, cw);
    lemma_rows_fit_concat(ghead, centered_all(gart, cw), cw as int);

    // The stacked layout.
    let sclock = clock_rows(state, config, cw);
    lemma_centered_all_fits(sclock, cw);
    let shead = head + centered_all(sclock, cw);
    lemma_rows_fit_concat(head, centered_all(sclock, cw), cw as int);
    let with_gap = shead.push(Seq::<char>::empty());
    assert(with_gap == shead + blank);
    lemma_rows_fit_concat(shead, blank, cw as int);
    let sart = art_rows(state, cw, saturating_sub(height as int, with_gap.len() + 7int));
    lemma_art_fits(state, cw, saturating_sub(height as int, with_gap.len() + 7int));
    assert forall|i: int| 0 <= i < sart.len() implies all_printable_ascii(#[trigger] sart[i]) by {}
    lemma_centered_all_fits(sart, cw);
    lemma_rows_fit_concat(with_gap, centered_all(sart, cw), cw as int);

    // The two columns.
    if width >= 68 {
        let lw = left_column(width);
        let rw = right_column(width);
        assert(lw + 2 + rw == cw);
        let left = left_rows(state, config, width);
        lemma_centered_fits(status_text(state), lw as nat);
        lemma_clock_printable(state, config, lw);
        lemma_centered_all_fits(clock_rows(state, config, lw), lw);
        let ltop = seq![centered(status_text(state), lw as nat), Seq::<char>::empty()];
        assert(rows_fit(ltop, lw as int));
        lemma_rows_fit_concat(ltop, centered_all(clock_rows(state, config, lw), lw), lw as int);
        let art = art_rows(state, rw, saturating_sub(height as int, 9));
        lemma_art_fits(state, rw, saturating_sub(height as int, 9));
        let count = if left.len() >= art.len() {
            left.len()
        } else {
            art.len()
        };
        let rows = Seq::new(
            count,
            |i: int| two_column_row(row_or_empty(left, i), row_or_empty(art, i), lw, rw),
        );
        assert forall|i: int| 0 <= i < rows.len() implies all_printable_ascii(#[trigger] rows[i])
            && rows[i].len() <= cw by {
            let lhs = row_or_empty(left, i);
            let rhs = row_or_empty(art, i);
            assert(all_printable_ascii(lhs) && lhs.len() <= lw);
            assert(all_printable_ascii(rhs) && rhs.len() <= rw);
            assert(display_columns(lhs) == lhs.len());
            assert(display_columns(rhs) == rhs.len());
            let lpad = repeat_char(' ', (lw - lhs.len()) as nat);
            let rpad = repeat_char(' ', (rw - rhs.len()) as nat);
            lemma_repeat_printable(' ', (lw - lhs.len()) as nat);
            lemma_repeat_printable(' ', (rw - rhs.len()) as nat);
            reveal_strlit("  ");
            lemma_concat_printable(lhs, lpad);
            lemma_concat_printable(lhs + lpad, "  "@);
            lemma_concat_printable(lhs + lpad + "  "@, rhs);
            lemma_concat_printable(lhs + lpad + "  "@ + rhs, rpad);
            assert(rows[i] == lhs + lpad + "  "@ + rhs + rpad);
        }
        let top = seq![centered("PTIMER"@, cw as nat), Seq::<char>::empty()];
        assert(rows_fit(top, cw as int));
        lemma_rows_fit_concat(top, rows, cw as int);
    }
}

/// Adding the footer keeps the rows within the content's width.
proof fn lemma_footer_fits(
    body: Seq<Seq<char>>,
    state: StateView,
    config: Config,
    cw: u16,
    height: u16,
)
    requires
        rows_fit(body, cw as int),
    ensures
        rows_fit(with_footer(body, state, config, cw, height), cw as int),
{
    let inner = crate::screen::bar_cells(cw);
    let filled = crate::screen::filled_cells(state, config, inner);
    reveal_strlit("[");
    reveal_strlit("]");
    lemma_repeat_printable('#', filled as nat);
    lemma_repeat_printable('-', (inner - filled) as nat);
    lemma_concat_printable("["@, repeat_char('#', filled as nat));
    lemma_concat_printable("["@ + repeat_char('#', filled as nat), repeat_char('-', (inner - filled) as nat));
    lemma_concat_printable(
        "["@ + repeat_char('#', filled as nat) + repeat_char('-', (inner - filled) as nat),
        "]"@,
    );
    lemma_centered_fits(progress_bar(state, config, cw), cw as nat);
    lemma_decimal_printable(state.sessions_completed as nat);
    lemma_decimal_printable(config.long_every as nat);
    reveal_strlit("sessions ");
    reveal_strlit(" / long break every ");
    lemma_concat_printable("sessions "@, decimal_digits(state.sessions_completed as nat));
    lemma_concat_printable(
        "sessions "@ + decimal_digits(state.sessions_completed as nat),
        " / long break every "@,
    );
    lemma_concat_printable(
        "sessions "@ + decimal_digits(state.sessions_completed as nat) + " / long break every "@,
        decimal_digits(config.long_every as nat),
    );
    lemma_centered_fits(sessions_text(state, config), cw as nat);
    reveal_strlit("[s] start  [p] pause  [e] settings  [q] quit");
    reveal_strlit("s:start  p:pause  e:settings  q:quit");
    lemma_centered_fits(keys_long(), cw as nat);
    lemma_centered_fits(keys_short(), cw as nat);
    lemma_empty_printable();
    let tail = seq![Seq::<char>::empty(), centered(progress_bar(state, config, cw), cw as nat)];
    assert(rows_fit(tail, cw as int));
    lemma_rows_fit_concat(body, tail, cw as int);
    let more = seq![
        Seq::<char>::empty(),
        centered(sessions_text(state, config), cw as nat),
        centered(keys_long(), cw as nat),
    ];
    assert(rows_fit(more, cw as int));
    lemma_rows_fit_concat(body + tail, more, cw as int);
    let short = seq![centered(keys_short(), cw as nat)];
    assert(rows_fit(short, cw as int));
    lemma_rows_fit_concat(body + tail, short, cw as int);
    assert((body + tail).push(centered(keys_short(), cw as nat)) == (body + tail) + short);
}

/// Every line of the main screen fits the terminal's width, and 150
/// columns, and in the laid-out screens (18 columns and 9 rows or more) the
/// content's width, when the art's lines are printable ASCII (the width of
/// other text is the crate's measure, which nothing here can add up).
pub proof fn lemma_main_screen_fits_width(
    state: StateView,
    config: Config,
    width: u16,
    height: u16,
)
    requires
        art_printable(state),
    ensures
        forall|i: int|
            0 <= i < normal_rows(state, config, width, height).len() ==> display_columns(
                #[trigger] normal_rows(state, config, width, height)[i],
            ) <= capped(width, MAX_COLUMNS),
        width >= 18 && height >= 9 ==> forall|i: int|
            0 <= i < normal_rows(state, config, width, height).len() ==> display_columns(
                #[trigger] normal_rows(state, config, width, height)[i],
            ) <= content_width(width),
{
    let rows = normal_rows(state, config, width, height);
    let full_width = width;
    let width = capped(full_width, MAX_COLUMNS);
    let height = capped(height, MAX_ROWS);
    assert(rows == boxed_rows(state, config, width, height));
    if width < 18 || height < 9 {
        lemma_labels_printable();
        lemma_mmss_printable(state.remaining_ms);
        reveal_strlit("PTIMER");
        reveal_strlit("s e q");
        let all = seq!["PTIMER"@, crate::settings::phase_label(state.phase), mmss(state.remaining_ms), "s e q"@];
        assert forall|i: int| 0 <= i < rows.len() implies display_columns(#[trigger] rows[i]) <= width by {
            assert(all_printable_ascii(all[i]));
            lemma_truncated_printable(all[i], width as nat);
            assert(rows[i] == truncated(all[i], width as nat));
        }
    } else {
        let cw = content_width(width);
        lemma_body_fits(state, config, width, height);
        let body = if crate::settings::is_grand_style(config.art_style) && width >= 76 && height >= 22 {
            grand_body(state, config, width, height)
        } else if width >= 68 && height >= 15 {
            two_column_body(state, config, width, height)
        } else {
            stacked_body(state, config, width, height)
        };
        lemma_footer_fits(body, state, config, cw, height);
        assert(cw == content_width(full_width));
        assert forall|i: int| 0 <= i < rows.len() implies display_columns(#[trigger] rows[i]) <= width
            && display_columns(rows[i]) <= cw by {
            assert(all_printable_ascii(rows[i]) && rows[i].len() <= cw);
        }
    }
}


/// A setting's line is printable, as wide as the content or, where the
/// value leaves no room, the value and the marker's two columns.
pub proof fn lemma_setting_line_width(state: StateView, config: Config, cw: u16, index: int)
    requires
        0 <= index < 9,
    ensures
        all_printable_ascii(setting_line(state, config, cw, index)),
        setting_line(state, config, cw, index).len() == if cw >= setting_value(config, index).len()
            + 2 {
            cw as int
        } else {
            setting_value(config, index).len() + 2int
        },
{
    lemma_setting_texts_printable(config, index);
    reveal_strlit(">");
    reveal_strlit(" ");
    let marker = if index == state.selected_setting {
        ">"@
    } else {
        " "@
    };
    let value = setting_value(config, index);
    let available = cw as int;
    let fixed = display_columns(marker) + display_columns(value) + 3int;
    assert(display_columns(marker) == 1);
    assert(display_columns(value) == value.len());
    let budget = saturating_sub(available, fixed);
    let name = truncated(SETTING_NAMES@[index]@, budget as nat);
    lemma_truncated_printable(SETTING_NAMES@[index]@, budget as nat);
    assert(display_columns(name) == name.len());
    assert(name.len() <= budget);
    let gap = saturating_sub(available, display_columns(name) + display_columns(value) + 2int);
    lemma_repeat_printable(' ', gap as nat);
    lemma_concat_printable(marker, " "@);
    lemma_concat_printable(marker + " "@, name);
    lemma_concat_printable(marker + " "@ + name, repeat_char(' ', gap as nat));
    lemma_concat_printable(marker + " "@ + name + repeat_char(' ', gap as nat), value);
}

/// Every line of the settings screen fits the terminal's width, when the
/// message of the last save is printable ASCII, a shown screen has at least
/// one column, and each setting shown has room for its value and marker.
pub proof fn lemma_settings_screen_fits_width(
    state: StateView,
    config: Config,
    width: u16,
    height: u16,
)
    requires
        state.save_message matches Some(m) ==> all_printable_ascii(m),
        height >= 1 ==> width >= 1,
        forall|k: int|
            0 <= k < visible_settings(state, height) && 3 + k < height ==> setting_value(
                config,
                #[trigger] (first_visible(state, height) + k),
            ).len() + 2 <= width,
    ensures
        forall|i: int|
            0 <= i < settings_rows(state, config, width, height).len() ==> display_columns(
                #[trigger] settings_rows(state, config, width, height)[i],
            ) <= width,
{
    let cw = settings_width(width);
    let all = settings_all(state, config, width, height);
    let rows = settings_rows(state, config, width, height);
    let first = first_visible(state, height);
    let visible = visible_settings(state, height);
    reveal_strlit("PTIMER SETTINGS");
    reveal_strlit("use arrows to select and change");
    reveal_strlit("[t] test alerts  [r] defaults  [enter/e/esc] done");
    lemma_centered_fits("PTIMER SETTINGS"@, cw as nat);
    lemma_centered_fits("use arrows to select and change"@, cw as nat);
    lemma_centered_fits("[t] test alerts  [r] defaults  [enter/e/esc] done"@, cw as nat);
    match state.save_message {
        Some(m) => {
            lemma_centered_fits(m, cw as nat);
        },
        None => {},
    }
    lemma_empty_printable();
    assert forall|i: int| 0 <= i < rows.len() implies display_columns(#[trigger] rows[i]) <= width by {
        assert(rows[i] == all[i]);
        assert(i < height);
        if 3 <= i < 3 + visible {
            let k = i - 3;
            assert(all[i] == setting_line(state, config, cw, first + k));
            lemma_setting_line_width(state, config, cw, first + k);
            assert(setting_value(config, first + k).len() + 2 <= width);
        } else {
            assert(all_printable_ascii(all[i]) && all[i].len() <= cw);
        }
    }
}


/// Every line of the settings screen fits the content's width (the
/// terminal's up to 72 columns, less two, and at least one), when the
/// message of the last save is printable ASCII and each setting shown has
/// room in it for its value and marker.
pub proof fn lemma_settings_screen_fits_content(
    state: StateView,
    config: Config,
    width: u16,
    height: u16,
)
    requires
        state.save_message matches Some(m) ==> all_printable_ascii(m),
        forall|k: int|
            0 <= k < visible_settings(state, height) && 3 + k < height ==> setting_value(
                config,
                #[trigger] (first_visible(state, height) + k),
            ).len() + 2 <= settings_width(width),
    ensures
        forall|i: int|
            0 <= i < settings_rows(state, config, width, height).len() ==> display_columns(
                #[trigger] settings_rows(state, config, width, height)[i],
            ) <= settings_width(width),
{
    let cw = settings_width(width);
    let all = settings_all(state, config, width, height);
    let rows = settings_rows(state, config, width, height);
    let first = first_visible(state, height);
    let visible = visible_settings(state, height);
    reveal_strlit("PTIMER SETTINGS");
    reveal_strlit("use arrows to select and change");
    reveal_strlit("[t] test alerts  [r] defaults  [enter/e/esc] done");
    lemma_centered_fits("PTIMER SETTINGS"@, cw as nat);
    lemma_centered_fits("use arrows to select and change"@, cw as nat);
    lemma_centered_fits("[t] test alerts  [r] defaults  [enter/e/esc] done"@, cw as nat);
    match state.save_message {
        Some(m) => {
            lemma_centered_fits(m, cw as nat);
        },
        None => {},
    }
    lemma_empty_printable();
    assert forall|i: int| 0 <= i < rows.len() implies display_columns(#[trigger] rows[i]) <= cw by {
        assert(rows[i] == all[i]);
        assert(i < height);
        if 3 <= i < 3 + visible {
            let k = i - 3;
            assert(all[i] == setting_line(state, config, cw, first + k));
            lemma_setting_line_width(state, config, cw, first + k);
            assert(setting_value(config, first + k).len() + 2 <= cw);
        } else {
            assert(all_printable_ascii(all[i]) && all[i].len() <= cw);
        }
    }
}

/// Every line is drawn on one of the terminal's rows, the lines one below
/// the other, and a printable line lies within the terminal's columns.
pub proof fn lemma_drawn_within_terminal(state: StateView, config: Config)
    ensures
        forall|i: int|
            0 <= i < placement(state, config).len() ==> 0 <= (#[trigger] placement(
                state,
                config,
            )[i]).y < state.last_size.1,
        forall|i: int|
            0 < i < placement(state, config).len() ==> (#[trigger] placement(state, config)[i]).y
                == placement(state, config)[i - 1].y + 1,
        forall|i: int|
            0 <= i < placement(state, config).len() && all_printable_ascii(
                (#[trigger] placement(state, config)[i]).text,
            ) ==> placement(state, config)[i].x + placement(state, config)[i].text.len()
                <= state.last_size.0,
{
    let cols = state.last_size.0;
    let placed = placement(state, config);
    assert forall|i: int|
        0 <= i < placed.len() && all_printable_ascii(
            (#[trigger] placed[i]).text,
        ) implies placed[i].x + placed[i].text.len() <= cols by {
        let text = placed[i].text;
        assert(display_columns(text) == text.len());
        assert(text.len() <= cols) by {
            let lines = crate::screen::screen_rows(state, config);
            crate::width::lemma_fitting(lines[i], cols as int);
            assert(text == truncated(lines[i], cols as nat));
            assert(text.len() == crate::width::fitting_count(lines[i], cols as int));
            lemma_printable_columns(text);
        }
    }
}

/// Printable text takes a column a character.
proof fn lemma_printable_columns(s: Seq<char>)
    requires
        all_printable_ascii(s),
    ensures
        crate::width::columns(s) == s.len(),
    decreases s.len(),
{
    if s.len() > 0 {
        let init = s.drop_last();
        assert forall|i: int| 0 <= i < init.len() implies is_printable_ascii(#[trigger] init[i]) by {
            assert(init[i] == s[i]);
        }
        lemma_printable_columns(init);
    }
}

} // verus!

//! A character canvas that sprites are stamped onto, and its rendering.

use vstd::prelude::*;

use crate::text::{is_white_space, lemma_trim_end_prefix, lemma_lines_of_join, lemma_lines_plain, lines_of, no_newline, pad_right, padded, split_lines, strip_cr, rows_view, chars_of, join_lines, join_rows, repeat, repeat_char, string_of, trim_end, trimmed_end};

verus! {

/// The sprite's lines as character sequences.
pub open spec fn sprite_view(sprite: Seq<&str>) -> Seq<Seq<char>> {
    sprite.map_values(|line: &str| line@)
}

/// What cell (`r`, `col`) holds after the sprite is stamped with its top left
/// corner at column `x` of row `y`: the sprite's character where it has one
/// that is not a space, the canvas's own otherwise.
pub open spec fn stamped_cell(
    canvas: Seq<Seq<char>>,
    sprite: Seq<Seq<char>>,
    x: int,
    y: int,
    r: int,
    col: int,
) -> char {
    let dy = r - y;
    let dx = col - x;
    if 0 <= dy < sprite.len() && 0 <= dx < sprite[dy].len() && sprite[dy][dx] != ' ' {
        sprite[dy][dx]
    } else {
        canvas[r][col]
    }
}

/// The canvas after stamping: same rows, same row lengths, each cell as
/// `stamped_cell` says.
pub open spec fn stamped(canvas: Seq<Seq<char>>, sprite: Seq<Seq<char>>, x: int, y: int) -> Seq<
    Seq<char>,
> {
    Seq::new(
        canvas.len(),
        |r: int| Seq::new(canvas[r].len(), |col: int| stamped_cell(canvas, sprite, x, y, r, col)),
    )
}

/// A canvas of `height` rows of `width` spaces.
pub open spec fn blank_canvas(width: nat, height: nat) -> Seq<Seq<char>> {
    Seq::new(height, |_r: int| repeat_char(' ', width))
}

/// The text of a canvas: each row without trailing white space, the rows
/// joined with newlines.
pub open spec fn canvas_text(canvas: Seq<Seq<char>>) -> Seq<char> {
    join_lines(canvas.map_values(|row: Seq<char>| trim_end(row)))
}

/// A blank canvas.
pub fn blank(width: usize, height: usize) -> (canvas: Vec<Vec<char>>)
    ensures
        rows_view(canvas@) == blank_canvas(width as nat, height as nat),
        canvas@.len() == height,
        forall|r: int| 0 <= r < height ==> (#[trigger] rows_view(canvas@)[r]).len() == width,
{
    let mut canvas: Vec<Vec<char>> = Vec::new();
    for r in 0..height
        invariant
            rows_view(canvas@) == blank_canvas(width as nat, r as nat),
    {
        let row = repeat(' ', width);
        let ghost before = rows_view(canvas@);
        assert(before.len() == canvas@.len());
        assert(before.len() == r);
        canvas.push(row);
        assert(rows_view(canvas@).len() == r + 1);
        assert forall|i: int| 0 <= i < r + 1 implies #[trigger] rows_view(canvas@)[i] == blank_canvas(width as nat, (r + 1) as nat)[i] by {
            assert(rows_view(canvas@)[i] == canvas@[i]@);
            if i < r {
                assert(before[i] == blank_canvas(width as nat, r as nat)[i]);
            }
        }
        assert(rows_view(canvas@) =~= blank_canvas(width as nat, (r + 1) as nat));
    }
    canvas
}

/// What a row holds after a sprite line is stamped on it from column `x`.
pub open spec fn stamped_row(row: Seq<char>, line: Seq<char>, x: int) -> Seq<char> {
    Seq::new(
        row.len(),
        |col: int|
            if 0 <= col - x < line.len() && line[col - x] != ' ' {
                line[col - x]
            } else {
                row[col]
            },
    )
}

fn stamp_row(row: &mut Vec<char>, line: &Vec<char>, x: isize)
    requires
        x + line@.len() <= isize::MAX,
        line@.len() <= isize::MAX,
        old(row)@.len() <= isize::MAX,
    ensures
        final(row)@ == stamped_row(old(row)@, line@, x as int),
{
    let ghost row0 = row@;
    for dx in 0..line.len()
        invariant
            x + line@.len() <= isize::MAX,
            line@.len() <= isize::MAX,
            row0.len() <= isize::MAX,
            row@.len() == row0.len(),
            forall|col: int|
                0 <= col < row@.len() ==> #[trigger] row@[col] == if 0 <= col - x < dx
                    && line@[col - x] != ' ' {
                    line@[col - x]
                } else {
                    row0[col]
                },
    {
        let target_x = x + dx as isize;
        let character = line[dx];
        if target_x >= 0 && target_x < row.len() as isize && character != ' ' {
            row.set(target_x as usize, character);
        }
    }
    assert(row@ =~= stamped_row(row0, line@, x as int));
}

/// Stamps the sprite onto the canvas with its top left corner at column `x`
/// of row `y`; spaces in the sprite leave the canvas as it was, and what falls
/// outside the canvas is dropped.
pub fn blit(canvas: &mut Vec<Vec<char>>, sprite: &[&str], x: isize, y: usize)
    requires
        y + sprite@.len() <= usize::MAX,
        forall|i: int|
            0 <= i < sprite@.len() ==> x + (#[trigger] sprite@[i])@.len() <= isize::MAX
                && sprite@[i]@.len() <= isize::MAX,
        forall|r: int|
            0 <= r < old(canvas)@.len() ==> (#[trigger] rows_view(old(canvas)@)[r]).len() <= isize::MAX,
    ensures
        rows_view(final(canvas)@) == stamped(
            rows_view(old(canvas)@),
            sprite_view(sprite@),
            x as int,
            y as int,
        ),
        final(canvas)@.len() == old(canvas)@.len(),
        forall|r: int|
            0 <= r < old(canvas)@.len() ==> (#[trigger] rows_view(final(canvas)@)[r]).len()
                == rows_view(old(canvas)@)[r].len(),
{
    let ghost start = rows_view(canvas@);
    let ghost spr = sprite_view(sprite@);
    assert forall|r: int| 0 <= r < canvas@.len() implies (#[trigger] canvas@[r])@.len() <= isize::MAX by {
        assert(start[r] == canvas@[r]@);
    }
    assert(stamped(start, spr.take(0), x as int, y as int) =~~= start);
    for dy in 0..sprite.len()
        invariant
            start == rows_view(old(canvas)@),
            spr == sprite_view(sprite@),
            y + sprite@.len() <= usize::MAX,
            forall|i: int|
                0 <= i < sprite@.len() ==> x + (#[trigger] sprite@[i])@.len() <= isize::MAX
                    && sprite@[i]@.len() <= isize::MAX,
            canvas@.len() == start.len(),
            forall|r: int| 0 <= r < canvas@.len() ==> (#[trigger] canvas@[r])@.len() <= isize::MAX,
            rows_view(canvas@) == stamped(start, spr.take(dy as int), x as int, y as int),
    {
        let line = chars_of(sprite[dy]);
        let r = y + dy;
        let ghost before = rows_view(canvas@);
        assert(spr[dy as int] == line@);
        if r < canvas.len() {
            let mut row: Vec<char> = Vec::new();
            std::mem::swap(&mut row, &mut canvas[r]);
            assert(row@ == before[r as int]);
            stamp_row(&mut row, &line, x);
            canvas.set(r, row);
        }
        let ghost after = stamped(start, spr.take(dy + 1), x as int, y as int);
        assert(before.len() == canvas@.len());
        assert(rows_view(canvas@).len() == after.len());
        assert forall|rr: int| 0 <= rr < after.len() implies #[trigger] rows_view(canvas@)[rr]
            =~= after[rr] by {
            assert(before[rr] == stamped(start, spr.take(dy as int), x as int, y as int)[rr]);
            assert(spr.take(dy + 1)[dy as int] == line@);
            assert forall|k: int| 0 <= k < rr - y && rr - y < dy + 1 implies spr.take(dy + 1)[k]
                == spr.take(dy as int)[k] by {}
            if rr != r {
                assert(rows_view(canvas@)[rr] == before[rr]);
            } else {
                assert(rows_view(canvas@)[rr] == stamped_row(before[rr], line@, x as int));
            }
        }
        assert(rows_view(canvas@) =~= after);
    }
    assert(spr.take(sprite@.len() as int) =~= spr);
}

/// The canvas as text: each row with its trailing white space removed, the
/// rows joined with newlines.
pub fn canvas_to_string(canvas: Vec<Vec<char>>) -> (text: String)
    ensures
        text@ == canvas_text(rows_view(canvas@)),
{
    let mut rows: Vec<Vec<char>> = Vec::new();
    for r in 0..canvas.len()
        invariant
            rows_view(rows@) == rows_view(canvas@).take(r as int).map_values(
                |row: Seq<char>| trim_end(row),
            ),
    {
        let t = trimmed_end(&canvas[r]);
        let ghost before = rows_view(rows@);
        assert(before.len() == rows@.len());
        rows.push(t);
        assert(rows_view(rows@).len() == r + 1);
        assert forall|i: int| 0 <= i < r + 1 implies #[trigger] rows_view(rows@)[i]
            == rows_view(canvas@).take(r + 1).map_values(|row: Seq<char>| trim_end(row))[i] by {
            if i < r {
                assert(before[i] == rows_view(canvas@).take(r as int).map_values(
                    |row: Seq<char>| trim_end(row),
                )[i]);
            }
        }
        assert(rows_view(rows@) =~= rows_view(canvas@).take(r + 1).map_values(
            |row: Seq<char>| trim_end(row),
        ));
    }
    assert(rows_view(canvas@).take(canvas.len() as int) =~= rows_view(canvas@));
    let joined = join_rows(&rows);
    string_of(&joined)
}


/// The rows of a frame brought to a fixed size: its first `height` lines, each
/// padded with spaces to `width` characters, then rows of `width` spaces until
/// there are `height` rows.
pub open spec fn normalized_rows(frame: Seq<char>, width: nat, height: nat) -> Seq<Seq<char>> {
    let lines = lines_of(frame);
    Seq::new(
        height,
        |i: int|
            if i < lines.len() {
                pad_right(lines[i], width)
            } else {
                repeat_char(' ', width)
            },
    )
}

/// A frame brought to a fixed size, its rows joined with newlines.
pub open spec fn normalized(frame: Seq<char>, width: nat, height: nat) -> Seq<char> {
    join_lines(normalized_rows(frame, width, height))
}

/// Brings a frame to `height` lines of at least `width` characters: longer
/// frames lose their last lines, shorter ones gain blank ones, and short lines
/// are padded with spaces.
pub fn normalize(frame: &Vec<char>, width: usize, height: usize) -> (text: String)
    ensures
        text@ == normalized(frame@, width as nat, height as nat),
{
    let lines = split_lines(frame);
    let ghost target = normalized_rows(frame@, width as nat, height as nat);
    let mut rows: Vec<Vec<char>> = Vec::new();
    for i in 0..height
        invariant
            rows_view(lines@) == lines_of(frame@),
            target == normalized_rows(frame@, width as nat, height as nat),
            rows_view(rows@) == target.take(i as int),
    {
        let row = if i < lines.len() {
            assert(lines@[i as int]@ == lines_of(frame@)[i as int]);
            padded(&lines[i], width)
        } else {
            repeat(' ', width)
        };
        let ghost before = rows_view(rows@);
        assert(before.len() == rows@.len());
        rows.push(row);
        assert(rows_view(rows@).len() == i + 1);
        assert forall|k: int| 0 <= k < i + 1 implies #[trigger] rows_view(rows@)[k] == target.take(
            i + 1,
        )[k] by {
            if k < i {
                assert(before[k] == target.take(i as int)[k]);
            }
        }
        assert(rows_view(rows@) =~= target.take(i + 1));
    }
    assert(target.take(height as int) =~= target);
    let joined = join_rows(&rows);
    string_of(&joined)
}

/// A frame brought to a fixed size has exactly that many lines, each one the
/// padded row (a row followed by another losing a final carriage return).
pub proof fn lemma_normalized_lines(frame: Seq<char>, width: nat, height: nat)
    requires
        width >= 1,
        height >= 1,
    ensures
        lines_of(normalized(frame, width, height)).len() == height,
        forall|i: int|
            0 <= i < height - 1 ==> #[trigger] lines_of(normalized(frame, width, height))[i]
                == strip_cr(normalized_rows(frame, width, height)[i]),
        lines_of(normalized(frame, width, height)).last() == normalized_rows(
            frame,
            width,
            height,
        ).last(),
        forall|i: int|
            0 <= i < height ==> (#[trigger] normalized_rows(frame, width, height)[i]).len()
                >= width,
{
    let rows = normalized_rows(frame, width, height);
    let lines = lines_of(frame);
    lemma_lines_plain(frame);
    assert forall|i: int| 0 <= i < rows.len() implies no_newline(#[trigger] rows[i]) by {
        if i < lines.len() {
            assert(no_newline(lines[i]));
            if lines[i].len() < width {
                let p = lines[i] + repeat_char(' ', (width - lines[i].len()) as nat);
                assert forall|j: int| 0 <= j < p.len() implies p[j] != '\n' by {
                    if j < lines[i].len() {
                        assert(p[j] == lines[i][j]);
                    }
                }
            }
        }
    }
    assert(rows.last() == rows[height - 1]);
    lemma_lines_of_join(rows);
}


/// Every row of the canvas is `width` cells wide and holds no newline.
pub open spec fn well_formed(canvas: Seq<Seq<char>>, width: nat) -> bool {
    forall|r: int|
        0 <= r < canvas.len() ==> (#[trigger] canvas[r]).len() == width && no_newline(canvas[r])
}

/// No line of the sprite holds a newline.
pub open spec fn plain_sprite(sprite: Seq<Seq<char>>) -> bool {
    forall|i: int| 0 <= i < sprite.len() ==> no_newline(#[trigger] sprite[i])
}

/// A blank canvas is well formed.
pub proof fn lemma_blank_well_formed(width: nat, height: nat)
    ensures
        blank_canvas(width, height).len() == height,
        well_formed(blank_canvas(width, height), width),
{
    assert forall|r: int| 0 <= r < height implies (#[trigger] blank_canvas(width, height)[r]).len()
        == width && no_newline(blank_canvas(width, height)[r]) by {
        let row = blank_canvas(width, height)[r];
        assert forall|j: int| 0 <= j < row.len() implies row[j] != '\n' by {}
    }
}

/// Stamping a sprite without newlines keeps a canvas well formed and its
/// number of rows.
pub proof fn lemma_stamped_well_formed(
    canvas: Seq<Seq<char>>,
    sprite: Seq<Seq<char>>,
    x: int,
    y: int,
    width: nat,
)
    requires
        well_formed(canvas, width),
        plain_sprite(sprite),
    ensures
        stamped(canvas, sprite, x, y).len() == canvas.len(),
        well_formed(stamped(canvas, sprite, x, y), width),
{
    let out = stamped(canvas, sprite, x, y);
    assert forall|r: int| 0 <= r < out.len() implies (#[trigger] out[r]).len() == width
        && no_newline(out[r]) by {
        assert(no_newline(canvas[r]));
        assert forall|col: int| 0 <= col < out[r].len() implies out[r][col] != '\n' by {
            let dy = r - y;
            let dx = col - x;
            if 0 <= dy < sprite.len() && 0 <= dx < sprite[dy].len() && sprite[dy][dx] != ' ' {
                assert(no_newline(sprite[dy]));
            }
        }
    }
}

/// The text of a well-formed canvas of `height` rows has at most `height`
/// lines, none wider than the canvas; exactly `height` when the bottom row
/// holds something other than white space.
pub proof fn lemma_canvas_text_lines(canvas: Seq<Seq<char>>, width: nat, height: nat)
    requires
        canvas.len() == height,
        height >= 1,
        well_formed(canvas, width),
    ensures
        lines_of(canvas_text(canvas)).len() <= height,
        forall|i: int|
            0 <= i < lines_of(canvas_text(canvas)).len() ==> (#[trigger] lines_of(
                canvas_text(canvas),
            )[i]).len() <= width,
        (exists|k: int|
            0 <= k < width && !is_white_space(#[trigger] canvas[height - 1][k])) ==> lines_of(
            canvas_text(canvas),
        ).len() == height,
{
    let rows = canvas.map_values(|row: Seq<char>| trim_end(row));
    assert forall|i: int| 0 <= i < rows.len() implies no_newline(#[trigger] rows[i])
        && rows[i].len() <= width by {
        lemma_trim_end_prefix(canvas[i]);
        assert(no_newline(canvas[i]));
        assert forall|j: int| 0 <= j < rows[i].len() implies rows[i][j] != '\n' by {
            assert(rows[i][j] == canvas[i][j]);
        }
    }
    lemma_lines_of_join(rows);
    let lines = lines_of(canvas_text(canvas));
    assert forall|i: int| 0 <= i < lines.len() implies (#[trigger] lines[i]).len() <= width by {
        assert(rows[i].len() <= width);
        if i < rows.len() - 1 {
            assert(lines[i] == strip_cr(rows[i]));
        } else {
            assert(lines[i] == lines.last());
        }
    }
    if exists|k: int| 0 <= k < width && !is_white_space(#[trigger] canvas[height - 1][k]) {
        let k = choose|k: int| 0 <= k < width && !is_white_space(#[trigger] canvas[height - 1][k]);
        lemma_trim_end_prefix(canvas[height - 1]);
        assert(rows.last() == trim_end(canvas[height - 1]));
    }
}

} // verus!

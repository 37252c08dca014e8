//! Small, fixed-cell animation frames for the built-in art gallery.

use vstd::prelude::*;

use crate::art::{
    BIRD, BRAILLE_SPINNER, BUBBLE, CAT, CLOUD, COFFEE, DIM_STAR, EYE_OPEN, EYE_SHUT, FIREPLACE,
    FISH, FLAG, FLAME_DOWN, FLAME_UP, FOCUS_BOTTOM, FOCUS_MIDDLE, FOCUS_TOP, GRAND_CASTLE_BODY,
    GRAND_CASTLE_MAST, GRAND_CAT_BOTTOM, GRAND_CAT_EYES_LEFT, GRAND_CAT_EYES_MIDDLE,
    GRAND_CAT_EYES_RIGHT, GRAND_CAT_MIDDLE, GRAND_CAT_TOP, GRAND_CAT_WHISKERS_LEFT,
    GRAND_CAT_WHISKERS_MIDDLE, HORIZON, STAR_COLUMNS, HOURGLASS, PLANET, PLANT, PULSE, ROCKET, SEA_FLOOR, SHIP,
    SMALL_FISH, SPARKS_HIGH, SPARKS_LOW, STAR, TOMATO, WHISKER_TILDE, WHISKER_WAVE,
};
use crate::art::{lemma_fixed_frames_fit, lemma_grand_pieces, lemma_sprites_plain, rows_fit};
use crate::canvas::{
    blank, blank_canvas, blit, canvas_text, canvas_to_string, lemma_blank_well_formed,
    lemma_canvas_text_lines, lemma_normalized_lines, lemma_stamped_well_formed, normalize,
    normalized, normalized_rows, plain_sprite, sprite_view, stamped, well_formed,
};
use crate::text::{
    append_str, chars_of, is_white_space, lemma_split_join, lemma_trim_end_prefix, repeat_char,
    split_newlines, trim_end, join_lines, join_rows, lemma_lines_of_join, lines_of,
    no_newline, pad_right, rows_view, string_of, strip_cr,
};

verus! {

/// The text of a frame given row by row: the rows joined with newlines.
pub open spec fn frame_text(rows: Seq<&str>) -> Seq<char> {
    join_lines(sprite_view(rows))
}

fn push_rows(rows: &mut Vec<Vec<char>>, lines: &[&str])
    ensures
        rows_view(final(rows)@) == rows_view(old(rows)@) + sprite_view(lines@),
{
    let ghost start = rows_view(rows@);
    for i in 0..lines.len()
        invariant
            rows_view(rows@) == start + sprite_view(lines@.take(i as int)),
    {
        let row = chars_of(lines[i]);
        let ghost before = rows_view(rows@);
        assert(before.len() == rows@.len());
        rows.push(row);
        assert(rows_view(rows@) =~= before.push(row@));
        assert(sprite_view(lines@.take(i + 1)) =~= sprite_view(lines@.take(i as int)).push(
            lines@[i as int]@,
        ));
        assert(start + sprite_view(lines@.take(i + 1)) =~= (start + sprite_view(
            lines@.take(i as int),
        )).push(row@));
    }
    assert(lines@.take(lines@.len() as int) =~= lines@);
}

/// The text of a frame given row by row.
fn frame_chars(lines: &[&str]) -> (text: Vec<char>)
    ensures
        text@ == frame_text(lines@),
{
    let mut rows: Vec<Vec<char>> = Vec::new();
    push_rows(&mut rows, lines);
    assert(rows_view(rows@) =~= sprite_view(lines@));
    join_rows(&rows)
}

/// The tomato scene at a frame.
pub open spec fn tomato_art(frame: int) -> Seq<char> {
    normalized(frame_text(TOMATO@[frame % 4]@), 19, 6)
}

/// The coffee cup scene at a frame.
pub open spec fn coffee_art(frame: int) -> Seq<char> {
    normalized(frame_text(COFFEE@[frame % 6]@), 16, 6)
}

/// The small cat scene at a frame.
pub open spec fn cat_art(frame: int) -> Seq<char> {
    normalized(frame_text(CAT@[frame % 6]@), 22, 6)
}

/// The growing plant scene at a frame.
pub open spec fn plant_art(frame: int) -> Seq<char> {
    normalized(frame_text(PLANT@[frame % 6]@), 18, 7)
}

/// The hourglass scene at a frame.
pub open spec fn hourglass_art(frame: int) -> Seq<char> {
    normalized(frame_text(HOURGLASS@[frame % 4]@), 18, 7)
}

/// The fireplace scene at a frame.
pub open spec fn fireplace_art(frame: int) -> Seq<char> {
    normalized(frame_text(FIREPLACE@[frame % 4]@), 20, 7)
}

/// The tomato, its frames taken in turn, as 6 lines of 19 columns.
pub fn tomato(frame: usize) -> (art: String)
    ensures
        art@ == tomato_art(frame as int),
{
    normalize(&frame_chars(&TOMATO[frame % 4]), 19, 6)
}

/// The coffee cup, its frames taken in turn, as 6 lines of 16 columns.
pub fn coffee(frame: usize) -> (art: String)
    ensures
        art@ == coffee_art(frame as int),
{
    normalize(&frame_chars(&COFFEE[frame % 6]), 16, 6)
}

/// The small cat, its frames taken in turn, as 6 lines of 22 columns.
pub fn cat(frame: usize) -> (art: String)
    ensures
        art@ == cat_art(frame as int),
{
    normalize(&frame_chars(&CAT[frame % 6]), 22, 6)
}

/// The growing plant, its frames taken in turn, as 7 lines of 18 columns.
pub fn plant(frame: usize) -> (art: String)
    ensures
        art@ == plant_art(frame as int),
{
    normalize(&frame_chars(&PLANT[frame % 6]), 18, 7)
}

/// The hourglass, its frames taken in turn, as 7 lines of 18 columns.
pub fn hourglass(frame: usize) -> (art: String)
    ensures
        art@ == hourglass_art(frame as int),
{
    normalize(&frame_chars(&HOURGLASS[frame % 4]), 18, 7)
}

/// The fireplace, its frames taken in turn, as 7 lines of 20 columns.
pub fn fireplace(frame: usize) -> (art: String)
    ensures
        art@ == fireplace_art(frame as int),
{
    normalize(&frame_chars(&FIREPLACE[frame % 4]), 20, 7)
}

/// The focus orb at a frame: its spinner turns through ten characters and
/// its pulse through four.
pub open spec fn focus_art(frame: int) -> Seq<char> {
    FOCUS_TOP@ + BRAILLE_SPINNER@[frame % 10]@ + FOCUS_MIDDLE@ + PULSE@[frame % 4]@
        + FOCUS_BOTTOM@
}

/// The focus orb with its spinner and pulse.
pub fn focus(frame: usize) -> (art: String)
    ensures
        art@ == focus_art(frame as int),
{
    let mut text = chars_of(FOCUS_TOP);
    append_str(&mut text, BRAILLE_SPINNER[frame % 10]);
    append_str(&mut text, FOCUS_MIDDLE);
    append_str(&mut text, PULSE[frame % 4]);
    append_str(&mut text, FOCUS_BOTTOM);
    string_of(&text)
}

/// The drifting sky at a frame, as a canvas of 7 rows of 34 cells: the
/// cloud drifts one cell a frame, the bird two cells a frame and bobs every
/// five frames, and the hills lie along the bottom row.
pub open spec fn sky_canvas(frame: int) -> Seq<Seq<char>> {
    let cloud_x = frame % 42;
    let bird_x = (frame * 2 + 18) % 39;
    let with_cloud = stamped(blank_canvas(34, 7), sprite_view(CLOUD@), cloud_x - 7, 2);
    let with_bird = stamped(with_cloud, sprite_view(seq![BIRD]), bird_x - 3, frame / 5 % 2);
    stamped(with_bird, sprite_view(seq![HORIZON]), 0, 6)
}

/// The drifting sky.
pub fn sky(frame: usize) -> (art: String)
    requires
        frame * 2 + 18 <= usize::MAX,
    ensures
        art@ == canvas_text(sky_canvas(frame as int)),
{
    proof {
        reveal_strlit(" .--.");
        reveal_strlit("(    )");
        reveal_strlit(" `--'");
        reveal_strlit("~v~");
        reveal_strlit(r"__  _/\_    __/\__   _/\_  ___");
    }
    let mut canvas = blank(34, 7);
    let cloud_x = frame % 42;
    let bird_x = (frame * 2 + 18) % 39;
    let bird = [BIRD];
    let hills = [HORIZON];
    assert(bird@ =~= seq![BIRD]);
    assert(hills@ =~= seq![HORIZON]);
    let ghost c0 = rows_view(canvas@);
    blit(&mut canvas, &CLOUD, cloud_x as isize - 7, 2);
    let ghost c1 = rows_view(canvas@);
    assert(c1 == stamped(c0, sprite_view(CLOUD@), cloud_x - 7, 2));
    blit(&mut canvas, &bird, bird_x as isize - 3, frame / 5 % 2);
    let ghost c2 = rows_view(canvas@);
    assert(c2 == stamped(c1, sprite_view(seq![BIRD]), bird_x - 3, (frame / 5 % 2) as int));
    blit(&mut canvas, &hills, 0, 6);
    assert(rows_view(canvas@) == sky_canvas(frame as int));
    canvas_to_string(canvas)
}


/// The aquarium at a frame, as a canvas of 7 rows of 34 cells: the big fish
/// swims right one cell a frame, the small one left two cells a frame, a
/// bubble rises every other frame, and the floor lies along the bottom row.
pub open spec fn aquarium_canvas(frame: int) -> Seq<Seq<char>> {
    let fish_x = frame % 41;
    let small_fish_x = 38 - frame * 2 % 42;
    let bubble_x = 8 + frame * 5 % 18;
    let bubble_y = if frame / 2 % 5 <= 4 { 4 - frame / 2 % 5 } else { 0 };
    let with_fish = stamped(blank_canvas(34, 7), sprite_view(seq![FISH]), fish_x - 7, 2);
    let with_small = stamped(with_fish, sprite_view(seq![SMALL_FISH]), small_fish_x, 4);
    let with_bubble = stamped(with_small, sprite_view(seq![BUBBLE]), bubble_x, bubble_y);
    stamped(with_bubble, sprite_view(seq![SEA_FLOOR]), 2, 6)
}

/// The aquarium.
pub fn aquarium(frame: usize) -> (art: String)
    requires
        frame * 5 <= usize::MAX,
    ensures
        art@ == canvas_text(aquarium_canvas(frame as int)),
{
    proof {
        reveal_strlit("<`)))><");
        reveal_strlit("<><");
        reveal_strlit("o");
        reveal_strlit("~~~~~~~~~~~~~~~~~~~~~~~~~~~~~~");
    }
    let mut canvas = blank(34, 7);
    let fish_x = frame % 41;
    let small_fish_x = 38isize - (frame * 2 % 42) as isize;
    let fish = [FISH];
    let small_fish = [SMALL_FISH];
    let bubble = [BUBBLE];
    let floor = [SEA_FLOOR];
    assert(fish@ =~= seq![FISH]);
    assert(small_fish@ =~= seq![SMALL_FISH]);
    assert(bubble@ =~= seq![BUBBLE]);
    assert(floor@ =~= seq![SEA_FLOOR]);
    let ghost c0 = rows_view(canvas@);
    blit(&mut canvas, &fish, fish_x as isize - 7, 2);
    let ghost c1 = rows_view(canvas@);
    assert(c1 == stamped(c0, sprite_view(seq![FISH]), fish_x - 7, 2));
    blit(&mut canvas, &small_fish, small_fish_x, 4);
    let ghost c2 = rows_view(canvas@);
    assert(c2 == stamped(c1, sprite_view(seq![SMALL_FISH]), small_fish_x as int, 4));
    let bubble_x = 8 + frame * 5 % 18;
    let bubble_y = 4usize.saturating_sub(frame / 2 % 5);
    blit(&mut canvas, &bubble, bubble_x as isize, bubble_y);
    let ghost c3 = rows_view(canvas@);
    assert(c3 == stamped(c2, sprite_view(seq![BUBBLE]), bubble_x as int, bubble_y as int));
    blit(&mut canvas, &floor, 2, 6);
    assert(rows_view(canvas@) == aquarium_canvas(frame as int));
    canvas_to_string(canvas)
}

/// The rocket at a frame, as a canvas of 8 rows of 22 cells: the rocket
/// hops between the top two rows every three frames, its flame flickers
/// every frame and the sparks change every frame.
pub open spec fn rocket_canvas(frame: int) -> Seq<Seq<char>> {
    let y = frame / 3 % 2;
    let flame = if frame % 2 == 0 { FLAME_UP } else { FLAME_DOWN };
    let with_rocket = stamped(blank_canvas(22, 8), sprite_view(ROCKET@), 0, y);
    let with_flame = stamped(with_rocket, sprite_view(seq![flame]), 0, y + 5);
    if frame % 3 == 0 {
        stamped(with_flame, sprite_view(seq![SPARKS_LOW]), 0, 1)
    } else {
        stamped(with_flame, sprite_view(seq![SPARKS_HIGH]), 0, 0)
    }
}

/// The rocket.
pub fn rocket(frame: usize) -> (art: String)
    ensures
        art@ == canvas_text(rocket_canvas(frame as int)),
{
    proof {
        reveal_strlit("       /\\");
        reveal_strlit("      /  \\");
        reveal_strlit("     | PT |");
        reveal_strlit("     |____|");
        reveal_strlit("    /|    |\\");
        reveal_strlit("      /\\");
        reveal_strlit("      \\/");
        reveal_strlit("  .              *");
        reveal_strlit("       .      *");
    }
    let mut canvas = blank(22, 8);
    let y = frame / 3 % 2;
    let ghost c0 = rows_view(canvas@);
    blit(&mut canvas, &ROCKET, 0, y);
    let ghost c1 = rows_view(canvas@);
    assert(c1 == stamped(c0, sprite_view(ROCKET@), 0, y as int));
    let flame = if frame % 2 == 0 {
        [FLAME_UP]
    } else {
        [FLAME_DOWN]
    };
    assert(flame@ =~= seq![if frame % 2 == 0 { FLAME_UP } else { FLAME_DOWN }]);
    blit(&mut canvas, &flame, 0, y + 5);
    let ghost c2 = rows_view(canvas@);
    let low = [SPARKS_LOW];
    let high = [SPARKS_HIGH];
    assert(low@ =~= seq![SPARKS_LOW]);
    assert(high@ =~= seq![SPARKS_HIGH]);
    if frame % 3 == 0 {
        blit(&mut canvas, &low, 0, 1);
    } else {
        blit(&mut canvas, &high, 0, 0);
    }
    assert(rows_view(canvas@) == rocket_canvas(frame as int));
    canvas_to_string(canvas)
}

/// The rows of the grand cat's template, with the given eyes and whisker.
pub open spec fn grand_cat_rows(eye: Seq<char>, whisker: Seq<char>) -> Seq<Seq<char>> {
    let whiskers = whisker + whisker + whisker;
    sprite_view(GRAND_CAT_TOP@) + seq![
        GRAND_CAT_EYES_LEFT@ + eye + GRAND_CAT_EYES_MIDDLE@ + eye + GRAND_CAT_EYES_RIGHT@,
    ] + sprite_view(GRAND_CAT_MIDDLE@) + seq![
        GRAND_CAT_WHISKERS_LEFT@ + whiskers + GRAND_CAT_WHISKERS_MIDDLE@ + whiskers,
    ] + sprite_view(GRAND_CAT_BOTTOM@)
}

/// The grand cat's eye at a frame: shut on every seventh frame.
pub open spec fn grand_cat_eye(frame: int) -> Seq<char> {
    if frame % 7 == 5 {
        EYE_SHUT@
    } else {
        EYE_OPEN@
    }
}

/// The grand cat's whisker at a frame: waving on even frames.
pub open spec fn grand_cat_whisker(frame: int) -> Seq<char> {
    if frame % 2 == 0 {
        WHISKER_WAVE@
    } else {
        WHISKER_TILDE@
    }
}

/// The grand cat at a frame, as 12 lines of 62 columns: it blinks on every
/// seventh frame and its whiskers wave every other frame.
pub open spec fn grand_cat_art(frame: int) -> Seq<char> {
    normalized(join_lines(grand_cat_rows(grand_cat_eye(frame), grand_cat_whisker(frame))), 62, 12)
}

/// The grand cat.
pub fn grand_cat(frame: usize) -> (art: String)
    ensures
        art@ == grand_cat_art(frame as int),
{
    let eye = if frame % 7 == 5 {
        EYE_SHUT
    } else {
        EYE_OPEN
    };
    let whisker = if frame % 2 == 0 {
        WHISKER_WAVE
    } else {
        WHISKER_TILDE
    };
    let mut rows: Vec<Vec<char>> = Vec::new();
    push_rows(&mut rows, &GRAND_CAT_TOP);
    let mut eyes = chars_of(GRAND_CAT_EYES_LEFT);
    append_str(&mut eyes, eye);
    append_str(&mut eyes, GRAND_CAT_EYES_MIDDLE);
    append_str(&mut eyes, eye);
    append_str(&mut eyes, GRAND_CAT_EYES_RIGHT);
    let ghost before_eyes = rows_view(rows@);
    rows.push(eyes);
    assert(rows_view(rows@) =~= before_eyes.push(eyes@));
    push_rows(&mut rows, &GRAND_CAT_MIDDLE);
    let mut whiskers = chars_of(GRAND_CAT_WHISKERS_LEFT);
    append_str(&mut whiskers, whisker);
    append_str(&mut whiskers, whisker);
    append_str(&mut whiskers, whisker);
    append_str(&mut whiskers, GRAND_CAT_WHISKERS_MIDDLE);
    append_str(&mut whiskers, whisker);
    append_str(&mut whiskers, whisker);
    append_str(&mut whiskers, whisker);
    assert(whiskers@ =~= GRAND_CAT_WHISKERS_LEFT@ + (whisker@ + whisker@ + whisker@)
        + GRAND_CAT_WHISKERS_MIDDLE@ + (whisker@ + whisker@ + whisker@));
    let ghost before_whiskers = rows_view(rows@);
    rows.push(whiskers);
    assert(rows_view(rows@) =~= before_whiskers.push(whiskers@));
    push_rows(&mut rows, &GRAND_CAT_BOTTOM);
    assert(rows_view(rows@) =~= grand_cat_rows(eye@, whisker@));
    let text = join_rows(&rows);
    normalize(&text, 62, 12)
}

/// The rows of the grand castle with the given flag.
pub open spec fn grand_castle_rows(flag: Seq<char>) -> Seq<Seq<char>> {
    seq![GRAND_CASTLE_MAST@ + flag] + sprite_view(GRAND_CASTLE_BODY@)
}

/// The grand castle at a frame, as 13 lines of 68 columns, its flag waving
/// through four shapes.
pub open spec fn grand_castle_art(frame: int) -> Seq<char> {
    normalized(join_lines(grand_castle_rows(FLAG@[frame % 4]@)), 68, 13)
}

/// The grand castle.
pub fn grand_castle(frame: usize) -> (art: String)
    ensures
        art@ == grand_castle_art(frame as int),
{
    let mut mast = chars_of(GRAND_CASTLE_MAST);
    append_str(&mut mast, FLAG[frame % 4]);
    let mut rows: Vec<Vec<char>> = Vec::new();
    rows.push(mast);
    assert(rows_view(rows@) =~= seq![mast@]);
    push_rows(&mut rows, &GRAND_CASTLE_BODY);
    assert(rows_view(rows@) =~= grand_castle_rows(FLAG@[(frame % 4) as int]@));
    let text = join_rows(&rows);
    normalize(&text, 68, 13)
}


/// The row of a star of the cosmos at a frame: the stars sink one row every
/// three frames.
pub open spec fn star_row(frame: int, index: int) -> int {
    (index * 3 + frame / 3) % 11
}

/// A star of the cosmos at a frame: bright every third frame, dim otherwise.
pub open spec fn star_sprite(frame: int, index: int) -> &'static str {
    if (frame + index) % 3 == 0 {
        STAR
    } else {
        DIM_STAR
    }
}

/// The cosmos's canvas of 13 rows of 68 cells with its first `count` stars.
pub open spec fn cosmos_stars(frame: int, count: nat) -> Seq<Seq<char>>
    decreases count,
{
    if count == 0 {
        blank_canvas(68, 13)
    } else {
        let index = count - 1;
        stamped(
            cosmos_stars(frame, (count - 1) as nat),
            sprite_view(seq![star_sprite(frame, index)]),
            STAR_COLUMNS@[index] as int,
            star_row(frame, index),
        )
    }
}

/// The grand cosmos at a frame: seven stars, the ringed planet, and a ship
/// crossing two cells a frame and bobbing every eight frames.
pub open spec fn cosmos_canvas(frame: int) -> Seq<Seq<char>> {
    let with_planet = stamped(cosmos_stars(frame, 7), sprite_view(PLANET@), 0, 3);
    let ship_x = frame * 2 % 84 - 12;
    stamped(with_planet, sprite_view(seq![SHIP]), ship_x, 1 + frame / 8 % 2)
}

/// The grand cosmos.
pub fn grand_cosmos(frame: usize) -> (art: String)
    requires
        frame * 2 <= usize::MAX,
    ensures
        art@ == canvas_text(cosmos_canvas(frame as int)),
{
    proof {
        reveal_strlit("*");
        reveal_strlit(".");
        reveal_strlit("<=={o}==>");
        reveal_strlit(r"                         _..._");
        reveal_strlit(r"                    _.-'     `-._");
        reveal_strlit(r"              _.---'   .-·-.   `---._");
        reveal_strlit(r"        _____/_________/_____\_________\_____");
        reveal_strlit(r"             `-.       \     /       .-'");
        reveal_strlit(r"                `-._    `-.-'    _.-'");
        reveal_strlit(r"                    `--._____.--'");
    }
    let mut canvas = blank(68, 13);
    for index in 0..7usize
        invariant
            frame * 2 <= usize::MAX,
            canvas@.len() == 13,
            forall|r: int| 0 <= r < 13 ==> (#[trigger] rows_view(canvas@)[r]).len() == 68,
            rows_view(canvas@) == cosmos_stars(frame as int, index as nat),
    {
        proof {
            reveal_strlit("*");
            reveal_strlit(".");
        }
        let x = STAR_COLUMNS[index];
        let y = (index * 3 + frame / 3) % 11;
        let star = if (frame + index) % 3 == 0 {
            [STAR]
        } else {
            [DIM_STAR]
        };
        assert(star@ =~= seq![star_sprite(frame as int, index as int)]);
        blit(&mut canvas, &star, x, y);
    }
    let ghost with_stars = rows_view(canvas@);
    blit(&mut canvas, &PLANET, 0, 3);
    let ship_x = (frame * 2 % 84) as isize - 12;
    let ship = [SHIP];
    assert(ship@ =~= seq![SHIP]);
    let ghost with_planet = rows_view(canvas@);
    assert(with_planet == stamped(with_stars, sprite_view(PLANET@), 0, 3));
    blit(&mut canvas, &ship, ship_x, 1 + frame / 8 % 2);
    assert(rows_view(canvas@) == cosmos_canvas(frame as int));
    canvas_to_string(canvas)
}


/// Rows that fit `width`, as many as `height`, brought to that size give
/// exactly `height` lines of exactly `width` characters.
proof fn lemma_rows_normalized(rows: Seq<Seq<char>>, width: nat, height: nat)
    requires
        rows_fit(rows, width),
        rows.len() == height,
        width >= 1,
    ensures
        lines_of(normalized(join_lines(rows), width, height)).len() == height,
        forall|i: int|
            0 <= i < height ==> (#[trigger] lines_of(normalized(join_lines(rows), width, height))[i]).len()
                == width,
        forall|i: int|
            0 <= i < height ==> #[trigger] lines_of(normalized(join_lines(rows), width, height))[i]
                == pad_right(rows[i], width),
        forall|i: int|
            0 <= i < height ==> #[trigger] normalized_rows(join_lines(rows), width, height)[i]
                == pad_right(rows[i], width),
{
    lemma_lines_of_join(rows);
    let lines = lines_of(join_lines(rows));
    assert forall|i: int| 0 <= i < rows.len() implies #[trigger] lines[i] == rows[i] by {
        if i < rows.len() - 1 {
            assert(lines[i] == strip_cr(rows[i]));
        } else {
            assert(lines.last() == lines[i]);
        }
    }
    assert(lines =~= rows);
    let padded = normalized_rows(join_lines(rows), width, height);
    assert forall|i: int| 0 <= i < height implies #[trigger] padded[i] == pad_right(rows[i], width) by {}
    lemma_normalized_lines(join_lines(rows), width, height);
    let out = lines_of(normalized(join_lines(rows), width, height));
    assert forall|i: int| 0 <= i < height implies (#[trigger] out[i]).len() == width by {
        assert(padded[i] == pad_right(rows[i], width));
        assert(rows[i].len() <= width);
        assert(padded[i].len() == width);
        let p = padded[i];
        assert(p.last() != '\r') by {
            if rows[i].len() < width {
                assert(p[p.len() - 1] == ' ');
            } else {
                assert(p == rows[i]);
            }
        }
        if i < height - 1 {
            assert(out[i] == strip_cr(p));
        } else {
            assert(out.last() == out[i]);
        }
    }
}

/// Every frame of each fixed scene has the scene's number of lines, each
/// exactly the scene's width: the fixed scenes do not jump in size.
pub proof fn lemma_fixed_scenes_keep_their_size(frame: nat)
    ensures
        lines_of(tomato_art(frame as int)).len() == 6,
        forall|i: int| 0 <= i < 6 ==> (#[trigger] lines_of(tomato_art(frame as int))[i]).len() == 19,
        lines_of(coffee_art(frame as int)).len() == 6,
        forall|i: int| 0 <= i < 6 ==> (#[trigger] lines_of(coffee_art(frame as int))[i]).len() == 16,
        lines_of(cat_art(frame as int)).len() == 6,
        forall|i: int| 0 <= i < 6 ==> (#[trigger] lines_of(cat_art(frame as int))[i]).len() == 22,
        lines_of(plant_art(frame as int)).len() == 7,
        forall|i: int| 0 <= i < 7 ==> (#[trigger] lines_of(plant_art(frame as int))[i]).len() == 18,
        lines_of(hourglass_art(frame as int)).len() == 7,
        forall|i: int|
            0 <= i < 7 ==> (#[trigger] lines_of(hourglass_art(frame as int))[i]).len() == 18,
        lines_of(fireplace_art(frame as int)).len() == 7,
        forall|i: int|
            0 <= i < 7 ==> (#[trigger] lines_of(fireplace_art(frame as int))[i]).len() == 20,
{
    lemma_fixed_frames_fit();
    let f = frame as int;
    assert(rows_fit(sprite_view(TOMATO@[f % 4]@), 19));
    lemma_rows_normalized(sprite_view(TOMATO@[f % 4]@), 19, 6);
    assert(rows_fit(sprite_view(COFFEE@[f % 6]@), 16));
    lemma_rows_normalized(sprite_view(COFFEE@[f % 6]@), 16, 6);
    assert(rows_fit(sprite_view(CAT@[f % 6]@), 22));
    lemma_rows_normalized(sprite_view(CAT@[f % 6]@), 22, 6);
    assert(rows_fit(sprite_view(PLANT@[f % 6]@), 18));
    lemma_rows_normalized(sprite_view(PLANT@[f % 6]@), 18, 7);
    assert(rows_fit(sprite_view(HOURGLASS@[f % 4]@), 18));
    lemma_rows_normalized(sprite_view(HOURGLASS@[f % 4]@), 18, 7);
    assert(rows_fit(sprite_view(FIREPLACE@[f % 4]@), 20));
    lemma_rows_normalized(sprite_view(FIREPLACE@[f % 4]@), 20, 7);
}

proof fn lemma_concat_plain(a: Seq<char>, b: Seq<char>)
    requires
        no_newline(a),
        no_newline(b),
    ensures
        no_newline(a + b),
{
    assert forall|i: int| 0 <= i < (a + b).len() implies (a + b)[i] != '\n' by {
        if i < a.len() {
            assert((a + b)[i] == a[i]);
        } else {
            assert((a + b)[i] == b[i - a.len()]);
        }
    }
}

/// Every frame of the grand cat has 12 lines of 62 characters, its eye
/// and whisker rows padded from its template, and every frame of the grand
/// castle 13 lines of 68 characters.
pub proof fn lemma_grand_scenes_keep_their_size(frame: nat)
    ensures
        lines_of(grand_cat_art(frame as int)).len() == 12,
        forall|i: int|
            0 <= i < 12 ==> (#[trigger] lines_of(grand_cat_art(frame as int))[i]).len() == 62,
        lines_of(grand_castle_art(frame as int)).len() == 13,
        forall|i: int|
            0 <= i < 13 ==> (#[trigger] lines_of(grand_castle_art(frame as int))[i]).len() == 68,
        lines_of(grand_cat_art(frame as int))[4] == pad_right(
            grand_cat_rows(grand_cat_eye(frame as int), grand_cat_whisker(frame as int))[4],
            62,
        ),
        lines_of(grand_cat_art(frame as int))[8] == pad_right(
            grand_cat_rows(grand_cat_eye(frame as int), grand_cat_whisker(frame as int))[8],
            62,
        ),
        forall|i: int|
            0 <= i < 12 ==> #[trigger] normalized_rows(
                join_lines(grand_cat_rows(grand_cat_eye(frame as int), grand_cat_whisker(frame as int))),
                62,
                12,
            )[i] == pad_right(
                grand_cat_rows(grand_cat_eye(frame as int), grand_cat_whisker(frame as int))[i],
                62,
            ),
{
    lemma_grand_pieces();
    let f = frame as int;
    let eye = if f % 7 == 5 { EYE_SHUT@ } else { EYE_OPEN@ };
    let whisker = if f % 2 == 0 { WHISKER_WAVE@ } else { WHISKER_TILDE@ };
    let whiskers = whisker + whisker + whisker;
    let eyes_row = GRAND_CAT_EYES_LEFT@ + eye + GRAND_CAT_EYES_MIDDLE@ + eye + GRAND_CAT_EYES_RIGHT@;
    let whisker_row = GRAND_CAT_WHISKERS_LEFT@ + whiskers + GRAND_CAT_WHISKERS_MIDDLE@ + whiskers;
    lemma_concat_plain(GRAND_CAT_EYES_LEFT@, eye);
    lemma_concat_plain(GRAND_CAT_EYES_LEFT@ + eye, GRAND_CAT_EYES_MIDDLE@);
    lemma_concat_plain(GRAND_CAT_EYES_LEFT@ + eye + GRAND_CAT_EYES_MIDDLE@, eye);
    lemma_concat_plain(
        GRAND_CAT_EYES_LEFT@ + eye + GRAND_CAT_EYES_MIDDLE@ + eye,
        GRAND_CAT_EYES_RIGHT@,
    );
    lemma_concat_plain(whisker, whisker);
    lemma_concat_plain(whisker + whisker, whisker);
    lemma_concat_plain(GRAND_CAT_WHISKERS_LEFT@, whiskers);
    lemma_concat_plain(GRAND_CAT_WHISKERS_LEFT@ + whiskers, GRAND_CAT_WHISKERS_MIDDLE@);
    lemma_concat_plain(GRAND_CAT_WHISKERS_LEFT@ + whiskers + GRAND_CAT_WHISKERS_MIDDLE@, whiskers);
    assert(eyes_row.last() == GRAND_CAT_EYES_RIGHT@.last());
    assert(whisker_row.last() == whisker.last());
    assert(whisker.last() != '\r') by {
        reveal_strlit("≋");
        reveal_strlit("~");
    }
    let rows = grand_cat_rows(eye, whisker);
    let top = sprite_view(GRAND_CAT_TOP@);
    let middle = sprite_view(GRAND_CAT_MIDDLE@);
    let bottom = sprite_view(GRAND_CAT_BOTTOM@);
    assert(rows.len() == 12);
    assert forall|j: int| 0 <= j < rows.len() implies (#[trigger] rows[j]).len() <= 62 && no_newline(
        rows[j],
    ) && (rows[j].len() == 0 || rows[j].last() != '\r') by {
        if j < 4 {
            assert(rows[j] == top[j]);
        } else if j == 4 {
            assert(rows[j] == eyes_row);
        } else if j < 8 {
            assert(rows[j] == middle[j - 5]);
        } else if j == 8 {
            assert(rows[j] == whisker_row);
        } else {
            assert(rows[j] == bottom[j - 9]);
        }
    }
    assert(rows.last() == bottom[2]);
    lemma_rows_normalized(rows, 62, 12);
    let flag = FLAG@[f % 4]@;
    let castle = grand_castle_rows(flag);
    let body = sprite_view(GRAND_CASTLE_BODY@);
    lemma_concat_plain(GRAND_CASTLE_MAST@, flag);
    assert(castle.len() == 13);
    assert forall|j: int| 0 <= j < castle.len() implies (#[trigger] castle[j]).len() <= 68
        && no_newline(castle[j]) && (castle[j].len() == 0 || castle[j].last() != '\r') by {
        if j == 0 {
            assert(castle[j] == GRAND_CASTLE_MAST@ + flag);
            assert(castle[j].last() == flag.last());
        } else {
            assert(castle[j] == body[j - 1]);
        }
    }
    assert(castle.last() == body[11]);
    lemma_rows_normalized(castle, 68, 13);
}

/// The grand cat's eyes are shut (`—`) exactly on the frames that leave 5
/// over when divided by 7, and open (`●`) otherwise; its whiskers wave
/// (`≋≋≋`) on even frames and are tildes (`~~~`) on odd ones, on both
/// sides; the cat repeats every fourteen frames.
pub proof fn lemma_grand_cat_blinks_and_waves(frame: nat)
    ensures
        ({
            let f = frame as int;
            let eye = if f % 7 == 5 { "—"@ } else { "●"@ };
            let w = if f % 2 == 0 { "≋≋≋"@ } else { "~~~"@ };
            &&& lines_of(grand_cat_art(f))[4] == pad_right(
                GRAND_CAT_EYES_LEFT@ + eye + GRAND_CAT_EYES_MIDDLE@ + eye + GRAND_CAT_EYES_RIGHT@,
                62,
            )
            &&& lines_of(grand_cat_art(f))[8] == pad_right(
                GRAND_CAT_WHISKERS_LEFT@ + w + GRAND_CAT_WHISKERS_MIDDLE@ + w,
                62,
            )
        }),
        grand_cat_art(frame + 14int) == grand_cat_art(frame as int),
{
    let f = frame as int;
    lemma_grand_scenes_keep_their_size(frame);
    reveal_strlit("—");
    reveal_strlit("●");
    reveal_strlit("≋");
    reveal_strlit("~");
    reveal_strlit("≋≋≋");
    reveal_strlit("~~~");
    assert((f + 14) % 7 == f % 7);
    assert((f + 14) % 2 == f % 2);
    let whisker = grand_cat_whisker(f);
    let w = if f % 2 == 0 { "≋≋≋"@ } else { "~~~"@ };
    assert(whisker + whisker + whisker =~= w);
    assert(grand_cat_art(f + 14) == grand_cat_art(f));
}

/// How many times `c` occurs in `s`.
pub open spec fn occurrences(s: Seq<char>, c: char) -> nat
    decreases s.len(),
{
    if s.len() == 0 {
        0
    } else {
        occurrences(s.drop_last(), c) + if s.last() == c {
            1nat
        } else {
            0nat
        }
    }
}

/// How many times `c` occurs in the rows, added up.
pub open spec fn occurrences_in_rows(rows: Seq<Seq<char>>, c: char) -> nat
    decreases rows.len(),
{
    if rows.len() == 0 {
        0
    } else {
        occurrences_in_rows(rows.drop_last(), c) + occurrences(rows.last(), c)
    }
}

proof fn lemma_occurrences_concat(a: Seq<char>, b: Seq<char>, c: char)
    ensures
        occurrences(a + b, c) == occurrences(a, c) + occurrences(b, c),
    decreases b.len(),
{
    if b.len() == 0 {
        assert(a + b =~= a);
    } else {
        assert((a + b).drop_last() =~= a + b.drop_last());
        lemma_occurrences_concat(a, b.drop_last(), c);
    }
}

proof fn lemma_occurrences_none(s: Seq<char>, c: char)
    requires
        forall|i: int| 0 <= i < s.len() ==> s[i] != c,
    ensures
        occurrences(s, c) == 0,
    decreases s.len(),
{
    if s.len() > 0 {
        lemma_occurrences_none(s.drop_last(), c);
    }
}

proof fn lemma_occurrences_joined(rows: Seq<Seq<char>>, c: char)
    requires
        c != '\n',
    ensures
        occurrences(join_lines(rows), c) == occurrences_in_rows(rows, c),
    decreases rows.len(),
{
    if rows.len() == 1 {
        assert(rows.drop_last().len() == 0);
        assert(occurrences_in_rows(rows.drop_last(), c) == 0);
        assert(rows.last() == rows[0]);
    } else if rows.len() > 1 {
        let init = rows.drop_last();
        lemma_occurrences_joined(init, c);
        lemma_occurrences_concat(join_lines(init), seq!['\n'], c);
        lemma_occurrences_concat(join_lines(init) + seq!['\n'], rows.last(), c);
        lemma_occurrences_none(seq!['\n'], c);
    }
}

proof fn lemma_occurrences_padded(s: Seq<char>, width: nat, c: char)
    requires
        c != ' ',
    ensures
        occurrences(pad_right(s, width), c) == occurrences(s, c),
{
    if s.len() < width {
        let pad = repeat_char(' ', (width - s.len()) as nat);
        lemma_occurrences_concat(s, pad, c);
        lemma_occurrences_none(pad, c);
    }
}

/// Every character of the grand cat's template rows is printable ASCII
/// short of the tilde.
proof fn lemma_grand_cat_template_plain()
    ensures
        forall|j: int, i: int|
            0 <= j < 4 && 0 <= i < GRAND_CAT_TOP@[j]@.len() ==> ' ' <= #[trigger] GRAND_CAT_TOP@[j]@[i]
                <= '}',
        forall|j: int, i: int|
            0 <= j < 3 && 0 <= i < GRAND_CAT_MIDDLE@[j]@.len() ==> ' '
                <= #[trigger] GRAND_CAT_MIDDLE@[j]@[i] <= '}',
        forall|j: int, i: int|
            0 <= j < 3 && 0 <= i < GRAND_CAT_BOTTOM@[j]@.len() ==> ' '
                <= #[trigger] GRAND_CAT_BOTTOM@[j]@[i] <= '}',
        forall|i: int|
            0 <= i < GRAND_CAT_EYES_LEFT@.len() ==> ' ' <= #[trigger] GRAND_CAT_EYES_LEFT@[i] <= '}',
        forall|i: int|
            0 <= i < GRAND_CAT_EYES_MIDDLE@.len() ==> ' ' <= #[trigger] GRAND_CAT_EYES_MIDDLE@[i]
                <= '}',
        forall|i: int|
            0 <= i < GRAND_CAT_EYES_RIGHT@.len() ==> ' ' <= #[trigger] GRAND_CAT_EYES_RIGHT@[i] <= '}',
        forall|i: int|
            0 <= i < GRAND_CAT_WHISKERS_LEFT@.len() ==> ' ' <= #[trigger] GRAND_CAT_WHISKERS_LEFT@[i]
                <= '}',
        forall|i: int|
            0 <= i < GRAND_CAT_WHISKERS_MIDDLE@.len() ==> ' '
                <= #[trigger] GRAND_CAT_WHISKERS_MIDDLE@[i] <= '}',
{
    reveal_strlit(r#"             /\                            /\"#);
    reveal_strlit(r#"            /  \__________________________/  \"#);
    reveal_strlit(r#"           /                                  \"#);
    reveal_strlit(r#"          /       .--------.    .--------.      \"#);
    reveal_strlit(r#"         |       /    "#);
    reveal_strlit(r#"     \  /    "#);
    reveal_strlit(r#"     \      |"#);
    reveal_strlit(r#"         |       \          /  \          /      |"#);
    reveal_strlit(r#"         |        '--------' /\ '--------'       |"#);
    reveal_strlit(r#"         |                  /  \                  |"#);
    reveal_strlit(r#"    "#);
    reveal_strlit(r#"  |              .-`  '-.              |  "#);
    reveal_strlit(r#"          \             `-.__.-'             /"#);
    reveal_strlit(r#"           '._                              _.'"#);
    reveal_strlit(r#"              '--------------------------'"#);
    assert forall|j: int, i: int|
        0 <= j < 4 && 0 <= i < GRAND_CAT_TOP@[j]@.len() implies ' ' <= #[trigger] GRAND_CAT_TOP@[j]@[i]
            <= '}' by {
        if j == 0 {
        } else if j == 1 {
        } else if j == 2 {
        } else {
        }
    }
    assert forall|j: int, i: int|
        0 <= j < 3 && 0 <= i < GRAND_CAT_MIDDLE@[j]@.len() implies ' '
            <= #[trigger] GRAND_CAT_MIDDLE@[j]@[i] <= '}' by {
        if j == 0 {
        } else if j == 1 {
        } else {
        }
    }
    assert forall|j: int, i: int|
        0 <= j < 3 && 0 <= i < GRAND_CAT_BOTTOM@[j]@.len() implies ' '
            <= #[trigger] GRAND_CAT_BOTTOM@[j]@[i] <= '}' by {
        if j == 0 {
        } else if j == 1 {
        } else {
        }
    }
}

/// How often one of the cat's special characters occurs in the whole
/// grand cat: twice for each eye, six times for each whisker.
proof fn lemma_grand_cat_count_char(frame: nat, c: char)
    requires
        c == '—' || c == '●' || c == '≋' || c == '~',
    ensures
        occurrences(grand_cat_art(frame as int), c) == occurrences(grand_cat_eye(frame as int), c) * 2
            + occurrences(grand_cat_whisker(frame as int), c) * 6,
{
    let f = frame as int;
    lemma_grand_scenes_keep_their_size(frame);
    lemma_grand_cat_template_plain();
    let eye = grand_cat_eye(f);
    let whisker = grand_cat_whisker(f);
    let rows = grand_cat_rows(eye, whisker);
    let padded = normalized_rows(join_lines(rows), 62, 12);
    lemma_occurrences_joined(padded, c);
    assert forall|j: int| 0 <= j < 12 implies occurrences(#[trigger] padded[j], c) == occurrences(
        rows[j],
        c,
    ) by {
        lemma_occurrences_padded(rows[j], 62, c);
    }
    assert forall|j: int| 0 <= j < 12 && j != 4 && j != 8 implies occurrences(
        #[trigger] rows[j],
        c,
    ) == 0 by {
        if j < 4 {
            assert(rows[j] == GRAND_CAT_TOP@[j]@);
        } else if j < 8 {
            assert(rows[j] == GRAND_CAT_MIDDLE@[j - 5]@);
        } else {
            assert(rows[j] == GRAND_CAT_BOTTOM@[j - 9]@);
        }
        lemma_occurrences_none(rows[j], c);
    }
    let w3 = whisker + whisker + whisker;
    lemma_occurrences_concat(whisker, whisker, c);
    lemma_occurrences_concat(whisker + whisker, whisker, c);
    lemma_occurrences_none(GRAND_CAT_EYES_LEFT@, c);
    lemma_occurrences_none(GRAND_CAT_EYES_MIDDLE@, c);
    lemma_occurrences_none(GRAND_CAT_EYES_RIGHT@, c);
    lemma_occurrences_none(GRAND_CAT_WHISKERS_LEFT@, c);
    lemma_occurrences_none(GRAND_CAT_WHISKERS_MIDDLE@, c);
    lemma_occurrences_concat(GRAND_CAT_EYES_LEFT@, eye, c);
    lemma_occurrences_concat(GRAND_CAT_EYES_LEFT@ + eye, GRAND_CAT_EYES_MIDDLE@, c);
    lemma_occurrences_concat(GRAND_CAT_EYES_LEFT@ + eye + GRAND_CAT_EYES_MIDDLE@, eye, c);
    lemma_occurrences_concat(
        GRAND_CAT_EYES_LEFT@ + eye + GRAND_CAT_EYES_MIDDLE@ + eye,
        GRAND_CAT_EYES_RIGHT@,
        c,
    );
    lemma_occurrences_concat(GRAND_CAT_WHISKERS_LEFT@, w3, c);
    lemma_occurrences_concat(GRAND_CAT_WHISKERS_LEFT@ + w3, GRAND_CAT_WHISKERS_MIDDLE@, c);
    lemma_occurrences_concat(GRAND_CAT_WHISKERS_LEFT@ + w3 + GRAND_CAT_WHISKERS_MIDDLE@, w3, c);
    assert(rows[4] == GRAND_CAT_EYES_LEFT@ + eye + GRAND_CAT_EYES_MIDDLE@ + eye
        + GRAND_CAT_EYES_RIGHT@);
    assert(rows[8] == GRAND_CAT_WHISKERS_LEFT@ + w3 + GRAND_CAT_WHISKERS_MIDDLE@ + w3);
    reveal_with_fuel(occurrences_in_rows, 13);
    assert(occurrences_in_rows(padded, c) == occurrences(eye, c) * 2 + occurrences(whisker, c) * 6);
}

/// The whole grand cat holds its shut eye `—` twice on the frames that
/// leave 5 over when divided by 7 and its open eye `●` twice on the others,
/// never both; it holds six wave whiskers `≋` (three a side) on even frames
/// and six tildes `~` on odd ones, never both.
pub proof fn lemma_grand_cat_counts(frame: nat)
    ensures
        ({
            let art = grand_cat_art(frame as int);
            let f = frame as int;
            &&& occurrences(art, '—') == if f % 7 == 5 { 2nat } else { 0nat }
            &&& occurrences(art, '●') == if f % 7 == 5 { 0nat } else { 2nat }
            &&& occurrences(art, '≋') == if f % 2 == 0 { 6nat } else { 0nat }
            &&& occurrences(art, '~') == if f % 2 == 0 { 0nat } else { 6nat }
        }),
{
    let f = frame as int;
    reveal_strlit("—");
    reveal_strlit("●");
    reveal_strlit("≋");
    reveal_strlit("~");
    let eye = grand_cat_eye(f);
    let whisker = grand_cat_whisker(f);
    lemma_grand_cat_count_char(frame, '—');
    lemma_grand_cat_count_char(frame, '●');
    lemma_grand_cat_count_char(frame, '≋');
    lemma_grand_cat_count_char(frame, '~');
    reveal_with_fuel(occurrences, 2);
    assert(eye.len() == 1 && whisker.len() == 1);
    assert(eye.drop_last().len() == 0 && whisker.drop_last().len() == 0);
}

/// The focus orb repeats every twenty frames.
pub proof fn lemma_focus_repeats(frame: nat)
    ensures
        focus_art(frame + 20int) == focus_art(frame as int),
{
    let f = frame as int;
    assert((f + 20) % 10 == f % 10);
    assert((f + 20) % 4 == f % 4);
}

/// The focus orb's seven rows at a frame: the spinner in the second row and
/// the pulse in the fourth, below the label.
pub open spec fn focus_rows(frame: int) -> Seq<Seq<char>> {
    seq![
        "       .----------."@,
        "     .'     "@ + BRAILLE_SPINNER@[frame % 10]@ + "      '."@,
        "    /    F O C U S     \\"@,
        "   |      "@ + PULSE@[frame % 4]@ + "       |"@,
        "    \\                /"@,
        "     '._          _.'"@,
        "        '--------'"@,
    ]
}

/// The focus orb has seven lines: its spinner turns in the second line
/// through the ten braille characters, the label `F O C U S` stands in the
/// third, and the pulse moves in the fourth through its four shapes.
pub proof fn lemma_focus_lines(frame: nat)
    ensures
        lines_of(focus_art(frame as int)) == focus_rows(frame as int),
        lines_of(focus_art(frame as int)).len() == 7,
{
    let f = frame as int;
    reveal_strlit("       .----------.\n     .'     ");
    reveal_strlit("      '.\n    /    F O C U S     \\\n   |      ");
    reveal_strlit("       |\n    \\                /\n     '._          _.'\n        '--------'");
    reveal_strlit("       .----------.");
    reveal_strlit("     .'     ");
    reveal_strlit("      '.");
    reveal_strlit("    /    F O C U S     \\");
    reveal_strlit("   |      ");
    reveal_strlit("       |");
    reveal_strlit("    \\                /");
    reveal_strlit("     '._          _.'");
    reveal_strlit("        '--------'");
    reveal_strlit("⠋");
    reveal_strlit("⠙");
    reveal_strlit("⠹");
    reveal_strlit("⠸");
    reveal_strlit("⠼");
    reveal_strlit("⠴");
    reveal_strlit("⠦");
    reveal_strlit("⠧");
    reveal_strlit("⠇");
    reveal_strlit("⠏");
    reveal_strlit("·  ·  ·");
    reveal_strlit("•  ·  ·");
    reveal_strlit("·  •  ·");
    reveal_strlit("·  ·  •");
    let rows = focus_rows(f);
    let spinner = BRAILLE_SPINNER@[f % 10]@;
    let pulse = PULSE@[f % 4]@;
    assert(spinner.len() == 1 && spinner[0] != '\n');
    assert(pulse.len() == 7);
    assert forall|i: int| 0 <= i < 7 implies no_newline(#[trigger] rows[i]) by {
        if i == 1 {
            assert forall|j: int| 0 <= j < rows[1].len() implies rows[1][j] != '\n' by {}
        } else if i == 3 {
            assert forall|j: int| 0 <= j < rows[3].len() implies rows[3][j] != '\n' by {}
        }
    }
    reveal_with_fuel(join_lines, 8);
    assert(join_lines(rows) =~= focus_art(f));
    lemma_lines_of_join(rows);
    let lines = lines_of(focus_art(f));
    assert forall|i: int| 0 <= i < 7 implies #[trigger] lines[i] == rows[i] by {
        if i < 6 {
            assert(lines[i] == strip_cr(rows[i]));
            assert(rows[i].last() != '\r');
        } else {
            assert(lines.last() == rows.last());
        }
    }
    assert(lines =~= rows);
}

proof fn lemma_single_plain(s: &str)
    requires
        no_newline(s@),
    ensures
        plain_sprite(sprite_view(seq![s])),
{
    assert(sprite_view(seq![s]) =~= seq![s@]);
}

/// The sky has exactly 7 lines, none longer than 34 characters.
pub proof fn lemma_sky_is_bounded(frame: nat)
    ensures
        lines_of(canvas_text(sky_canvas(frame as int))).len() == 7,
        forall|i: int|
            0 <= i < 7 ==> (#[trigger] lines_of(canvas_text(sky_canvas(frame as int)))[i]).len()
                <= 34,
{
    let f = frame as int;
    lemma_sprites_plain();
    lemma_blank_well_formed(34, 7);
    lemma_single_plain(BIRD);
    lemma_single_plain(HORIZON);
    let cloud_x = f % 42;
    let bird_x = (f * 2 + 18) % 39;
    let c1 = stamped(blank_canvas(34, 7), sprite_view(CLOUD@), cloud_x - 7, 2);
    lemma_stamped_well_formed(blank_canvas(34, 7), sprite_view(CLOUD@), cloud_x - 7, 2, 34);
    let c2 = stamped(c1, sprite_view(seq![BIRD]), bird_x - 3, f / 5 % 2);
    lemma_stamped_well_formed(c1, sprite_view(seq![BIRD]), bird_x - 3, f / 5 % 2, 34);
    lemma_stamped_well_formed(c2, sprite_view(seq![HORIZON]), 0, 6, 34);
    let sky = sky_canvas(f);
    assert(sprite_view(seq![HORIZON])[0] == HORIZON@);
    assert(sky[6][0] == '_');
    assert(!is_white_space(sky[6][0]));
    lemma_canvas_text_lines(sky, 34, 7);
}

/// The aquarium has exactly 7 lines, none longer than 34 characters.
pub proof fn lemma_aquarium_is_bounded(frame: nat)
    ensures
        lines_of(canvas_text(aquarium_canvas(frame as int))).len() == 7,
        forall|i: int|
            0 <= i < 7 ==> (#[trigger] lines_of(canvas_text(aquarium_canvas(frame as int)))[i]).len()
                <= 34,
{
    let f = frame as int;
    lemma_sprites_plain();
    lemma_blank_well_formed(34, 7);
    lemma_single_plain(FISH);
    lemma_single_plain(SMALL_FISH);
    lemma_single_plain(BUBBLE);
    lemma_single_plain(SEA_FLOOR);
    let fish_x = f % 41;
    let small_fish_x = 38 - f * 2 % 42;
    let bubble_x = 8 + f * 5 % 18;
    let bubble_y = if f / 2 % 5 <= 4 { 4 - f / 2 % 5 } else { 0 };
    let c1 = stamped(blank_canvas(34, 7), sprite_view(seq![FISH]), fish_x - 7, 2);
    lemma_stamped_well_formed(blank_canvas(34, 7), sprite_view(seq![FISH]), fish_x - 7, 2, 34);
    let c2 = stamped(c1, sprite_view(seq![SMALL_FISH]), small_fish_x, 4);
    lemma_stamped_well_formed(c1, sprite_view(seq![SMALL_FISH]), small_fish_x, 4, 34);
    let c3 = stamped(c2, sprite_view(seq![BUBBLE]), bubble_x, bubble_y);
    lemma_stamped_well_formed(c2, sprite_view(seq![BUBBLE]), bubble_x, bubble_y, 34);
    lemma_stamped_well_formed(c3, sprite_view(seq![SEA_FLOOR]), 2, 6, 34);
    let sea = aquarium_canvas(f);
    assert(sprite_view(seq![SEA_FLOOR])[0] == SEA_FLOOR@);
    assert(sea[6][2] == '~');
    assert(!is_white_space(sea[6][2]));
    lemma_canvas_text_lines(sea, 34, 7);
}

/// The rocket has at most 8 lines, none longer than 22 characters.
pub proof fn lemma_rocket_is_bounded(frame: nat)
    ensures
        lines_of(canvas_text(rocket_canvas(frame as int))).len() <= 8,
        forall|i: int|
            0 <= i < lines_of(canvas_text(rocket_canvas(frame as int))).len() ==> (#[trigger] lines_of(
                canvas_text(rocket_canvas(frame as int)),
            )[i]).len() <= 22,
{
    let f = frame as int;
    lemma_sprites_plain();
    lemma_blank_well_formed(22, 8);
    lemma_single_plain(FLAME_UP);
    lemma_single_plain(FLAME_DOWN);
    lemma_single_plain(SPARKS_LOW);
    lemma_single_plain(SPARKS_HIGH);
    let y = f / 3 % 2;
    let flame = if f % 2 == 0 { FLAME_UP } else { FLAME_DOWN };
    let c1 = stamped(blank_canvas(22, 8), sprite_view(ROCKET@), 0, y);
    lemma_stamped_well_formed(blank_canvas(22, 8), sprite_view(ROCKET@), 0, y, 22);
    let c2 = stamped(c1, sprite_view(seq![flame]), 0, y + 5);
    lemma_stamped_well_formed(c1, sprite_view(seq![flame]), 0, y + 5, 22);
    lemma_stamped_well_formed(c2, sprite_view(seq![SPARKS_LOW]), 0, 1, 22);
    lemma_stamped_well_formed(c2, sprite_view(seq![SPARKS_HIGH]), 0, 0, 22);
    lemma_canvas_text_lines(rocket_canvas(f), 22, 8);
}

/// Text followed by spaces trims back to the text, when it ends in
/// something other than white space.
proof fn lemma_trim_padding(s: Seq<char>, k: nat)
    requires
        s.len() > 0,
        !is_white_space(s.last()),
    ensures
        trim_end(s + repeat_char(' ', k)) == s,
    decreases k,
{
    if k == 0 {
        assert(s + repeat_char(' ', 0) =~= s);
    } else {
        assert((s + repeat_char(' ', k)).drop_last() =~= s + repeat_char(' ', (k - 1) as nat));
        lemma_trim_padding(s, (k - 1) as nat);
    }
}

/// A row of the rocket's canvas that only the rocket's body reaches.
proof fn lemma_rocket_body_row(f: int, k: int)
    requires
        f >= 0,
        2 <= k < 5,
    ensures
        rocket_canvas(f)[f / 3 % 2 + k] =~= ROCKET@[k]@ + repeat_char(' ', (22 - ROCKET@[k]@.len()) as nat),
        ROCKET@[k]@.len() == if k == 4 { 12int } else { 11int },
{
    reveal_strlit("     | PT |");
    reveal_strlit("     |____|");
    reveal_strlit("    /|    |\\");
    let y = f / 3 % 2;
    let line = ROCKET@[k]@;
    let r = y + k;
    let c1 = stamped(blank_canvas(22, 8), sprite_view(ROCKET@), 0, y);
    assert(sprite_view(ROCKET@)[k] == line);
    assert(c1[r] =~= line + repeat_char(' ', (22 - line.len()) as nat));
}

/// The rocket's text has eight lines: the rocket's middle, base and fins on
/// rows two to four below its top, which is on row 0 or 1 as it hops every
/// three frames, the flame right below them pointing up on even frames and
/// down on odd ones, and an empty last line; it repeats every six frames.
pub proof fn lemma_rocket_rows(frame: nat)
    ensures
        ({
            let f = frame as int;
            let y = f / 3 % 2;
            let rows = split_newlines(canvas_text(rocket_canvas(f)));
            &&& rows.len() == 8
            &&& rows[y + 2] == "     | PT |"@
            &&& rows[y + 3] == "     |____|"@
            &&& rows[y + 4] == "    /|    |\\"@
            &&& rows[y + 5] == if f % 2 == 0 {
                "      /\\"@
            } else {
                "      \\/"@
            }
            &&& rows[7] == Seq::<char>::empty()
        }),
        rocket_canvas(frame + 6int) == rocket_canvas(frame as int),
{
    let f = frame as int;
    let y = f / 3 % 2;
    assert((f + 6) / 3 % 2 == y);
    assert((f + 6) % 2 == f % 2);
    assert((f + 6) % 3 == f % 3);
    reveal_strlit("     | PT |");
    reveal_strlit("     |____|");
    reveal_strlit("    /|    |\\");
    reveal_strlit("      /\\");
    reveal_strlit("      \\/");
    let c = rocket_canvas(f);
    lemma_rocket_is_bounded(frame);
    lemma_sprites_plain();
    lemma_blank_well_formed(22, 8);
    let flame = if f % 2 == 0 { FLAME_UP } else { FLAME_DOWN };
    let c1 = stamped(blank_canvas(22, 8), sprite_view(ROCKET@), 0, y);
    lemma_stamped_well_formed(blank_canvas(22, 8), sprite_view(ROCKET@), 0, y, 22);
    let c2 = stamped(c1, sprite_view(seq![flame]), 0, y + 5);
    lemma_stamped_well_formed(c1, sprite_view(seq![flame]), 0, y + 5, 22);
    lemma_stamped_well_formed(c2, sprite_view(seq![SPARKS_LOW]), 0, 1, 22);
    lemma_stamped_well_formed(c2, sprite_view(seq![SPARKS_HIGH]), 0, 0, 22);
    let trimmed = c.map_values(|row: Seq<char>| trim_end(row));
    assert forall|i: int| 0 <= i < trimmed.len() implies no_newline(#[trigger] trimmed[i]) by {
        lemma_trim_end_prefix(c[i]);
        assert(no_newline(c[i]));
        assert forall|j: int| 0 <= j < trimmed[i].len() implies trimmed[i][j] != '\n' by {
            assert(trimmed[i][j] == c[i][j]);
        }
    }
    lemma_split_join(trimmed);
    lemma_rocket_body_row(f, 2);
    lemma_rocket_body_row(f, 3);
    lemma_rocket_body_row(f, 4);
    lemma_trim_padding(ROCKET@[2]@, 11);
    lemma_trim_padding(ROCKET@[3]@, 11);
    lemma_trim_padding(ROCKET@[4]@, 10);
    assert(sprite_view(seq![flame])[0] == flame@);
    assert(c[y + 5] =~= flame@ + repeat_char(' ', 14));
    lemma_trim_padding(flame@, 14);
    assert(c[7] =~= repeat_char(' ', 22));
    assert(trim_end(repeat_char(' ', 22)) == Seq::<char>::empty()) by {
        lemma_trim_padding_blank(22);
    }
}

proof fn lemma_trim_padding_blank(k: nat)
    ensures
        trim_end(repeat_char(' ', k)) == Seq::<char>::empty(),
    decreases k,
{
    if k > 0 {
        assert(repeat_char(' ', k).drop_last() =~= repeat_char(' ', (k - 1) as nat));
        lemma_trim_padding_blank((k - 1) as nat);
    }
}

proof fn lemma_cosmos_stars_well_formed(frame: int, count: nat)
    ensures
        cosmos_stars(frame, count).len() == 13,
        well_formed(cosmos_stars(frame, count), 68),
    decreases count,
{
    if count == 0 {
        lemma_blank_well_formed(68, 13);
    } else {
        let index = count - 1;
        lemma_cosmos_stars_well_formed(frame, (count - 1) as nat);
        lemma_sprites_plain();
        lemma_single_plain(star_sprite(frame, index));
        lemma_stamped_well_formed(
            cosmos_stars(frame, (count - 1) as nat),
            sprite_view(seq![star_sprite(frame, index)]),
            STAR_COLUMNS@[index] as int,
            star_row(frame, index),
            68,
        );
    }
}

/// The grand cosmos has at most 13 lines, none longer than 68 characters.
pub proof fn lemma_cosmos_is_bounded(frame: nat)
    ensures
        lines_of(canvas_text(cosmos_canvas(frame as int))).len() <= 13,
        forall|i: int|
            0 <= i < lines_of(canvas_text(cosmos_canvas(frame as int))).len() ==> (#[trigger] lines_of(
                canvas_text(cosmos_canvas(frame as int)),
            )[i]).len() <= 68,
{
    let f = frame as int;
    lemma_sprites_plain();
    lemma_cosmos_stars_well_formed(f, 7);
    lemma_single_plain(SHIP);
    let with_planet = stamped(cosmos_stars(f, 7), sprite_view(PLANET@), 0, 3);
    lemma_stamped_well_formed(cosmos_stars(f, 7), sprite_view(PLANET@), 0, 3, 68);
    lemma_stamped_well_formed(with_planet, sprite_view(seq![SHIP]), f * 2 % 84 - 12, 1 + f / 8 % 2, 68);
    lemma_canvas_text_lines(cosmos_canvas(f), 68, 13);
}

} // verus!

use ptimer::animation::{
    aquarium, cat, coffee, fireplace, focus, grand_castle, grand_cat, grand_cosmos, hourglass,
    plant, rocket, sky, tomato,
};
use unicode_width::UnicodeWidthStr;

#[test]
fn fixed_scenes_do_not_jump_in_size() {
    for frames in [
        (0..4).map(tomato).collect::<Vec<_>>(),
        (0..6).map(coffee).collect::<Vec<_>>(),
        (0..6).map(cat).collect::<Vec<_>>(),
        (0..6).map(plant).collect::<Vec<_>>(),
        (0..4).map(hourglass).collect::<Vec<_>>(),
        (0..4).map(fireplace).collect::<Vec<_>>(),
    ] {
        let dimensions: Vec<_> = frames
            .iter()
            .map(|frame| {
                (
                    frame.lines().count(),
                    frame.lines().map(UnicodeWidthStr::width).max().unwrap_or(0),
                )
            })
            .collect();
        assert!(dimensions.windows(2).all(|pair| pair[0] == pair[1]));
    }
}

#[test]
fn sky_is_bounded() {
    for frame in 0..80 {
        let art = sky(frame);
        assert_eq!(art.lines().count(), 7);
        assert!(art.lines().all(|line| line.len() <= 34));
    }
}

#[test]
fn procedural_scenes_are_bounded() {
    for frame in 0..100 {
        for art in [aquarium(frame), rocket(frame)] {
            assert!(art.lines().count() <= 8);
            assert!(art.lines().all(|line| line.len() <= 34));
        }
    }
}

#[test]
fn grand_scenes_stay_within_their_canvas() {
    for frame in 0..100 {
        for art in [grand_cat(frame), grand_castle(frame), grand_cosmos(frame)] {
            assert!(art.lines().count() <= 13);
            assert!(art.lines().all(|line| UnicodeWidthStr::width(line) <= 68));
        }
    }
}

#[test]
fn fixed_scenes_have_their_exact_size() {
    let scenes: [(fn(usize) -> String, usize, usize); 6] = [
        (tomato, 6, 19),
        (coffee, 6, 16),
        (cat, 6, 22),
        (plant, 7, 18),
        (hourglass, 7, 18),
        (fireplace, 7, 20),
    ];
    for (scene, height, width) in scenes {
        for frame in 0..30 {
            let art = scene(frame);
            assert_eq!(art.lines().count(), height);
            assert!(art.lines().all(|line| line.chars().count() == width));
        }
    }
}

#[test]
fn fixed_scenes_cycle_through_their_frames() {
    assert_eq!(tomato(0), tomato(4));
    assert_ne!(tomato(0), tomato(1));
    assert_eq!(coffee(1), coffee(7));
    assert_eq!(fireplace(2), fireplace(6));
}

#[test]
fn tomato_first_frame_is_padded() {
    let art = tomato(0);
    let first = art.lines().next().unwrap();
    assert_eq!(first, "         __        ");
    assert!(!art.ends_with('\n'));
}

#[test]
fn focus_turns_its_spinner() {
    let art = focus(0);
    assert!(art.contains('⠋'));
    assert!(art.contains("·  ·  ·"));
    assert!(focus(1).contains('⠙'));
    assert!(focus(1).contains("•  ·  ·"));
    assert_eq!(focus(0).lines().count(), 7);
    assert_eq!(focus(20), focus(0));
}

#[test]
fn sky_first_frame() {
    let art = sky(0);
    let lines: Vec<&str> = art.lines().collect();
    assert_eq!(lines[6], r"__  _/\_    __/\__   _/\_  ___");
    assert_eq!(lines[4], "");
    assert_eq!(lines[0], "               ~v~");
    assert_eq!(lines[2], "");
}

#[test]
fn aquarium_has_its_floor() {
    let art = aquarium(3);
    let lines: Vec<&str> = art.lines().collect();
    assert_eq!(lines.len(), 7);
    assert_eq!(lines[6], "  ~~~~~~~~~~~~~~~~~~~~~~~~~~~~~~");
}

#[test]
fn rocket_flame_flickers() {
    assert!(rocket(0).contains("      /\\"));
    assert!(rocket(1).contains("      \\/"));
}

#[test]
fn grand_cat_blinks_on_the_fifth_of_seven() {
    assert!(grand_cat(5).contains('—'));
    assert!(!grand_cat(4).contains('—'));
    assert!(grand_cat(4).contains('●'));
    assert!(grand_cat(0).contains('≋'));
    assert!(grand_cat(1).contains("~~~"));
}

#[test]
fn grand_castle_waves_its_flag() {
    assert!(grand_castle(0).lines().next().unwrap().trim_end().ends_with("|>>>"));
    assert_eq!(grand_castle(0).lines().next().unwrap().chars().count(), 68);
    assert!(grand_castle(2).lines().next().unwrap().starts_with("                          |  >"));
    assert_eq!(grand_castle(0).lines().count(), 13);
}

#[test]
fn grand_cosmos_is_bounded_in_characters() {
    for frame in 0..200 {
        let art = grand_cosmos(frame);
        assert!(art.lines().count() <= 13);
        assert!(art.lines().all(|line| line.chars().count() <= 68));
    }
}

#[test]
fn rocket_rows_and_period() {
    for frame in 0..60usize {
        let art = rocket(frame);
        let rows: Vec<&str> = art.split('\n').collect();
        let y = frame / 3 % 2;
        assert_eq!(rows.len(), 8);
        assert_eq!(rows[y + 2], "     | PT |");
        assert_eq!(rows[y + 3], "     |____|");
        assert_eq!(rows[y + 4], "    /|    |\\");
        assert_eq!(rows[y + 5], if frame % 2 == 0 { "      /\\" } else { "      \\/" });
        assert_eq!(rows[7], "");
        assert_eq!(rocket(frame + 6), art);
    }
}

#[test]
fn grand_cat_pattern_and_period() {
    for frame in 0..60usize {
        let art = grand_cat(frame);
        let lines: Vec<&str> = art.lines().collect();
        let eye = if frame % 7 == 5 { '—' } else { '●' };
        assert_eq!(lines[4].matches(eye).count(), 2);
        let wave = if frame % 2 == 0 { "≋≋≋" } else { "~~~" };
        assert_eq!(lines[8].matches(wave).count(), 2);
        assert_eq!(grand_cat(frame + 14), art);
    }
}

#[test]
fn focus_lines_and_period() {
    let spinner = ['⠋', '⠙', '⠹', '⠸', '⠼', '⠴', '⠦', '⠧', '⠇', '⠏'];
    let pulse = ["·  ·  ·", "•  ·  ·", "·  •  ·", "·  ·  •"];
    for frame in 0..40usize {
        let art = focus(frame);
        let lines: Vec<&str> = art.lines().collect();
        assert_eq!(lines.len(), 7);
        assert!(lines[1].contains(spinner[frame % 10]));
        assert!(lines[2].contains("F O C U S"));
        assert!(lines[3].contains(pulse[frame % 4]));
        assert_eq!(focus(frame + 20), art);
    }
}

#[test]
fn grand_cat_holds_its_eyes_and_whiskers_exactly() {
    for frame in 0..30usize {
        let art = grand_cat(frame);
        let count = |c: char| art.chars().filter(|x| *x == c).count();
        let shut = frame % 7 == 5;
        assert_eq!(count('—'), if shut { 2 } else { 0 });
        assert_eq!(count('●'), if shut { 0 } else { 2 });
        let wave = frame % 2 == 0;
        assert_eq!(count('≋'), if wave { 6 } else { 0 });
        assert_eq!(count('~'), if wave { 0 } else { 6 });
        assert_eq!(art.matches(if wave { "≋≋≋" } else { "~~~" }).count(), 2);
    }
}

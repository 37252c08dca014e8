use ptimer::animation::tomato;
use ptimer::screen::{
    clock_lines, draw_plan, human_mmss, normal_screen, progress_line, settings_screen, Color,
};
use ptimer::settings::{
    default_toml_config, ArtStyle, ClockStyle, Config, NotificationStyle, Phase, SoundStyle,
};
use ptimer::timer::{read_ascii_for_phase, State, SETTING_COUNT};
use ptimer::width::{center_str, display_width, truncate_to_width};

fn chars(text: &str) -> Vec<char> {
    text.chars().collect()
}

fn text(chars: &[char]) -> String {
    chars.iter().collect()
}

fn width_of(line: &str) -> usize {
    display_width(&chars(line))
}

fn test_config() -> Config {
    Config {
        work_sec: 25 * 60,
        short_sec: 5 * 60,
        long_sec: 15 * 60,
        long_every: 4,
        ascii_config: default_toml_config().ascii_art,
        art_style: ArtStyle::Tomato,
        animations_enabled: true,
        clock_style: ClockStyle::Digital,
        notifications: NotificationStyle::Urgent,
        sound: SoundStyle::Bell,
    }
}

fn test_state(size: (u16, u16)) -> State {
    let mut state = State::new(size);
    state.phase = Phase::Work;
    state.remaining_ms = 1_499_200;
    state.sessions_completed = 2;
    state.ascii_art = Some(tomato(0));
    state
}

#[test]
fn truncation_respects_wide_characters() {
    assert_eq!(text(&truncate_to_width(&chars("ab界cd"), 4)), "ab界");
    assert_eq!(display_width(&truncate_to_width(&chars("ab界cd"), 4)), 4);
}

#[test]
fn countdown_rounds_up_for_display() {
    assert_eq!(text(&human_mmss(59_100)), "01:00");
    assert_eq!(text(&human_mmss(59_000)), "00:59");
}

#[test]
fn responsive_screens_fit_common_terminal_sizes() {
    let cfg = test_config();
    for (width, height) in [(120, 35), (70, 20), (45, 16), (20, 7)] {
        let state = test_state((width, height));
        let lines = normal_screen(&state, &cfg, width, height);
        assert!(lines.len() <= height as usize);
        assert!(lines.iter().all(|line| width_of(line) <= width as usize));

        let lines = settings_screen(&state, &cfg, width, height);
        assert!(lines.len() <= height as usize);
        assert!(lines.iter().all(|line| width_of(line) <= width as usize));

        let mut state = state;
        state.selected_setting = SETTING_COUNT - 1;
        let lines = settings_screen(&state, &cfg, width, height);
        assert!(lines.iter().any(|line| line.starts_with('>')));
    }
}

#[test]
fn original_cat_is_the_pre_animation_bundled_art() {
    let bundled = " /\\_/\\\n( o.o )\n > ^ <\n\n";
    let mut cfg = test_config();
    cfg.art_style = ArtStyle::OriginalCat;
    assert_eq!(
        read_ascii_for_phase(Phase::Idle, &cfg, 99, bundled, None).as_deref(),
        Some(bundled.trim_end_matches('\n'))
    );
}

#[test]
fn countdown_shows_long_minutes() {
    assert_eq!(text(&human_mmss(0)), "00:00");
    assert_eq!(text(&human_mmss(1)), "00:01");
    assert_eq!(text(&human_mmss(6_000_000)), "100:00");
}

#[test]
fn centering_splits_the_spare_columns() {
    assert_eq!(text(&center_str("ab", 7)), "  ab   ");
    assert_eq!(text(&center_str("abcdef", 3)), "abc");
    assert_eq!(text(&center_str("界", 5)), " 界  ");
}

#[test]
fn clock_styles() {
    let mut cfg = test_config();
    let mut state = test_state((120, 35));
    state.remaining_ms = 61_000;
    cfg.clock_style = ClockStyle::Classic;
    let lines: Vec<String> = clock_lines(&state, &cfg, 80).iter().map(|l| text(l)).collect();
    assert_eq!(lines, vec!["01:01".to_string()]);
    cfg.clock_style = ClockStyle::Minimal;
    let lines: Vec<String> = clock_lines(&state, &cfg, 80).iter().map(|l| text(l)).collect();
    assert_eq!(lines, vec!["1m 01s".to_string()]);
    cfg.clock_style = ClockStyle::Digital;
    let lines: Vec<String> = clock_lines(&state, &cfg, 80).iter().map(|l| text(l)).collect();
    assert_eq!(lines.len(), 5);
    assert_eq!(lines[0], " __          __");
    assert_eq!(lines[1], "|  |    | o |  |    |");
    assert_eq!(lines[4], "|__|    |   |__|    |");
    let narrow: Vec<String> = clock_lines(&state, &cfg, 24).iter().map(|l| text(l)).collect();
    assert_eq!(narrow, vec!["01:01".to_string()]);
    state.phase = Phase::Idle;
    let idle: Vec<String> = clock_lines(&state, &cfg, 80).iter().map(|l| text(l)).collect();
    assert_eq!(idle, vec!["--:--".to_string()]);
    cfg.clock_style = ClockStyle::Minimal;
    let idle: Vec<String> = clock_lines(&state, &cfg, 80).iter().map(|l| text(l)).collect();
    assert_eq!(idle, vec!["ready".to_string()]);
}

#[test]
fn progress_bar_fills_with_time() {
    let cfg = test_config();
    let mut state = test_state((120, 35));
    state.remaining_ms = 1_500_000;
    assert_eq!(text(&progress_line(&state, &cfg, 12)), "[----------]");
    state.remaining_ms = 750_000;
    assert_eq!(text(&progress_line(&state, &cfg, 12)), "[#####-----]");
    state.remaining_ms = 0;
    assert_eq!(text(&progress_line(&state, &cfg, 12)), "[##########]");
    state.remaining_ms = 1_425_000;
    assert_eq!(text(&progress_line(&state, &cfg, 12)), "[#---------]");
    state.phase = Phase::Idle;
    assert_eq!(text(&progress_line(&state, &cfg, 3)), "[-----]");
    assert_eq!(text(&progress_line(&state, &cfg, 200)).len(), 72);
}

#[test]
fn tiny_screens_show_the_essentials() {
    let cfg = test_config();
    let state = test_state((20, 7));
    let lines = normal_screen(&state, &cfg, 20, 7);
    assert_eq!(lines, vec!["PTIMER", "WORK", "25:00", "s e q"]);
    let lines = normal_screen(&state, &cfg, 5, 2);
    assert_eq!(lines, vec!["PTIME", "WORK"]);
}

#[test]
fn main_screen_layouts() {
    let cfg = test_config();
    let state = test_state((120, 35));
    let lines = normal_screen(&state, &cfg, 120, 35);
    assert_eq!(lines[0].trim(), "PTIMER");
    assert!(lines.iter().any(|line| line.contains("[ WORK ]")));
    assert!(lines.iter().any(|line| line.contains("sessions 2 / long break every 4")));
    assert!(lines.last().unwrap().contains("[s] start  [p] pause  [e] settings  [q] quit"));
    let mut paused = test_state((45, 16));
    paused.paused = true;
    let lines = normal_screen(&paused, &cfg, 45, 16);
    assert!(lines.iter().any(|line| line.contains("[ WORK / PAUSED ]")));
}

#[test]
fn settings_screen_marks_the_selection() {
    let cfg = test_config();
    let mut state = test_state((80, 30));
    state.settings_open = true;
    state.selected_setting = 4;
    let lines = settings_screen(&state, &cfg, 80, 30);
    assert_eq!(lines[0].trim(), "PTIMER SETTINGS");
    let selected: Vec<&String> = lines.iter().filter(|line| line.starts_with('>')).collect();
    assert_eq!(selected.len(), 1);
    assert!(selected[0].starts_with("> ASCII art"));
    assert!(selected[0].ends_with("tomato"));
    assert_eq!(width_of(selected[0]), 70);
    assert!(lines.iter().any(|line| line.starts_with("  Work duration") && line.ends_with("25 min")));
    assert!(lines.last().unwrap().contains("[t] test alerts"));
}

#[test]
fn draw_plan_centres_the_block() {
    let cfg = test_config();
    let state = test_state((20, 7));
    let placed = draw_plan(&state, &cfg);
    assert_eq!(placed.len(), 4);
    assert_eq!(placed[0].y, 1);
    assert_eq!(placed[0].text, "PTIMER");
    assert_eq!(placed[0].x, 7);
    assert!(placed[0].bold);
    assert!(!placed[1].bold);
    assert!(placed.iter().all(|p| p.color == Color::Cyan));
    let mut settings = test_state((80, 30));
    settings.settings_open = true;
    let placed = draw_plan(&settings, &cfg);
    assert!(placed.iter().any(|p| p.reverse && p.color == Color::Cyan));
    assert!(placed.iter().filter(|p| p.reverse).count() == 1);
}

#[test]
fn the_selected_setting_is_always_shown() {
    let cfg = test_config();
    for height in 4..30u16 {
        for selected in 0..SETTING_COUNT {
            let mut state = test_state((40, height));
            state.settings_open = true;
            state.selected_setting = selected;
            let lines = settings_screen(&state, &cfg, 40, height);
            assert!(lines.len() <= height as usize);
            assert_eq!(lines.iter().filter(|line| line.starts_with('>')).count(), 1);
            assert!(lines.iter().all(|line| width_of(line) <= 40));
        }
    }
}

#[test]
fn main_screens_fit_their_width() {
    let cfg = test_config();
    for width in 0..130u16 {
        for height in [0u16, 5, 9, 12, 15, 17, 22, 30] {
            let state = test_state((width, height));
            let lines = normal_screen(&state, &cfg, width, height);
            assert!(lines.iter().all(|line| width_of(line) <= width as usize));
            if !(width >= 27 && (9..=11).contains(&height)) {
                assert!(lines.len() <= height as usize);
            }
        }
    }
}

#[test]
fn a_stacked_digital_clock_needs_twelve_rows() {
    let cfg = test_config();
    let state = test_state((45, 10));
    assert_eq!(normal_screen(&state, &cfg, 45, 10).len(), 12);
    let mut idle = test_state((45, 10));
    idle.phase = Phase::Idle;
    assert!(normal_screen(&idle, &cfg, 45, 10).len() <= 10);
}

#[test]
fn narrow_settings_lines_keep_their_values() {
    let cfg = test_config();
    let mut state = test_state((10, 30));
    state.settings_open = true;
    let lines = settings_screen(&state, &cfg, 10, 30);
    assert!(lines.iter().any(|line| line == "> 25 min"));
    assert!(lines.iter().any(|line| line.ends_with("tomato")));
}

#[test]
fn every_line_is_drawn_on_the_terminal() {
    let cfg = test_config();
    for (width, height) in [(120u16, 35u16), (70, 20), (45, 16), (20, 7), (45, 10), (3, 2)] {
        for settings_open in [false, true] {
            let mut state = test_state((width, height));
            state.settings_open = settings_open;
            let placed = draw_plan(&state, &cfg);
            for (row, p) in placed.iter().enumerate() {
                assert!(p.y < height);
                assert!(p.x as usize + p.text.chars().count() <= width as usize);
                if row > 0 {
                    assert_eq!(p.y, placed[row - 1].y + 1);
                }
            }
        }
    }
}

#[test]
fn the_main_screen_stays_in_its_box() {
    let mut cfg = test_config();
    cfg.art_style = ArtStyle::Custom;
    let mut state = test_state((300, 300));
    let art: Vec<String> = (0..200).map(|i| format!("line {i}")).collect();
    state.ascii_art = Some(art.join("\n"));
    for (width, height) in [(120u16, 300u16), (300, 300), (300, 40), (70, 150)] {
        let lines = normal_screen(&state, &cfg, width, height);
        assert!(lines.len() <= 100);
        assert!(lines.iter().all(|line| width_of(line) <= 150));
    }
    assert_eq!(normal_screen(&state, &cfg, 120, 300).len(), 98);
}

#[test]
fn the_progress_bar_never_shrinks() {
    let cfg = test_config();
    let mut state = test_state((120, 35));
    let mut last = 0;
    for remaining in (0..=1_500_000u128).rev().step_by(37_000) {
        state.remaining_ms = remaining;
        let bar = text(&progress_line(&state, &cfg, 40));
        assert_eq!(bar.chars().count(), 40);
        let filled = bar.chars().filter(|c| *c == '#').count();
        assert!(filled >= last);
        last = filled;
    }
}

#[test]
fn screens_fit_their_content_width() {
    let cfg = test_config();
    for width in 18..130u16 {
        for height in [9u16, 12, 15, 17, 22, 30] {
            let state = test_state((width, height));
            let content = width.min(120) as usize - 2;
            let lines = normal_screen(&state, &cfg, width, height);
            assert!(lines.iter().all(|line| width_of(line) <= content));
        }
    }
    for width in 17..90u16 {
        let mut state = test_state((width, 30));
        state.settings_open = true;
        let content = (width.min(72) as usize).saturating_sub(2).max(1);
        let lines = settings_screen(&state, &cfg, width, 30);
        assert!(lines.iter().all(|line| width_of(line) <= content));
    }
}

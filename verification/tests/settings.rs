use ptimer::settings::{
    cycle_value, default_toml_config, number, parse_number, preferences_with_durations,
    resolve_config, ArtStyle, ClockStyle, Durations, NotificationStyle, Phase, Preferences,
    SoundStyle, ART_STYLES,
};

#[test]
fn cycling_wraps_in_both_directions() {
    assert_eq!(ArtStyle::Custom.cycle(-1), ArtStyle::Off);
    assert_eq!(ClockStyle::Minimal.cycle(1), ClockStyle::Digital);
}

#[test]
fn cycling_moves_through_the_lists() {
    assert_eq!(ArtStyle::Custom.cycle(1), ArtStyle::OriginalCat);
    assert_eq!(ArtStyle::Off.cycle(1), ArtStyle::Custom);
    assert_eq!(ArtStyle::Tomato.cycle(16), ArtStyle::Tomato);
    assert_eq!(ArtStyle::Tomato.cycle(-33), ArtStyle::OriginalCat);
    assert_eq!(NotificationStyle::Off.cycle(-1), NotificationStyle::Urgent);
    assert_eq!(NotificationStyle::Normal.cycle(1), NotificationStyle::Urgent);
    assert_eq!(SoundStyle::Chime.cycle(1), SoundStyle::Off);
    assert_eq!(SoundStyle::Off.cycle(2), SoundStyle::Chime);
    assert_eq!(ClockStyle::Digital.cycle(-1), ClockStyle::Minimal);
}

#[test]
fn cycling_goes_back_where_it_came_from() {
    for style in ART_STYLES {
        for delta in -20..20 {
            assert_eq!(style.cycle(delta).cycle(-delta), style);
        }
    }
}

#[test]
fn a_value_missing_from_the_list_counts_as_the_first() {
    let values = [SoundStyle::Bell, SoundStyle::Chime];
    assert_eq!(cycle_value(&values, SoundStyle::Off, 1), SoundStyle::Chime);
    assert_eq!(cycle_value(&values, SoundStyle::Off, 0), SoundStyle::Bell);
}

#[test]
fn labels_name_the_choices() {
    assert_eq!(Phase::Short.label(), "SHORT BREAK");
    assert_eq!(Phase::Long.log_label(), "LONG PAUSE");
    assert_eq!(Phase::Idle.label(), "READY");
    assert_eq!(ArtStyle::Cat.label(), "small cat");
    assert_eq!(ArtStyle::GrandCosmos.label(), "GRAND cosmos");
    assert_eq!(SoundStyle::Chime.label(), "system chime");
    assert_eq!(NotificationStyle::Urgent.label(), "urgent");
    assert_eq!(ClockStyle::Classic.label(), "classic");
}

#[test]
fn phases_find_their_custom_art() {
    let config = default_toml_config();
    assert_eq!(Phase::Work.ascii_filename(&config.ascii_art), "work.txt");
    assert_eq!(Phase::Long.ascii_filename(&config.ascii_art), "long.txt");
}

#[test]
fn animated_styles_have_intervals() {
    assert_eq!(ArtStyle::Tomato.frame_interval(), Some(420));
    assert_eq!(ArtStyle::GrandCosmos.frame_interval(), Some(140));
    assert_eq!(ArtStyle::Custom.frame_interval(), None);
    assert_eq!(ArtStyle::Off.frame_interval(), None);
    assert!(ArtStyle::GrandCastle.is_grand());
    assert!(!ArtStyle::Rocket.is_grand());
}

#[test]
fn default_preferences() {
    let preferences = Preferences::default();
    assert_eq!(preferences.work_min, 25);
    assert_eq!(preferences.short_min, 5);
    assert_eq!(preferences.long_min, 15);
    assert_eq!(preferences.long_every, 4);
    assert_eq!(preferences.art_style, ArtStyle::Custom);
    assert!(preferences.animations_enabled);
    assert_eq!(preferences.clock_style, ClockStyle::Digital);
    assert_eq!(preferences.notifications, NotificationStyle::Urgent);
    assert_eq!(preferences.sound, SoundStyle::Bell);
}

#[test]
fn file_durations_replace_the_default_durations() {
    let durations = Durations { work_min: 50, short_min: 10, long_min: 30, long_every: 3 };
    let preferences = preferences_with_durations(&durations);
    assert_eq!(preferences.work_min, 50);
    assert_eq!(preferences.long_every, 3);
    assert_eq!(preferences.sound, SoundStyle::Bell);
}

#[test]
fn default_configuration_file() {
    let config = default_toml_config();
    assert_eq!(config.durations.work_min, 25);
    assert_eq!(config.paths.log_dir, ".ptimer/logs");
    assert_eq!(config.paths.ascii_dir, ".ptimer/ascii_art");
    assert_eq!(config.paths.log_filename, "pomodoro.csv");
    assert!(config.ascii_art.enabled);
    assert_eq!(config.ascii_art.idle_file, "idle.txt");
}

#[test]
fn numbers_parse_as_the_standard_library_does() {
    for text in ["0", "7", "+12", "0042", "18446744073709551615"] {
        assert_eq!(parse_number(text), text.parse::<u64>().ok());
    }
    for text in ["", "+", "-1", "1.5", " 3", "3 ", "18446744073709551616", "abc", "++1"] {
        assert_eq!(parse_number(text), None);
        assert_eq!(parse_number(text), text.parse::<u64>().ok());
    }
    assert_eq!(number(Some("30"), 25), 30);
    assert_eq!(number(Some("x"), 25), 25);
    assert_eq!(number(None, 25), 25);
}

#[test]
fn command_line_numbers_win_and_are_at_least_one() {
    let preferences = Preferences::default();
    let config = resolve_config(
        &preferences,
        Some(50),
        None,
        Some(0),
        Some(0),
        default_toml_config().ascii_art,
    );
    assert_eq!(config.work_sec, 3000);
    assert_eq!(config.short_sec, 300);
    assert_eq!(config.long_sec, 60);
    assert_eq!(config.long_every, 1);
    assert_eq!(config.art_style, ArtStyle::Custom);
    let saved = config.preferences();
    assert_eq!(saved.work_min, 50);
    assert_eq!(saved.long_min, 1);
    assert_eq!(saved.long_every, 1);
}

#[test]
fn art_style_labels_are_distinct() {
    for a in ART_STYLES {
        for b in ART_STYLES {
            assert_eq!(a == b, a.label() == b.label());
        }
    }
}

#[test]
fn large_steps_cycle_when_they_fit() {
    assert_eq!(ArtStyle::Custom.cycle(i32::MAX - 10), ART_STYLES[((i32::MAX - 10) % 16) as usize]);
    assert_eq!(ClockStyle::Digital.cycle(i32::MAX), ClockStyle::Classic);
}

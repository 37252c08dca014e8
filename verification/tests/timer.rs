use ptimer::animation::{sky, tomato};
use ptimer::report::{alert_user, closing_log, log_entry, notice_for, test_alert, LOG_HEADER};
use ptimer::settings::{
    default_toml_config, ArtStyle, ClockStyle, Config, NotificationStyle, Phase, SoundStyle,
};
use ptimer::timer::{
    animate, ceil_seconds, change_setting, custom_art_file, handle_key, read_ascii_for_phase,
    record_save, refresh_art, reset_settings, tick, update_phase, Key, State, SETTING_COUNT,
};

fn config() -> Config {
    Config {
        work_sec: 25 * 60,
        short_sec: 5 * 60,
        long_sec: 15 * 60,
        long_every: 4,
        ascii_config: default_toml_config().ascii_art,
        art_style: ArtStyle::Tomato,
        animations_enabled: true,
        clock_style: ClockStyle::Digital,
        notifications: NotificationStyle::Urgent,
        sound: SoundStyle::Bell,
    }
}

fn press(state: &mut State, config: &mut Config, key: Key) -> ptimer::timer::Effects {
    handle_key(state, config, key, false)
}

#[test]
fn a_new_timer_is_idle() {
    let state = State::new((80, 24));
    assert_eq!(state.phase, Phase::Idle);
    assert_eq!(state.remaining_ms, 0);
    assert_eq!(state.sessions_completed, 0);
    assert_eq!(state.last_size, (80, 24));
    assert!(!state.settings_open);
    assert!(state.ascii_art.is_none());
}

#[test]
fn starting_runs_a_full_work_session() {
    let mut cfg = config();
    let mut state = State::new((80, 24));
    let effects = press(&mut state, &mut cfg, Key::Char('s'));
    assert_eq!(state.phase, Phase::Work);
    assert_eq!(state.remaining_ms, 1_500_000);
    assert!(effects.start_clock && effects.draw && effects.refresh_art);
    let again = press(&mut state, &mut cfg, Key::Char('s'));
    assert!(!again.start_clock && !again.draw);
}

#[test]
fn pausing_twice_resumes() {
    let mut cfg = config();
    let mut state = State::new((80, 24));
    assert!(!press(&mut state, &mut cfg, Key::Char('p')).draw);
    assert!(!state.paused);
    press(&mut state, &mut cfg, Key::Char('s'));
    press(&mut state, &mut cfg, Key::Char('p'));
    assert!(state.paused);
    let effects = tick(&mut state, &cfg, 10_000);
    assert_eq!(state.remaining_ms, 1_500_000);
    assert!(!effects.draw);
    press(&mut state, &mut cfg, Key::Char('p'));
    assert!(!state.paused);
    tick(&mut state, &cfg, 10_000);
    assert_eq!(state.remaining_ms, 1_490_000);
}

#[test]
fn the_screen_is_drawn_when_the_second_changes() {
    let mut cfg = config();
    let mut state = State::new((80, 24));
    press(&mut state, &mut cfg, Key::Char('s'));
    assert!(tick(&mut state, &cfg, 100).draw);
    assert_eq!(ceil_seconds(state.remaining_ms), 1500);
    assert!(!tick(&mut state, &cfg, 100).draw);
    assert!(!tick(&mut state, &cfg, 799).draw);
    assert!(tick(&mut state, &cfg, 1).draw);
    assert_eq!(ceil_seconds(state.remaining_ms), 1499);
}

#[test]
fn work_ends_in_a_break_and_every_fourth_is_long() {
    let mut cfg = config();
    let mut state = State::new((80, 24));
    for session in 1..=8u64 {
        press(&mut state, &mut cfg, Key::Char('s'));
        let effects = tick(&mut state, &cfg, 1_500_000);
        assert_eq!(effects.finished, Some(Phase::Work));
        assert!(effects.start_clock && effects.refresh_art && effects.draw);
        assert_eq!(state.sessions_completed, session);
        if session % 4 == 0 {
            assert_eq!(state.phase, Phase::Long);
            assert_eq!(state.remaining_ms, 900_000);
        } else {
            assert_eq!(state.phase, Phase::Short);
            assert_eq!(state.remaining_ms, 300_000);
        }
        let effects = tick(&mut state, &cfg, 2_000_000);
        assert_eq!(effects.finished, Some(state_phase_before_idle(session)));
        assert!(effects.stop_clock);
        assert_eq!(state.phase, Phase::Idle);
        assert_eq!(state.remaining_ms, 0);
    }
}

fn state_phase_before_idle(session: u64) -> Phase {
    if session % 4 == 0 {
        Phase::Long
    } else {
        Phase::Short
    }
}

#[test]
fn idle_and_open_settings_do_not_count_down() {
    let mut cfg = config();
    let mut state = State::new((80, 24));
    assert_eq!(tick(&mut state, &cfg, 5_000).finished, None);
    press(&mut state, &mut cfg, Key::Char('s'));
    press(&mut state, &mut cfg, Key::Char('e'));
    assert!(state.settings_open);
    tick(&mut state, &cfg, 5_000);
    assert_eq!(state.remaining_ms, 1_500_000);
}

#[test]
fn keys_quit() {
    let mut cfg = config();
    let mut state = State::new((80, 24));
    assert!(press(&mut state, &mut cfg, Key::Char('q')).quit);
    assert!(press(&mut state, &mut cfg, Key::Esc).quit);
    assert!(handle_key(&mut state, &mut cfg, Key::Char('c'), true).quit);
    assert!(!press(&mut state, &mut cfg, Key::Char('c')).quit);
    press(&mut state, &mut cfg, Key::Char('e'));
    assert!(!press(&mut state, &mut cfg, Key::Esc).quit);
    assert!(!state.settings_open);
    press(&mut state, &mut cfg, Key::Char('e'));
    assert!(press(&mut state, &mut cfg, Key::Char('q')).quit);
}

#[test]
fn the_settings_selection_wraps() {
    let mut cfg = config();
    let mut state = State::new((80, 24));
    press(&mut state, &mut cfg, Key::Char('e'));
    press(&mut state, &mut cfg, Key::Up);
    assert_eq!(state.selected_setting, SETTING_COUNT - 1);
    press(&mut state, &mut cfg, Key::Down);
    assert_eq!(state.selected_setting, 0);
    for _ in 0..SETTING_COUNT {
        press(&mut state, &mut cfg, Key::Down);
    }
    assert_eq!(state.selected_setting, 0);
}

#[test]
fn changing_settings_stays_within_bounds() {
    let mut cfg = config();
    let mut state = State::new((80, 24));
    press(&mut state, &mut cfg, Key::Char('e'));
    let effects = press(&mut state, &mut cfg, Key::Right);
    assert!(effects.save && effects.draw);
    assert_eq!(cfg.work_sec, 26 * 60);
    cfg.work_sec = 240 * 60;
    press(&mut state, &mut cfg, Key::Right);
    assert_eq!(cfg.work_sec, 240 * 60);
    cfg.work_sec = 60;
    change_setting(&mut state, &mut cfg, -1);
    assert_eq!(cfg.work_sec, 60);
    state.selected_setting = 3;
    cfg.long_every = 20;
    change_setting(&mut state, &mut cfg, 1);
    assert_eq!(cfg.long_every, 20);
    change_setting(&mut state, &mut cfg, -1);
    assert_eq!(cfg.long_every, 19);
    state.selected_setting = 1;
    cfg.short_sec = 125 * 60;
    change_setting(&mut state, &mut cfg, 1);
    assert_eq!(cfg.short_sec, 120 * 60);
}

#[test]
fn changing_the_art_restarts_its_animation() {
    let mut cfg = config();
    let mut state = State::new((80, 24));
    state.animation_frame = 7;
    state.selected_setting = 4;
    let effects = change_setting(&mut state, &mut cfg, 1);
    assert_eq!(cfg.art_style, ArtStyle::Coffee);
    assert_eq!(state.animation_frame, 0);
    assert!(effects.refresh_art && effects.save);
    state.selected_setting = 5;
    change_setting(&mut state, &mut cfg, 1);
    assert!(!cfg.animations_enabled);
    state.selected_setting = 6;
    state.animation_frame = 3;
    let effects = change_setting(&mut state, &mut cfg, -1);
    assert_eq!(cfg.clock_style, ClockStyle::Minimal);
    assert_eq!(state.animation_frame, 3);
    assert!(!effects.refresh_art);
    state.selected_setting = 7;
    change_setting(&mut state, &mut cfg, 1);
    assert_eq!(cfg.notifications, NotificationStyle::Off);
    state.selected_setting = 8;
    change_setting(&mut state, &mut cfg, 1);
    assert_eq!(cfg.sound, SoundStyle::Chime);
}

#[test]
fn reset_restores_the_defaults() {
    let mut cfg = config();
    cfg.work_sec = 5 * 60;
    cfg.sound = SoundStyle::Off;
    cfg.long_every = 9;
    let mut state = State::new((80, 24));
    state.animation_frame = 5;
    let effects = reset_settings(&mut state, &mut cfg);
    assert!(effects.save && effects.after_reset && effects.refresh_art);
    assert_eq!(cfg.work_sec, 1500);
    assert_eq!(cfg.short_sec, 300);
    assert_eq!(cfg.long_sec, 900);
    assert_eq!(cfg.long_every, 4);
    assert_eq!(cfg.art_style, ArtStyle::Custom);
    assert_eq!(cfg.sound, SoundStyle::Bell);
    assert_eq!(state.animation_frame, 0);
}

#[test]
fn saving_reports_its_outcome() {
    let mut state = State::new((80, 24));
    record_save(&mut state, None, false);
    assert_eq!(state.save_message.as_deref(), Some("saved"));
    record_save(&mut state, None, true);
    assert_eq!(state.save_message.as_deref(), Some("defaults restored and saved"));
    record_save(&mut state, Some("disk full"), true);
    assert_eq!(state.save_message.as_deref(), Some("save failed: disk full"));
}

#[test]
fn testing_alerts_leaves_a_message() {
    let mut cfg = config();
    let mut state = State::new((80, 24));
    press(&mut state, &mut cfg, Key::Char('e'));
    let effects = press(&mut state, &mut cfg, Key::Char('t'));
    assert!(effects.test_alert);
    assert_eq!(state.save_message.as_deref(), Some("test alert sent"));
    press(&mut state, &mut cfg, Key::Enter);
    press(&mut state, &mut cfg, Key::Char('e'));
    assert!(state.save_message.is_none());
}

#[test]
fn animation_moves_on_after_its_interval() {
    let mut cfg = config();
    let mut state = State::new((80, 24));
    assert!(!animate(&mut state, &cfg, 419, false).advanced_frame);
    let effects = animate(&mut state, &cfg, 420, false);
    assert!(effects.advanced_frame && effects.refresh_art && effects.draw);
    assert_eq!(state.animation_frame, 1);
    assert!(!animate(&mut state, &cfg, 500, true).draw);
    assert_eq!(state.animation_frame, 2);
    state.animation_frame = usize::MAX;
    animate(&mut state, &cfg, 500, true);
    assert_eq!(state.animation_frame, 0);
    cfg.animations_enabled = false;
    assert!(!animate(&mut state, &cfg, 5_000, false).advanced_frame);
    cfg.animations_enabled = true;
    cfg.art_style = ArtStyle::Custom;
    assert!(!animate(&mut state, &cfg, 5_000, false).advanced_frame);
}

#[test]
fn art_is_read_for_the_frame() {
    let mut cfg = config();
    let mut state = State::new((80, 24));
    state.animation_frame = 2;
    refresh_art(&mut state, &cfg, "default\n", None);
    assert_eq!(state.ascii_art, Some(tomato(2)));
    cfg.art_style = ArtStyle::Sky;
    update_phase(&mut state, Phase::Work);
    assert_eq!(state.animation_frame, 0);
    refresh_art(&mut state, &cfg, "default\n", None);
    assert_eq!(state.ascii_art, Some(sky(0)));
    cfg.art_style = ArtStyle::Off;
    refresh_art(&mut state, &cfg, "default\n", None);
    assert_eq!(state.ascii_art, None);
}

#[test]
fn custom_art_falls_back_to_the_bundled_art() {
    let mut cfg = config();
    cfg.art_style = ArtStyle::Custom;
    assert_eq!(custom_art_file(Phase::Short, &cfg), Some("short.txt"));
    assert_eq!(
        read_ascii_for_phase(Phase::Short, &cfg, 0, "bundled\n\n", Some("mine\n")).as_deref(),
        Some("mine")
    );
    assert_eq!(
        read_ascii_for_phase(Phase::Short, &cfg, 0, "bundled\n\n", None).as_deref(),
        Some("bundled")
    );
    cfg.ascii_config.enabled = false;
    assert_eq!(custom_art_file(Phase::Short, &cfg), None);
    assert_eq!(read_ascii_for_phase(Phase::Short, &cfg, 0, "bundled", None), None);
    cfg.art_style = ArtStyle::Tomato;
    assert_eq!(custom_art_file(Phase::Work, &cfg), None);
}

#[test]
fn log_lines_cap_the_duration() {
    assert_eq!(LOG_HEADER, "timestamp,phase,duration_sec,notes");
    assert_eq!(
        log_entry("2024-01-02T03:04:05", Phase::Work, 1500, 1600),
        "2024-01-02T03:04:05,WORK,1500,completed"
    );
    assert_eq!(log_entry("t", Phase::Short, 300, 12), "t,PAUSE,12,completed");
    assert_eq!(log_entry("t", Phase::Idle, 0, 77), "t,IDLE,77,completed");
}

#[test]
fn closing_logs_only_a_running_phase() {
    let mut cfg = config();
    let mut state = State::new((80, 24));
    assert_eq!(closing_log(&state, &cfg), None);
    press(&mut state, &mut cfg, Key::Char('s'));
    assert_eq!(closing_log(&state, &cfg), Some((Phase::Work, 1500)));
}

#[test]
fn alerts_follow_the_preferences() {
    let mut cfg = config();
    let alert = alert_user(Phase::Long, &cfg);
    assert_eq!(alert.sound, SoundStyle::Bell);
    let notice = alert.notice.unwrap();
    assert_eq!(notice.urgency, "critical");
    assert_eq!(notice.message, "\n\n\n  =============== LONG PAUSE ENDED ===============  \n\n\n");
    cfg.notifications = NotificationStyle::Normal;
    let notice = test_alert(&cfg).notice.unwrap();
    assert_eq!(notice.urgency, "normal");
    assert_eq!(notice.message, "Notifications are ready.");
    cfg.notifications = NotificationStyle::Off;
    assert!(alert_user(Phase::Work, &cfg).notice.is_none());
    assert!(notice_for(NotificationStyle::Off, String::from("x")).is_none());
}

#[test]
fn resetting_twice_is_resetting_once() {
    let mut cfg = config();
    cfg.clock_style = ClockStyle::Minimal;
    let mut state = State::new((80, 24));
    reset_settings(&mut state, &mut cfg);
    let (work, every, clock) = (cfg.work_sec, cfg.long_every, cfg.clock_style);
    reset_settings(&mut state, &mut cfg);
    assert_eq!((cfg.work_sec, cfg.long_every, cfg.clock_style), (work, every, clock));
    assert_eq!(cfg.clock_style, ClockStyle::Digital);
}

#[test]
fn two_ticks_take_off_their_sum() {
    let mut cfg = config();
    let mut one = State::new((80, 24));
    press(&mut one, &mut cfg, Key::Char('s'));
    let mut two = State::new((80, 24));
    press(&mut two, &mut cfg, Key::Char('s'));
    tick(&mut one, &cfg, 1_234);
    tick(&mut one, &cfg, 5_678);
    tick(&mut two, &cfg, 6_912);
    assert_eq!(one.remaining_ms, two.remaining_ms);
    assert_eq!(one.remaining_ms, 1_500_000 - 6_912);
    assert_eq!(one.phase, Phase::Work);
}

#[test]
fn a_change_and_its_opposite_cancel_out() {
    let mut cfg = config();
    let mut state = State::new((80, 24));
    for selected in 0..SETTING_COUNT {
        state.selected_setting = selected;
        let before = (
            cfg.work_sec,
            cfg.short_sec,
            cfg.long_sec,
            cfg.long_every,
            cfg.art_style,
            cfg.animations_enabled,
            cfg.clock_style,
            cfg.notifications,
            cfg.sound,
        );
        change_setting(&mut state, &mut cfg, -1);
        change_setting(&mut state, &mut cfg, 1);
        let after = (
            cfg.work_sec,
            cfg.short_sec,
            cfg.long_sec,
            cfg.long_every,
            cfg.art_style,
            cfg.animations_enabled,
            cfg.clock_style,
            cfg.notifications,
            cfg.sound,
        );
        assert_eq!(before, after);
    }
}

#[test]
fn a_duration_above_its_bound_comes_down_a_step_at_a_time() {
    let mut cfg = config();
    cfg.work_sec = 300 * 60;
    let mut state = State::new((80, 24));
    change_setting(&mut state, &mut cfg, -1);
    assert_eq!(cfg.work_sec, 299 * 60);
    change_setting(&mut state, &mut cfg, 1);
    assert_eq!(cfg.work_sec, 240 * 60);
}

#[test]
fn any_step_moves_durations_within_bounds() {
    let mut cfg = config();
    let mut state = State::new((80, 24));
    state.selected_setting = 0;
    change_setting(&mut state, &mut cfg, i32::MAX);
    assert_eq!(cfg.work_sec, 26 * 60);
    change_setting(&mut state, &mut cfg, i32::MIN);
    assert_eq!(cfg.work_sec, 25 * 60);
    state.selected_setting = 5;
    change_setting(&mut state, &mut cfg, i32::MAX);
    assert!(!cfg.animations_enabled);
    state.selected_setting = 4;
    cfg.art_style = ArtStyle::Custom;
    change_setting(&mut state, &mut cfg, i32::MAX - 10);
    assert_eq!(cfg.art_style, ptimer::settings::ART_STYLES[((i32::MAX - 10) % 16) as usize]);
}

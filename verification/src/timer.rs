//! The timer's state and how it moves: key presses, the passing of time and
//! the animation of the art, each decided here and carried out by the caller.

use vstd::prelude::*;

use crate::animation::{
    aquarium, aquarium_canvas, cat, cat_art, coffee, coffee_art, cosmos_canvas, fireplace,
    fireplace_art, focus, focus_art, grand_castle, grand_castle_art, grand_cat, grand_cat_art,
    grand_cosmos, hourglass, hourglass_art, plant, plant_art, rocket, rocket_canvas, sky,
    sky_canvas, tomato, tomato_art,
};
use crate::canvas::canvas_text;
use crate::settings::{
    cycled, ArtStyle, Config, Phase, ART_STYLES, CLOCK_STYLES, NOTIFICATION_STYLES, SOUND_STYLES,
};
use crate::text::{chars_of, string_of, trim_newlines, trimmed_newlines};

verus! {

/// The art a style shows for a phase at a frame, before trailing newlines
/// are trimmed; `custom` is what the phase's custom art file holds, `None`
/// when it could not be read. `None` when no art is shown.
pub open spec fn untrimmed_art(
    config: Config,
    frame: int,
    default_art: Seq<char>,
    custom: Option<Seq<char>>,
) -> Option<Seq<char>> {
    match config.art_style {
        ArtStyle::Off => None,
        ArtStyle::OriginalCat => Some(default_art),
        ArtStyle::Tomato => Some(tomato_art(frame)),
        ArtStyle::Coffee => Some(coffee_art(frame)),
        ArtStyle::Cat => Some(cat_art(frame)),
        ArtStyle::Focus => Some(focus_art(frame)),
        ArtStyle::Sky => Some(canvas_text(sky_canvas(frame))),
        ArtStyle::Plant => Some(plant_art(frame)),
        ArtStyle::Hourglass => Some(hourglass_art(frame)),
        ArtStyle::Fireplace => Some(fireplace_art(frame)),
        ArtStyle::Aquarium => Some(canvas_text(aquarium_canvas(frame))),
        ArtStyle::Rocket => Some(canvas_text(rocket_canvas(frame))),
        ArtStyle::GrandCat => Some(grand_cat_art(frame)),
        ArtStyle::GrandCastle => Some(grand_castle_art(frame)),
        ArtStyle::GrandCosmos => Some(canvas_text(cosmos_canvas(frame))),
        ArtStyle::Custom => if !config.ascii_config.enabled {
            None
        } else {
            match custom {
                Some(text) => Some(text),
                None => Some(default_art),
            }
        },
    }
}

/// The art shown at a frame, its trailing newlines trimmed.
pub open spec fn art_for(
    config: Config,
    frame: int,
    default_art: Seq<char>,
    custom: Option<Seq<char>>,
) -> Option<Seq<char>> {
    match untrimmed_art(config, frame, default_art, custom) {
        Some(text) => Some(trim_newlines(text)),
        None => None,
    }
}

/// The drawn scenes work out positions from the frame number; a frame is in
/// range for a style when that arithmetic fits in a `usize`.
pub open spec fn frame_in_range(style: ArtStyle, frame: int) -> bool {
    match style {
        ArtStyle::Sky => frame * 2 + 18 <= usize::MAX,
        ArtStyle::Aquarium => frame * 5 <= usize::MAX,
        ArtStyle::GrandCosmos => frame * 2 <= usize::MAX,
        _ => true,
    }
}

/// The custom art file to read for a phase: only custom art that is enabled
/// reads one.
pub fn custom_art_file(phase: Phase, config: &Config) -> (name: Option<&str>)
    ensures
        name matches Some(n) ==> n@ == crate::settings::phase_art_file(phase, config.ascii_config),
        name is Some <==> (config.art_style == ArtStyle::Custom && config.ascii_config.enabled),
{
    match config.art_style {
        ArtStyle::Custom => if config.ascii_config.enabled {
            Some(phase.ascii_filename(&config.ascii_config))
        } else {
            None
        },
        _ => None,
    }
}

/// The art shown for a phase at a frame. `default_art` is the bundled art,
/// and `custom` what the phase's custom art file holds (`None` when it could
/// not be read, or was not read because the style shows no custom art).
pub fn read_ascii_for_phase(
    phase: Phase,
    config: &Config,
    frame: usize,
    default_art: &str,
    custom: Option<&str>,
) -> (art: Option<String>)
    requires
        frame_in_range(config.art_style, frame as int),
    ensures
        art matches Some(a) ==> art_for(
            *config,
            frame as int,
            default_art@,
            match custom {
                Some(c) => Some(c@),
                None => None,
            },
        ) == Some(a@),
        art is None <==> art_for(
            *config,
            frame as int,
            default_art@,
            match custom {
                Some(c) => Some(c@),
                None => None,
            },
        ) is None,
{
    let art = match config.art_style {
        ArtStyle::Off => {
            return None;
        },
        ArtStyle::OriginalCat => chars_of(default_art),
        ArtStyle::Tomato => chars_of(tomato(frame).as_str()),
        ArtStyle::Coffee => chars_of(coffee(frame).as_str()),
        ArtStyle::Cat => chars_of(cat(frame).as_str()),
        ArtStyle::Focus => chars_of(focus(frame).as_str()),
        ArtStyle::Sky => chars_of(sky(frame).as_str()),
        ArtStyle::Plant => chars_of(plant(frame).as_str()),
        ArtStyle::Hourglass => chars_of(hourglass(frame).as_str()),
        ArtStyle::Fireplace => chars_of(fireplace(frame).as_str()),
        ArtStyle::Aquarium => chars_of(aquarium(frame).as_str()),
        ArtStyle::Rocket => chars_of(rocket(frame).as_str()),
        ArtStyle::GrandCat => chars_of(grand_cat(frame).as_str()),
        ArtStyle::GrandCastle => chars_of(grand_castle(frame).as_str()),
        ArtStyle::GrandCosmos => chars_of(grand_cosmos(frame).as_str()),
        ArtStyle::Custom => {
            if !config.ascii_config.enabled {
                return None;
            }
            match custom {
                Some(text) => chars_of(text),
                None => chars_of(default_art),
            }
        },
    };
    let trimmed = trimmed_newlines(&art);
    Some(string_of(&trimmed))
}


/// The number of entries in the settings screen.
pub const SETTING_COUNT: usize = 9;

/// What the timer holds between events.
pub struct State {
    /// The phase the timer is in.
    pub phase: Phase,
    /// What is left of the phase, in milliseconds.
    pub remaining_ms: u128,
    /// Whether the countdown is paused.
    pub paused: bool,
    /// How many work sessions have ended.
    pub sessions_completed: u64,
    /// The art shown beside the clock, if any.
    pub ascii_art: Option<String>,
    /// The terminal's size: columns, then rows.
    pub last_size: (u16, u16),
    /// Whether the settings screen is open.
    pub settings_open: bool,
    /// The entry of the settings screen that is selected.
    pub selected_setting: usize,
    /// The outcome of the last change of the settings.
    pub save_message: Option<String>,
    /// The frame of the art's animation.
    pub animation_frame: usize,
    /// The second of the countdown last drawn; `None` forces the next draw.
    pub last_drawn_second: Option<u128>,
}

/// The state as plain values.
pub struct StateView {
    pub phase: Phase,
    pub remaining_ms: u128,
    pub paused: bool,
    pub sessions_completed: u64,
    pub ascii_art: Option<Seq<char>>,
    pub last_size: (u16, u16),
    pub settings_open: bool,
    pub selected_setting: usize,
    pub save_message: Option<Seq<char>>,
    pub animation_frame: usize,
    pub last_drawn_second: Option<u128>,
}

impl View for State {
    type V = StateView;

    open spec fn view(&self) -> StateView {
        StateView {
            phase: self.phase,
            remaining_ms: self.remaining_ms,
            paused: self.paused,
            sessions_completed: self.sessions_completed,
            ascii_art: match self.ascii_art {
                Some(a) => Some(a@),
                None => None,
            },
            last_size: self.last_size,
            settings_open: self.settings_open,
            selected_setting: self.selected_setting,
            save_message: match self.save_message {
                Some(m) => Some(m@),
                None => None,
            },
            animation_frame: self.animation_frame,
            last_drawn_second: self.last_drawn_second,
        }
    }
}

/// What the caller is to do after an event.
#[derive(Copy, Clone, Debug, PartialEq, Eq, Structural)]
pub struct Effects {
    /// Leave the program.
    pub quit: bool,
    /// Draw the screen again.
    pub draw: bool,
    /// Read the art again for the state's phase and frame.
    pub refresh_art: bool,
    /// Save the configuration's preferences, then report the outcome.
    pub save: bool,
    /// The save follows a reset to the defaults.
    pub after_reset: bool,
    /// Play the sound and send the notice once, to test them.
    pub test_alert: bool,
    /// Start the clock of the phase now.
    pub start_clock: bool,
    /// Stop the clock of the phase.
    pub stop_clock: bool,
    /// The animation moved on a frame now.
    pub advanced_frame: bool,
    /// A phase ended: log it and alert the user.
    pub finished: Option<Phase>,
}

/// Nothing to do.
pub open spec fn no_effects() -> Effects {
    Effects {
        quit: false,
        draw: false,
        refresh_art: false,
        save: false,
        after_reset: false,
        test_alert: false,
        start_clock: false,
        stop_clock: false,
        advanced_frame: false,
        finished: None,
    }
}

fn nothing() -> (effects: Effects)
    ensures
        effects == no_effects(),
{
    Effects {
        quit: false,
        draw: false,
        refresh_art: false,
        save: false,
        after_reset: false,
        test_alert: false,
        start_clock: false,
        stop_clock: false,
        advanced_frame: false,
        finished: None,
    }
}

/// A key the timer reacts to.
#[derive(Copy, Clone, Debug, PartialEq, Eq, Structural)]
pub enum Key {
    Char(char),
    Up,
    Down,
    Left,
    Right,
    Enter,
    Esc,
    Other,
}

/// The configured length of a phase in seconds (none for idle).
pub open spec fn phase_seconds(config: Config, phase: Phase) -> u64 {
    match phase {
        Phase::Work => config.work_sec,
        Phase::Short => config.short_sec,
        Phase::Long => config.long_sec,
        Phase::Idle => 0,
    }
}

/// The configured length of a phase in seconds (none for idle).
pub fn seconds_of(config: &Config, phase: Phase) -> (seconds: u64)
    ensures
        seconds == phase_seconds(*config, phase),
{
    match phase {
        Phase::Work => config.work_sec,
        Phase::Short => config.short_sec,
        Phase::Long => config.long_sec,
        Phase::Idle => 0,
    }
}

/// `n` is a multiple of `m`, as `u64::is_multiple_of` decides: only zero is
/// a multiple of zero.
pub open spec fn is_multiple_of(n: u64, m: u64) -> bool {
    if m == 0 {
        n == 0
    } else {
        n % m == 0
    }
}

/// The break that follows the work session that brings the count of ended
/// sessions to `sessions`: a long one every `long_every` sessions.
pub open spec fn break_after(sessions: u64, long_every: u64) -> Phase {
    if is_multiple_of(sessions, long_every) {
        Phase::Long
    } else {
        Phase::Short
    }
}

/// The state a new timer starts in, on a terminal of the given size.
pub open spec fn initial_view(size: (u16, u16)) -> StateView {
    StateView {
        phase: Phase::Idle,
        remaining_ms: 0,
        paused: false,
        sessions_completed: 0,
        ascii_art: None,
        last_size: size,
        settings_open: false,
        selected_setting: 0,
        save_message: None,
        animation_frame: 0,
        last_drawn_second: None,
    }
}

/// The state well formed: the selected setting is one of the entries.
pub open spec fn well_formed(state: StateView) -> bool {
    state.selected_setting < SETTING_COUNT
}

impl State {
    /// A new timer, idle, on a terminal of the given size; its art is still
    /// to be read.
    pub fn new(size: (u16, u16)) -> (state: State)
        ensures
            state@ == initial_view(size),
    {
        State {
            phase: Phase::Idle,
            remaining_ms: 0,
            paused: false,
            sessions_completed: 0,
            ascii_art: None,
            last_size: size,
            settings_open: false,
            selected_setting: 0,
            save_message: None,
            animation_frame: 0,
            last_drawn_second: None,
        }
    }
}

/// The state after a phase begins: its animation starts again at the first
/// frame, and its art is to be read again.
pub open spec fn entered(state: StateView, phase: Phase) -> StateView {
    StateView { phase, animation_frame: 0, ..state }
}

/// Moves the timer to a phase; the caller reads the art again.
pub fn update_phase(state: &mut State, new_phase: Phase)
    ensures
        final(state)@ == entered(old(state)@, new_phase),
{
    state.phase = new_phase;
    state.animation_frame = 0;
}

/// Whole seconds left, rounded up: what the clock shows.
pub open spec fn seconds_left(remaining_ms: u128) -> u128 {
    ((remaining_ms + 999) / 1000) as u128
}

/// Whole seconds left, rounded up.
pub fn ceil_seconds(remaining_ms: u128) -> (seconds: u128)
    ensures
        seconds == seconds_left(remaining_ms),
{
    remaining_ms / 1000 + if remaining_ms % 1000 != 0 {
        1
    } else {
        0
    }
}

/// The state and effects after `elapsed_ms` milliseconds pass.
///
/// Only a running phase (not idle, not paused, settings closed) counts down.
/// When its time is up the phase is logged and alerted; a work session
/// counts as ended and is followed by a break (a long one every
/// `long_every` sessions, timed from now), and a break is followed by idle.
/// Otherwise the screen is drawn when the shown second changes.
pub open spec fn tick_step(state: StateView, config: Config, elapsed_ms: u64) -> (
    StateView,
    Effects,
) {
    if state.paused || state.settings_open || state.phase == Phase::Idle {
        (state, no_effects())
    } else if elapsed_ms >= state.remaining_ms {
        let finished = state.phase;
        if finished == Phase::Work {
            let sessions = (state.sessions_completed + 1) as u64;
            let next = break_after(sessions, config.long_every);
            (
                StateView {
                    sessions_completed: sessions,
                    remaining_ms: (phase_seconds(config, next) * 1000) as u128,
                    last_drawn_second: None,
                    ..entered(state, next)
                },
                Effects {
                    draw: true,
                    refresh_art: true,
                    start_clock: true,
                    finished: Some(finished),
                    ..no_effects()
                },
            )
        } else {
            (
                StateView { remaining_ms: 0, last_drawn_second: None, ..entered(state, Phase::Idle) },
                Effects {
                    draw: true,
                    refresh_art: true,
                    stop_clock: true,
                    finished: Some(finished),
                    ..no_effects()
                },
            )
        }
    } else {
        let remaining = (state.remaining_ms - elapsed_ms) as u128;
        let second = seconds_left(remaining);
        if state.last_drawn_second == Some(second) {
            (StateView { remaining_ms: remaining, ..state }, no_effects())
        } else {
            (
                StateView { remaining_ms: remaining, last_drawn_second: Some(second), ..state },
                Effects { draw: true, ..no_effects() },
            )
        }
    }
}

/// Lets `elapsed_ms` milliseconds pass.
pub fn tick(state: &mut State, config: &Config, elapsed_ms: u64) -> (effects: Effects)
    requires
        old(state).sessions_completed < u64::MAX,
    ensures
        (final(state)@, effects) == tick_step(old(state)@, *config, elapsed_ms),
{
    if state.paused || state.settings_open || state.phase == Phase::Idle {
        return nothing();
    }
    if elapsed_ms as u128 >= state.remaining_ms {
        let finished = state.phase;
        let mut effects = nothing();
        effects.draw = true;
        effects.refresh_art = true;
        effects.finished = Some(finished);
        if finished == Phase::Work {
            state.sessions_completed = state.sessions_completed + 1;
            let long = if config.long_every == 0 {
                state.sessions_completed == 0
            } else {
                state.sessions_completed % config.long_every == 0
            };
            let next = if long {
                Phase::Long
            } else {
                Phase::Short
            };
            update_phase(state, next);
            state.remaining_ms = seconds_of(config, next) as u128 * 1000;
            effects.start_clock = true;
        } else {
            update_phase(state, Phase::Idle);
            state.remaining_ms = 0;
            effects.stop_clock = true;
        }
        state.last_drawn_second = None;
        effects
    } else {
        state.remaining_ms = state.remaining_ms - elapsed_ms as u128;
        let second = ceil_seconds(state.remaining_ms);
        if state.last_drawn_second == Some(second) {
            nothing()
        } else {
            state.last_drawn_second = Some(second);
            let mut effects = nothing();
            effects.draw = true;
            effects
        }
    }
}


/// `value` moved one `step` in the direction of `delta`, kept within
/// `minimum` and `maximum`: lowering saturates at zero and stops at the
/// minimum, raising saturates at the largest `u64` and stops at the maximum.
pub open spec fn adjusted(value: u64, minimum: u64, maximum: u64, step: u64, delta: i32) -> u64 {
    if delta < 0 {
        let lowered = if value >= step {
            (value - step) as u64
        } else {
            0
        };
        if lowered < minimum {
            minimum
        } else {
            lowered
        }
    } else {
        let raised = if value + step > u64::MAX {
            u64::MAX
        } else {
            (value + step) as u64
        };
        if raised > maximum {
            maximum
        } else {
            raised
        }
    }
}

fn adjust(value: u64, minimum: u64, maximum: u64, step: u64, delta: i32) -> (result: u64)
    ensures
        result == adjusted(value, minimum, maximum, step, delta),
{
    if delta < 0 {
        let lowered = value.saturating_sub(step);
        if lowered < minimum {
            minimum
        } else {
            lowered
        }
    } else {
        let raised = value.saturating_add(step);
        if raised > maximum {
            maximum
        } else {
            raised
        }
    }
}

/// The configuration after the selected setting is moved by `delta`:
/// durations by a minute (work within 1 to 240 minutes, short breaks 1 to
/// 120, long breaks 1 to 180), the long-break cycle by a session (1 to 20),
/// the styles through their lists, and animation switched on or off.
pub open spec fn changed_config(config: Config, selected: usize, delta: i32) -> Config {
    if selected == 0 {
        Config { work_sec: (adjusted(config.work_sec / 60, 1, 240, 1, delta) * 60) as u64, ..config }
    } else if selected == 1 {
        Config {
            short_sec: (adjusted(config.short_sec / 60, 1, 120, 1, delta) * 60) as u64,
            ..config
        }
    } else if selected == 2 {
        Config { long_sec: (adjusted(config.long_sec / 60, 1, 180, 1, delta) * 60) as u64, ..config }
    } else if selected == 3 {
        Config { long_every: adjusted(config.long_every, 1, 20, 1, delta), ..config }
    } else if selected == 4 {
        Config { art_style: cycled(ART_STYLES@, config.art_style, delta as int), ..config }
    } else if selected == 5 {
        Config { animations_enabled: !config.animations_enabled, ..config }
    } else if selected == 6 {
        Config { clock_style: cycled(CLOCK_STYLES@, config.clock_style, delta as int), ..config }
    } else if selected == 7 {
        Config {
            notifications: cycled(NOTIFICATION_STYLES@, config.notifications, delta as int),
            ..config
        }
    } else if selected == 8 {
        Config { sound: cycled(SOUND_STYLES@, config.sound, delta as int), ..config }
    } else {
        config
    }
}

/// The state, configuration and effects after the selected setting is moved
/// by `delta`: the configuration is saved, and a change of the art restarts
/// its animation.
pub open spec fn setting_step(state: StateView, config: Config, delta: i32) -> (
    StateView,
    Config,
    Effects,
) {
    let art_changed = state.selected_setting == 4 || state.selected_setting == 5;
    (
        if art_changed {
            StateView { animation_frame: 0, ..state }
        } else {
            state
        },
        changed_config(config, state.selected_setting, delta),
        Effects { save: true, refresh_art: art_changed, ..no_effects() },
    )
}

proof fn lemma_whole_minutes(seconds: u64)
    ensures
        (seconds / 60) * 60 <= seconds,
        (seconds / 60) * 60 <= u64::MAX,
{
    assert((seconds / 60) * 60 <= seconds) by (nonlinear_arith);
}

/// Moves the selected setting by `delta`.
pub fn change_setting(state: &mut State, config: &mut Config, delta: i32) -> (effects: Effects)
    requires
        old(state).selected_setting == 4 ==> crate::settings::art_style_index(old(config).art_style)
            + delta <= i32::MAX,
        old(state).selected_setting == 6 ==> crate::settings::clock_style_index(
            old(config).clock_style,
        ) + delta <= i32::MAX,
        old(state).selected_setting == 7 ==> crate::settings::notification_style_index(
            old(config).notifications,
        ) + delta <= i32::MAX,
        old(state).selected_setting == 8 ==> crate::settings::sound_style_index(old(config).sound)
            + delta <= i32::MAX,
    ensures
        (final(state)@, *final(config), effects) == setting_step(old(state)@, *old(config), delta),
{
    proof {
        lemma_whole_minutes(config.work_sec);
        lemma_whole_minutes(config.short_sec);
        lemma_whole_minutes(config.long_sec);
        crate::settings::lemma_art_styles_listed();
        crate::settings::lemma_clock_styles_listed();
        crate::settings::lemma_notification_styles_listed();
        crate::settings::lemma_sound_styles_listed();
    }
    let selected = state.selected_setting;
    let mut effects = nothing();
    effects.save = true;
    if selected == 0 {
        config.work_sec = adjust(config.work_sec / 60, 1, 240, 1, delta) * 60;
    } else if selected == 1 {
        config.short_sec = adjust(config.short_sec / 60, 1, 120, 1, delta) * 60;
    } else if selected == 2 {
        config.long_sec = adjust(config.long_sec / 60, 1, 180, 1, delta) * 60;
    } else if selected == 3 {
        config.long_every = adjust(config.long_every, 1, 20, 1, delta);
    } else if selected == 4 {
        config.art_style = config.art_style.cycle(delta);
        state.animation_frame = 0;
        effects.refresh_art = true;
    } else if selected == 5 {
        config.animations_enabled = !config.animations_enabled;
        state.animation_frame = 0;
        effects.refresh_art = true;
    } else if selected == 6 {
        config.clock_style = config.clock_style.cycle(delta);
    } else if selected == 7 {
        config.notifications = config.notifications.cycle(delta);
    } else if selected == 8 {
        config.sound = config.sound.cycle(delta);
    }
    effects
}

/// The configuration with every preference back at its default.
pub open spec fn default_config(config: Config) -> Config {
    Config {
        work_sec: 1500,
        short_sec: 300,
        long_sec: 900,
        long_every: 4,
        art_style: ArtStyle::Custom,
        animations_enabled: true,
        clock_style: crate::settings::ClockStyle::Digital,
        notifications: crate::settings::NotificationStyle::Urgent,
        sound: crate::settings::SoundStyle::Bell,
        ..config
    }
}

/// The state, configuration and effects after the settings are reset:
/// every preference back at its default, the animation restarted, and the
/// configuration saved.
pub open spec fn reset_step(state: StateView, config: Config) -> (StateView, Config, Effects) {
    (
        StateView { animation_frame: 0, ..state },
        default_config(config),
        Effects { save: true, after_reset: true, refresh_art: true, ..no_effects() },
    )
}

/// Puts every preference back at its default.
pub fn reset_settings(state: &mut State, config: &mut Config) -> (effects: Effects)
    ensures
        (final(state)@, *final(config), effects) == reset_step(old(state)@, *old(config)),
{
    let defaults = crate::settings::Preferences::default();
    config.work_sec = defaults.work_min * 60;
    config.short_sec = defaults.short_min * 60;
    config.long_sec = defaults.long_min * 60;
    config.long_every = defaults.long_every;
    config.art_style = defaults.art_style;
    config.animations_enabled = defaults.animations_enabled;
    config.clock_style = defaults.clock_style;
    config.notifications = defaults.notifications;
    config.sound = defaults.sound;
    state.animation_frame = 0;
    let mut effects = nothing();
    effects.save = true;
    effects.after_reset = true;
    effects.refresh_art = true;
    effects
}

/// The message shown after the settings were saved, or failed to be.
pub open spec fn save_report(error: Option<Seq<char>>, after_reset: bool) -> Seq<char> {
    match error {
        Some(e) => "save failed: "@ + e,
        None => if after_reset {
            "defaults restored and saved"@
        } else {
            "saved"@
        },
    }
}

/// Shows how saving the settings went: `error` describes a failure.
pub fn record_save(state: &mut State, error: Option<&str>, after_reset: bool)
    ensures
        final(state)@ == (StateView {
            save_message: Some(
                save_report(
                    match error {
                        Some(e) => Some(e@),
                        None => None,
                    },
                    after_reset,
                ),
            ),
            ..old(state)@
        }),
{
    let message = match error {
        Some(e) => {
            let mut text = chars_of("save failed: ");
            crate::text::append_str(&mut text, e);
            string_of(&text)
        },
        None => if after_reset {
            String::from_str("defaults restored and saved")
        } else {
            String::from_str("saved")
        },
    };
    state.save_message = Some(message);
}

/// The state, configuration and effects after a key press (`ctrl` when the
/// control key is held).
///
/// Control-C quits. With the settings open, up and down move the selection
/// (wrapping around), left and right change the selected setting, `r`
/// resets them, `t` tests the alerts, enter, escape or `e` close the
/// settings and `q` quits; every other key only redraws. Otherwise `q` or
/// escape quits, `e` opens the settings, `s` starts a work session unless one
/// is running, and `p` pauses or resumes a phase that is not idle.
pub open spec fn key_step(state: StateView, config: Config, key: Key, ctrl: bool) -> (
    StateView,
    Config,
    Effects,
) {
    let redraw = Effects { draw: true, ..no_effects() };
    if ctrl && key == Key::Char('c') {
        (state, config, Effects { quit: true, ..no_effects() })
    } else if state.settings_open {
        match key {
            Key::Up => (
                StateView {
                    selected_setting: if state.selected_setting == 0 {
                        (SETTING_COUNT - 1) as usize
                    } else {
                        (state.selected_setting - 1) as usize
                    },
                    ..state
                },
                config,
                redraw,
            ),
            Key::Down => (
                StateView {
                    selected_setting: ((state.selected_setting + 1) % SETTING_COUNT as int) as usize,
                    ..state
                },
                config,
                redraw,
            ),
            Key::Left => {
                let (s, c, e) = setting_step(state, config, -1i32);
                (s, c, Effects { draw: true, ..e })
            },
            Key::Right => {
                let (s, c, e) = setting_step(state, config, 1i32);
                (s, c, Effects { draw: true, ..e })
            },
            Key::Char('r') => {
                let (s, c, e) = reset_step(state, config);
                (s, c, Effects { draw: true, ..e })
            },
            Key::Char('t') => (
                StateView { save_message: Some("test alert sent"@), ..state },
                config,
                Effects { test_alert: true, draw: true, ..no_effects() },
            ),
            Key::Enter | Key::Esc | Key::Char('e') => (
                StateView { settings_open: false, ..state },
                config,
                redraw,
            ),
            Key::Char('q') => (state, config, Effects { quit: true, ..no_effects() }),
            _ => (state, config, redraw),
        }
    } else {
        match key {
            Key::Char('q') | Key::Esc => (state, config, Effects { quit: true, ..no_effects() }),
            Key::Char('e') => (
                StateView { settings_open: true, save_message: None, ..state },
                config,
                redraw,
            ),
            Key::Char('s') => if state.phase != Phase::Work {
                (
                    StateView {
                        remaining_ms: (config.work_sec * 1000) as u128,
                        paused: false,
                        ..entered(state, Phase::Work)
                    },
                    config,
                    Effects { draw: true, refresh_art: true, start_clock: true, ..no_effects() },
                )
            } else {
                (state, config, no_effects())
            },
            Key::Char('p') => if state.phase != Phase::Idle {
                (StateView { paused: !state.paused, ..state }, config, redraw)
            } else {
                (state, config, no_effects())
            },
            _ => (state, config, no_effects()),
        }
    }
}

/// Reacts to a key press.
pub fn handle_key(state: &mut State, config: &mut Config, key: Key, ctrl: bool) -> (effects:
    Effects)
    requires
        well_formed(old(state)@),
    ensures
        (final(state)@, *final(config), effects) == key_step(old(state)@, *old(config), key, ctrl),
        well_formed(final(state)@),
{
    if ctrl && key == Key::Char('c') {
        let mut effects = nothing();
        effects.quit = true;
        return effects;
    }
    if state.settings_open {
        let mut effects = match key {
            Key::Up => {
                state.selected_setting = if state.selected_setting == 0 {
                    SETTING_COUNT - 1
                } else {
                    state.selected_setting - 1
                };
                nothing()
            },
            Key::Down => {
                state.selected_setting = (state.selected_setting + 1) % SETTING_COUNT;
                nothing()
            },
            Key::Left => change_setting(state, config, -1),
            Key::Right => change_setting(state, config, 1),
            Key::Char('r') => reset_settings(state, config),
            Key::Char('t') => {
                state.save_message = Some(String::from_str("test alert sent"));
                let mut effects = nothing();
                effects.test_alert = true;
                effects
            },
            Key::Enter | Key::Esc | Key::Char('e') => {
                state.settings_open = false;
                nothing()
            },
            Key::Char('q') => {
                let mut effects = nothing();
                effects.quit = true;
                return effects;
            },
            _ => nothing(),
        };
        effects.draw = true;
        return effects;
    }
    match key {
        Key::Char('q') | Key::Esc => {
            let mut effects = nothing();
            effects.quit = true;
            effects
        },
        Key::Char('e') => {
            state.settings_open = true;
            state.save_message = None;
            let mut effects = nothing();
            effects.draw = true;
            effects
        },
        Key::Char('s') => if state.phase != Phase::Work {
            update_phase(state, Phase::Work);
            state.remaining_ms = config.work_sec as u128 * 1000;
            state.paused = false;
            let mut effects = nothing();
            effects.draw = true;
            effects.refresh_art = true;
            effects.start_clock = true;
            effects
        } else {
            nothing()
        },
        Key::Char('p') => if state.phase != Phase::Idle {
            state.paused = !state.paused;
            let mut effects = nothing();
            effects.draw = true;
            effects
        } else {
            nothing()
        },
        _ => nothing(),
    }
}

/// The state and effects when `since_ms` milliseconds have passed since the
/// art last moved: animated art whose interval is up moves on a frame (the
/// frame count wrapping around), to be read again and drawn unless the
/// screen was drawn already.
pub open spec fn animate_step(state: StateView, config: Config, since_ms: u64, drew: bool) -> (
    StateView,
    Effects,
) {
    match crate::settings::art_frame_interval(config.art_style) {
        Some(interval) => if !state.settings_open && config.animations_enabled && since_ms
            >= interval {
            (
                StateView {
                    animation_frame: if state.animation_frame == usize::MAX {
                        0
                    } else {
                        (state.animation_frame + 1) as usize
                    },
                    ..state
                },
                Effects { refresh_art: true, advanced_frame: true, draw: !drew, ..no_effects() },
            )
        } else {
            (state, no_effects())
        },
        None => (state, no_effects()),
    }
}

/// Moves animated art on a frame when its interval is up.
pub fn animate(state: &mut State, config: &Config, since_ms: u64, drew: bool) -> (effects:
    Effects)
    ensures
        (final(state)@, effects) == animate_step(old(state)@, *config, since_ms, drew),
{
    if state.settings_open || !config.animations_enabled {
        return nothing();
    }
    match config.art_style.frame_interval() {
        Some(interval) => if since_ms >= interval {
            state.animation_frame = state.animation_frame.wrapping_add(1);
            let mut effects = nothing();
            effects.refresh_art = true;
            effects.advanced_frame = true;
            effects.draw = !drew;
            effects
        } else {
            nothing()
        },
        None => nothing(),
    }
}

/// Reads the art again for the state's phase and frame; `custom` is what the
/// phase's custom art file holds, if it was read.
pub fn refresh_art(state: &mut State, config: &Config, default_art: &str, custom: Option<&str>)
    requires
        frame_in_range(config.art_style, old(state).animation_frame as int),
    ensures
        final(state)@ == (StateView {
            ascii_art: art_for(
                *config,
                old(state).animation_frame as int,
                default_art@,
                match custom {
                    Some(c) => Some(c@),
                    None => None,
                },
            ),
            ..old(state)@
        }),
{
    let art = read_ascii_for_phase(state.phase, config, state.animation_frame, default_art, custom);
    state.ascii_art = art;
}


/// Pressing `p` twice in a running or paused phase, with the settings
/// closed, first flips the pause and then leaves the timer exactly as it
/// was.
pub proof fn lemma_pause_twice_resumes(state: StateView, config: Config)
    requires
        state.phase != Phase::Idle,
        !state.settings_open,
    ensures
        key_step(state, config, Key::Char('p'), false).0.paused == !state.paused,
        key_step(
            key_step(state, config, Key::Char('p'), false).0,
            key_step(state, config, Key::Char('p'), false).1,
            Key::Char('p'),
            false,
        ).0 == state,
        key_step(
            key_step(state, config, Key::Char('p'), false).0,
            key_step(state, config, Key::Char('p'), false).1,
            Key::Char('p'),
            false,
        ).1 == config,
{
}

/// A timer that is idle, paused or showing its settings stands still: time
/// passing changes nothing and asks for nothing.
pub proof fn lemma_stopped_timer_stands_still(state: StateView, config: Config, elapsed_ms: u64)
    requires
        state.paused || state.settings_open || state.phase == Phase::Idle,
    ensures
        tick_step(state, config, elapsed_ms) == (state, no_effects()),
{
}

/// While a running phase has time left, the countdown takes off exactly the
/// time that passed: two ticks leave what one tick of their sum leaves, in
/// the same phase.
pub proof fn lemma_countdown_adds_up(state: StateView, config: Config, first: u64, second: u64)
    requires
        !state.paused,
        !state.settings_open,
        state.phase != Phase::Idle,
        first + second < state.remaining_ms,
        first + second <= u64::MAX,
    ensures
        tick_step(state, config, first).0.remaining_ms == state.remaining_ms - first,
        tick_step(tick_step(state, config, first).0, config, second).0.remaining_ms
            == tick_step(state, config, (first + second) as u64).0.remaining_ms,
        tick_step(tick_step(state, config, first).0, config, second).0.phase == state.phase,
        tick_step(tick_step(state, config, first).0, config, second).1.finished is None,
{
}

/// When a work session's time is up it counts as ended and a break starts
/// at once with its full length: a long one when the count of ended
/// sessions is a multiple of `long_every`, a short one otherwise.
pub proof fn lemma_work_ends_in_break(state: StateView, config: Config, elapsed_ms: u64)
    requires
        state.phase == Phase::Work,
        !state.paused,
        !state.settings_open,
        elapsed_ms >= state.remaining_ms,
        state.sessions_completed < u64::MAX,
        config.long_every >= 1,
    ensures
        ({
            let (next, effects) = tick_step(state, config, elapsed_ms);
            let ended = state.sessions_completed + 1;
            &&& next.sessions_completed == ended
            &&& next.phase == if ended % (config.long_every as int) == 0 {
                Phase::Long
            } else {
                Phase::Short
            }
            &&& next.remaining_ms == phase_seconds(config, next.phase) * 1000
            &&& next.remaining_ms == if ended % (config.long_every as int) == 0 {
                config.long_sec * 1000
            } else {
                config.short_sec * 1000
            }
            &&& !next.paused
            &&& effects.finished == Some(Phase::Work)
            &&& effects.start_clock
        }),
{
}

/// When a break's time is up the timer goes back to idle and its clock
/// stops; the count of sessions stays.
pub proof fn lemma_break_ends_in_idle(state: StateView, config: Config, elapsed_ms: u64)
    requires
        state.phase == Phase::Short || state.phase == Phase::Long,
        !state.paused,
        !state.settings_open,
        elapsed_ms >= state.remaining_ms,
    ensures
        ({
            let (next, effects) = tick_step(state, config, elapsed_ms);
            &&& next.phase == Phase::Idle
            &&& next.remaining_ms == 0
            &&& next.sessions_completed == state.sessions_completed
            &&& effects.finished == Some(state.phase)
            &&& effects.stop_clock
        }),
{
}

/// In the settings, moving the selection up and then down, or down and then
/// up, comes back to the same entry.
pub proof fn lemma_selection_moves_back(state: StateView, config: Config)
    requires
        state.settings_open,
        well_formed(state),
    ensures
        key_step(key_step(state, config, Key::Up, false).0, config, Key::Down, false).0 == state,
        key_step(key_step(state, config, Key::Down, false).0, config, Key::Up, false).0 == state,
{
}

/// A moved value stays within its bounds, unless it was lowered from more
/// than a step above the maximum (lowering never clamps to the maximum) or
/// raised from more than a step below the minimum.
pub proof fn lemma_adjusted_within_bounds(
    value: u64,
    minimum: u64,
    maximum: u64,
    step: u64,
    delta: i32,
)
    requires
        minimum <= maximum,
        delta < 0 ==> value <= maximum + step,
        delta >= 0 ==> value + step >= minimum,
    ensures
        minimum <= adjusted(value, minimum, maximum, step, delta) <= maximum,
{
}

/// Changing a setting keeps every duration a whole number of minutes within
/// its bounds (work 1 to 240, short breaks 1 to 120, long breaks 1 to 180)
/// and the long-break cycle within 1 to 20 sessions, for the setting that
/// changed; a value set above its bound from the command line comes down a
/// step at a time, so lowering it from more than a step above stays above.
pub proof fn lemma_changed_setting_within_bounds(config: Config, selected: usize, delta: i32)
    requires
        selected == 0 && delta < 0 ==> config.work_sec / 60 <= 241,
        selected == 1 && delta < 0 ==> config.short_sec / 60 <= 121,
        selected == 2 && delta < 0 ==> config.long_sec / 60 <= 181,
        selected == 3 && delta < 0 ==> config.long_every <= 21,
    ensures
        selected == 0 ==> ({
            let minutes = changed_config(config, selected, delta).work_sec / 60;
            &&& 1 <= minutes <= 240
            &&& changed_config(config, selected, delta).work_sec == minutes * 60
        }),
        selected == 1 ==> ({
            let minutes = changed_config(config, selected, delta).short_sec / 60;
            &&& 1 <= minutes <= 120
            &&& changed_config(config, selected, delta).short_sec == minutes * 60
        }),
        selected == 2 ==> ({
            let minutes = changed_config(config, selected, delta).long_sec / 60;
            &&& 1 <= minutes <= 180
            &&& changed_config(config, selected, delta).long_sec == minutes * 60
        }),
        selected == 3 ==> 1 <= changed_config(config, selected, delta).long_every <= 20,
{
    if selected == 0 {
        let m = adjusted(config.work_sec / 60, 1, 240, 1, delta);
        lemma_adjusted_within_bounds(config.work_sec / 60, 1, 240, 1, delta);
        assert((m * 60) / 60 == m) by (nonlinear_arith);
    } else if selected == 1 {
        let m = adjusted(config.short_sec / 60, 1, 120, 1, delta);
        lemma_adjusted_within_bounds(config.short_sec / 60, 1, 120, 1, delta);
        assert((m * 60) / 60 == m) by (nonlinear_arith);
    } else if selected == 2 {
        let m = adjusted(config.long_sec / 60, 1, 180, 1, delta);
        lemma_adjusted_within_bounds(config.long_sec / 60, 1, 180, 1, delta);
        assert((m * 60) / 60 == m) by (nonlinear_arith);
    } else if selected == 3 {
        lemma_adjusted_within_bounds(config.long_every, 1, 20, 1, delta);
    }
}

/// One step down and one step up, or up and down, leave a value that is
/// not at the bound it moves towards first where it was.
pub proof fn lemma_adjusted_back(value: u64, minimum: u64, maximum: u64)
    requires
        minimum <= value <= maximum,
    ensures
        minimum < value ==> adjusted(adjusted(value, minimum, maximum, 1, -1i32), minimum, maximum, 1, 1i32)
            == value,
        value < maximum ==> adjusted(adjusted(value, minimum, maximum, 1, 1i32), minimum, maximum, 1, -1i32)
            == value,
{
}

/// Moving a setting one step and then one step back restores the
/// configuration, when the setting is not at the bound it first moves
/// towards (a duration of whole minutes, or the long-break cycle); the art,
/// the clock, the notices and the sound always come back, and animation is
/// switched back.
pub proof fn lemma_setting_change_undone(state: StateView, config: Config, delta: i32)
    requires
        delta == 1 || delta == -1,
        well_formed(state),
        state.selected_setting == 0 ==> config.work_sec % 60 == 0 && 1 <= config.work_sec / 60
            <= 240 && (delta < 0 ==> config.work_sec / 60 > 1) && (delta > 0 ==> config.work_sec
            / 60 < 240),
        state.selected_setting == 1 ==> config.short_sec % 60 == 0 && 1 <= config.short_sec / 60
            <= 120 && (delta < 0 ==> config.short_sec / 60 > 1) && (delta > 0
            ==> config.short_sec / 60 < 120),
        state.selected_setting == 2 ==> config.long_sec % 60 == 0 && 1 <= config.long_sec / 60
            <= 180 && (delta < 0 ==> config.long_sec / 60 > 1) && (delta > 0 ==> config.long_sec
            / 60 < 180),
        state.selected_setting == 3 ==> 1 <= config.long_every <= 20 && (delta < 0
            ==> config.long_every > 1) && (delta > 0 ==> config.long_every < 20),
    ensures
        ({
            let (s1, c1, _) = setting_step(state, config, delta);
            let (s2, c2, _) = setting_step(s1, c1, (-delta) as i32);
            c2 == config
        }),
{
    crate::settings::lemma_styles_cycle_back(
        config.art_style,
        config.clock_style,
        config.notifications,
        config.sound,
        delta as int,
    );
    if state.selected_setting == 0 {
        lemma_adjusted_back(config.work_sec / 60, 1, 240);
        let m = adjusted(config.work_sec / 60, 1, 240, 1, delta);
        assert((m * 60) / 60 == m) by (nonlinear_arith);
        assert(config.work_sec == (config.work_sec / 60) * 60) by (nonlinear_arith)
            requires
                config.work_sec % 60 == 0,
        ;
    } else if state.selected_setting == 1 {
        lemma_adjusted_back(config.short_sec / 60, 1, 120);
        let m = adjusted(config.short_sec / 60, 1, 120, 1, delta);
        assert((m * 60) / 60 == m) by (nonlinear_arith);
        assert(config.short_sec == (config.short_sec / 60) * 60) by (nonlinear_arith)
            requires
                config.short_sec % 60 == 0,
        ;
    } else if state.selected_setting == 2 {
        lemma_adjusted_back(config.long_sec / 60, 1, 180);
        let m = adjusted(config.long_sec / 60, 1, 180, 1, delta);
        assert((m * 60) / 60 == m) by (nonlinear_arith);
        assert(config.long_sec == (config.long_sec / 60) * 60) by (nonlinear_arith)
            requires
                config.long_sec % 60 == 0,
        ;
    } else if state.selected_setting == 3 {
        lemma_adjusted_back(config.long_every, 1, 20);
    }
}

/// Resetting the settings a second time changes nothing more.
pub proof fn lemma_reset_is_idempotent(state: StateView, config: Config)
    ensures
        reset_step(reset_step(state, config).0, reset_step(state, config).1).0 == reset_step(
            state,
            config,
        ).0,
        reset_step(reset_step(state, config).0, reset_step(state, config).1).1 == reset_step(
            state,
            config,
        ).1,
{
}


/// Pressing `s` outside a work session, with the settings closed, starts a
/// full work session at once, running; during a work session it does
/// nothing.
pub proof fn lemma_start_begins_full_session(state: StateView, config: Config)
    requires
        !state.settings_open,
    ensures
        ({
            let (next, same_config, effects) = key_step(state, config, Key::Char('s'), false);
            &&& same_config == config
            &&& state.phase != Phase::Work ==> {
                &&& next.phase == Phase::Work
                &&& next.remaining_ms == config.work_sec * 1000
                &&& !next.paused
                &&& next.sessions_completed == state.sessions_completed
                &&& effects.start_clock
            }
            &&& state.phase == Phase::Work ==> next == state && effects == no_effects()
        }),
{
}

/// `q` and escape quit from the main screen, `q` and control-C from
/// anywhere, leaving the timer as it was.
pub proof fn lemma_quit_keys(state: StateView, config: Config, key: Key, ctrl: bool)
    requires
        (ctrl && key == Key::Char('c')) || key == Key::Char('q') || (key == Key::Esc
            && !state.settings_open),
    ensures
        key_step(state, config, key, ctrl).2.quit,
        key_step(state, config, key, ctrl).0 == state,
        key_step(state, config, key, ctrl).1 == config,
{
}

/// Custom art whose file could not be read falls back to the bundled art,
/// its trailing newlines trimmed.
pub proof fn lemma_missing_art_falls_back(config: Config, frame: int, default_art: Seq<char>)
    requires
        config.art_style == ArtStyle::Custom,
        config.ascii_config.enabled,
    ensures
        art_for(config, frame, default_art, None) == Some(trim_newlines(default_art)),
{
}


/// With the settings open, `r` puts every preference back at its default
/// (25-minute work, 5-minute short and 15-minute long breaks, a long break
/// every 4 sessions, custom art, animated, a digital clock, urgent notices
/// and the bell), keeps the custom art files, restarts the art's animation,
/// and asks for the settings to be saved, the art read again and the screen
/// drawn.
pub proof fn lemma_reset_key(state: StateView, config: Config)
    requires
        state.settings_open,
    ensures
        ({
            let (next, c, e) = key_step(state, config, Key::Char('r'), false);
            &&& c.work_sec == 1500
            &&& c.short_sec == 300
            &&& c.long_sec == 900
            &&& c.long_every == 4
            &&& c.art_style == ArtStyle::Custom
            &&& c.animations_enabled
            &&& c.clock_style == crate::settings::ClockStyle::Digital
            &&& c.notifications == crate::settings::NotificationStyle::Urgent
            &&& c.sound == crate::settings::SoundStyle::Bell
            &&& c.ascii_config == config.ascii_config
            &&& next == StateView { animation_frame: 0, ..state }
            &&& e.save && e.after_reset && e.refresh_art && e.draw
            &&& !e.quit && !e.test_alert && !e.start_clock && !e.stop_clock
            &&& e.finished is None
        }),
{
}


/// The configured length of each phase: a work session's, a short break's
/// and a long break's own, and none for idle.
pub proof fn lemma_phase_lengths(config: Config)
    ensures
        phase_seconds(config, Phase::Work) == config.work_sec,
        phase_seconds(config, Phase::Short) == config.short_sec,
        phase_seconds(config, Phase::Long) == config.long_sec,
        phase_seconds(config, Phase::Idle) == 0,
{
}

/// The whole seconds shown are the time left rounded up: enough seconds to
/// cover it, and one fewer would not.
pub proof fn lemma_seconds_round_up(remaining_ms: u128)
    ensures
        seconds_left(remaining_ms) * 1000 >= remaining_ms,
        remaining_ms > 0 ==> (seconds_left(remaining_ms) - 1) * 1000 < remaining_ms,
        remaining_ms == 0 ==> seconds_left(remaining_ms) == 0,
{
}


/// In the settings, down selects the next entry and up the one before,
/// wrapping around the nine; `t` asks for a test of the alerts and says so;
/// enter, escape and `e` close the settings. On the main screen `e` opens
/// them with no message shown.
pub proof fn lemma_settings_keys(state: StateView, config: Config)
    requires
        well_formed(state),
    ensures
        state.settings_open ==> key_step(state, config, Key::Down, false).0.selected_setting == (
        state.selected_setting + 1) % 9,
        state.settings_open ==> key_step(state, config, Key::Up, false).0.selected_setting == (
        state.selected_setting + 8) % 9,
        state.settings_open ==> key_step(state, config, Key::Char('t'), false).2.test_alert
            && key_step(state, config, Key::Char('t'), false).0.save_message == Some(
            "test alert sent"@,
        ) && key_step(state, config, Key::Char('t'), false).1 == config,
        state.settings_open ==> !key_step(state, config, Key::Enter, false).0.settings_open
            && !key_step(state, config, Key::Esc, false).0.settings_open && !key_step(
            state,
            config,
            Key::Char('e'),
            false,
        ).0.settings_open,
        !state.settings_open ==> key_step(state, config, Key::Char('e'), false).0.settings_open
            && key_step(state, config, Key::Char('e'), false).0.save_message is None,
{
}

} // verus!

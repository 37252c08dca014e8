//! What the session log records and what the user is alerted with.

use vstd::prelude::*;

use crate::settings::{phase_log_label, Config, NotificationStyle, Phase, SoundStyle};
use crate::text::{append_chars, append_str, chars_of, decimal, decimal_digits, string_of};
use crate::timer::{phase_seconds, seconds_of};

verus! {

/// The first line of the session log.
pub const LOG_HEADER: &'static str = "timestamp,phase,duration_sec,notes";

/// How long a phase is logged as lasting: the time it ran, but no more than
/// its configured length (a phase without one is logged as it ran).
pub open spec fn logged_seconds(configured: u64, elapsed: u64) -> u64 {
    if configured == 0 || elapsed <= configured {
        elapsed
    } else {
        configured
    }
}

/// The log line of an ended phase: when, which phase, for how long, and
/// that it completed, separated by commas.
pub open spec fn log_line(timestamp: Seq<char>, phase: Phase, configured: u64, elapsed: u64) -> Seq<
    char,
> {
    timestamp + ","@ + phase_log_label(phase) + ","@ + decimal_digits(
        logged_seconds(configured, elapsed) as nat,
    ) + ",completed"@
}

/// A logged phase never lasts longer than its configured length, when it has
/// one, and otherwise lasts as long as it ran; a phase that ended early is
/// logged with the time it ran.
pub proof fn lemma_logged_within_configured(configured: u64, elapsed: u64)
    ensures
        configured > 0 ==> logged_seconds(configured, elapsed) <= configured,
        logged_seconds(configured, elapsed) <= elapsed,
        configured == 0 || elapsed <= configured ==> logged_seconds(configured, elapsed)
            == elapsed,
{
}

/// The log line's fields, comma separated: the timestamp, the phase's name
/// in the log (`WORK`, `PAUSE` for a short break, `LONG PAUSE` for a long
/// one, `IDLE`), the seconds it lasted (capped at its configured length,
/// when it has one), and `completed`.
pub proof fn lemma_log_line_fields(timestamp: Seq<char>, phase: Phase, configured: u64, elapsed: u64)
    ensures
        log_line(timestamp, phase, configured, elapsed) == timestamp + ","@ + match phase {
            Phase::Work => "WORK"@,
            Phase::Short => "PAUSE"@,
            Phase::Long => "LONG PAUSE"@,
            Phase::Idle => "IDLE"@,
        } + ","@ + decimal_digits(
            (if configured > 0 && elapsed > configured {
                configured
            } else {
                elapsed
            }) as nat,
        ) + ",completed"@,
{
}

/// The log line of a phase that ran `elapsed` seconds of its `configured`.
pub fn log_entry(timestamp: &str, phase: Phase, configured: u64, elapsed: u64) -> (line: String)
    ensures
        line@ == log_line(timestamp@, phase, configured, elapsed),
{
    let duration = if configured == 0 || elapsed <= configured {
        elapsed
    } else {
        configured
    };
    let mut text = chars_of(timestamp);
    append_str(&mut text, ",");
    append_str(&mut text, phase.log_label());
    append_str(&mut text, ",");
    let digits = decimal(duration as u128);
    append_chars(&mut text, &digits);
    append_str(&mut text, ",completed");
    string_of(&text)
}

/// The phase to log when the program ends during it, with its configured
/// length: only a running phase is logged.
pub fn closing_log(state: &crate::timer::State, config: &Config) -> (log: Option<(Phase, u64)>)
    ensures
        log == if state@.phase == Phase::Idle {
            None
        } else {
            Some((state@.phase, phase_seconds(*config, state@.phase)))
        },
{
    if state.phase == Phase::Idle {
        None
    } else {
        Some((state.phase, seconds_of(config, state.phase)))
    }
}

/// A desktop notice to send.
pub struct Notice {
    /// How urgent the notice is, as the notifier names it.
    pub urgency: &'static str,
    pub message: String,
}

/// What to do to alert the user.
pub struct Alert {
    /// The sound to play.
    pub sound: SoundStyle,
    /// The desktop notice to send, if notices are on.
    pub notice: Option<Notice>,
}

/// The urgency a notice is sent with: `critical` for urgent notices,
/// `normal` otherwise.
pub open spec fn urgency_of(style: NotificationStyle) -> Seq<char> {
    if style == NotificationStyle::Urgent {
        "critical"@
    } else {
        "normal"@
    }
}

/// The notice for a message, if the style sends one.
pub fn notice_for(style: NotificationStyle, message: String) -> (notice: Option<Notice>)
    ensures
        style == NotificationStyle::Off ==> notice is None,
        style != NotificationStyle::Off ==> (notice matches Some(n) && n.urgency@ == urgency_of(
            style,
        ) && n.message == message),
{
    if style == NotificationStyle::Off {
        return None;
    }
    let urgency = if style == NotificationStyle::Urgent {
        "critical"
    } else {
        "normal"
    };
    Some(Notice { urgency, message })
}

/// The message that announces the end of a phase.
pub open spec fn ended_message(phase: Phase) -> Seq<char> {
    "\n\n\n  =============== "@ + phase_log_label(phase) + " ENDED ===============  \n\n\n"@
}

/// How to alert the user that a phase ended: the configured sound, and a
/// notice naming the phase if notices are on.
pub fn alert_user(phase: Phase, config: &Config) -> (alert: Alert)
    ensures
        alert.sound == config.sound,
        config.notifications == NotificationStyle::Off ==> alert.notice is None,
        config.notifications != NotificationStyle::Off ==> (alert.notice matches Some(n)
            && n.urgency@ == urgency_of(config.notifications) && n.message@ == ended_message(phase)),
{
    let mut text = chars_of("\n\n\n  =============== ");
    append_str(&mut text, phase.log_label());
    append_str(&mut text, " ENDED ===============  \n\n\n");
    let message = string_of(&text);
    Alert { sound: config.sound, notice: notice_for(config.notifications, message) }
}

/// How to test the alerts: the configured sound, and a notice saying they
/// are ready if notices are on.
pub fn test_alert(config: &Config) -> (alert: Alert)
    ensures
        alert.sound == config.sound,
        config.notifications == NotificationStyle::Off ==> alert.notice is None,
        config.notifications != NotificationStyle::Off ==> (alert.notice matches Some(n)
            && n.urgency@ == urgency_of(config.notifications) && n.message@
            == "Notifications are ready."@),
{
    let message = String::from_str("Notifications are ready.");
    Alert { sound: config.sound, notice: notice_for(config.notifications, message) }
}

} // verus!

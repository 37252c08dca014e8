//! A terminal Pomodoro timer: the phases and their rules, the settings, the
//! animated art and the screen layout, as verified functions on plain values.

pub mod text;
pub mod canvas;
pub mod width;
pub mod art;
pub mod animation;
pub mod settings;
pub mod timer;
pub mod report;
pub mod screen;
pub mod fitting;

//! The timer's phases, the styles a user picks from, and the settings.

use vstd::prelude::*;

verus! {

/// A phase of the Pomodoro cycle.
#[derive(Copy, Clone, Debug, PartialEq, Eq, Structural)]
pub enum Phase {
    Idle,
    Work,
    Short,
    Long,
}

/// The configured file names of the custom art, one per phase.
pub struct AsciiArtConfig {
    pub enabled: bool,
    pub idle_file: String,
    pub work_file: String,
    pub short_file: String,
    pub long_file: String,
}

/// The label of a phase on screen.
pub open spec fn phase_label(phase: Phase) -> Seq<char> {
    match phase {
        Phase::Idle => "READY"@,
        Phase::Work => "WORK"@,
        Phase::Short => "SHORT BREAK"@,
        Phase::Long => "LONG BREAK"@,
    }
}

/// The name of a phase in the session log.
pub open spec fn phase_log_label(phase: Phase) -> Seq<char> {
    match phase {
        Phase::Idle => "IDLE"@,
        Phase::Work => "WORK"@,
        Phase::Short => "PAUSE"@,
        Phase::Long => "LONG PAUSE"@,
    }
}

/// The custom art file configured for a phase.
pub open spec fn phase_art_file(phase: Phase, config: AsciiArtConfig) -> Seq<char> {
    match phase {
        Phase::Idle => config.idle_file@,
        Phase::Work => config.work_file@,
        Phase::Short => config.short_file@,
        Phase::Long => config.long_file@,
    }
}

impl Phase {
    /// The label of the phase on screen.
    pub fn label(self) -> (text: &'static str)
        ensures
            text@ == phase_label(self),
    {
        match self {
            Phase::Idle => "READY",
            Phase::Work => "WORK",
            Phase::Short => "SHORT BREAK",
            Phase::Long => "LONG BREAK",
        }
    }

    /// The name of the phase in the session log.
    pub fn log_label(self) -> (text: &'static str)
        ensures
            text@ == phase_log_label(self),
    {
        match self {
            Phase::Idle => "IDLE",
            Phase::Work => "WORK",
            Phase::Short => "PAUSE",
            Phase::Long => "LONG PAUSE",
        }
    }

    /// The custom art file configured for the phase.
    pub fn ascii_filename(self, config: &AsciiArtConfig) -> (name: &str)
        ensures
            name@ == phase_art_file(self, *config),
    {
        match self {
            Phase::Idle => config.idle_file.as_str(),
            Phase::Work => config.work_file.as_str(),
            Phase::Short => config.short_file.as_str(),
            Phase::Long => config.long_file.as_str(),
        }
    }
}

/// Values that can tell whether two of them are the same.
pub trait Choice: Copy {
    /// Whether `self` and `other` are the same value.
    fn same(&self, other: &Self) -> (b: bool)
        ensures
            b == (*self == *other),
    ;
}

/// The index of the first occurrence of `current` in `values`, or 0 when it
/// does not occur.
pub open spec fn position_or_zero<T>(values: Seq<T>, current: T) -> int {
    if values.contains(current) {
        choose|i: int|
            0 <= i < values.len() && values[i] == current && forall|j: int|
                0 <= j < i ==> values[j] != current
    } else {
        0
    }
}

/// The value `delta` steps from `current` in `values`, wrapping around at
/// both ends; a value not in the list counts as the first one.
pub open spec fn cycled<T>(values: Seq<T>, current: T, delta: int) -> T {
    values[(position_or_zero(values, current) + delta) % (values.len() as int)]
}

/// `position` is `value` modulo `len`, worked out on the value's size and
/// sign.
proof fn lemma_euclid_mod(value: int, len: int, position: int)
    requires
        len > 0,
        value >= 0 ==> position == value % len,
        value < 0 ==> position == if (-value) % len == 0 {
            0
        } else {
            len - (-value) % len
        },
    ensures
        position == value % len,
{
    if value < 0 {
        let n = -value;
        let q = n / len;
        let r = n % len;
        assert(n == q * len + r && 0 <= r < len) by (nonlinear_arith)
            requires
                len > 0,
                q == n / len,
                r == n % len,
        ;
        if r == 0 {
            assert(value == (-q) * len + 0) by (nonlinear_arith)
                requires
                    value == -n,
                    n == q * len + r,
                    r == 0,
            ;
            vstd::arithmetic::div_mod::lemma_fundamental_div_mod_converse(value, len, -q, 0);
        } else {
            assert(value == (-q - 1) * len + (len - r)) by (nonlinear_arith)
                requires
                    value == -n,
                    n == q * len + r,
            ;
            vstd::arithmetic::div_mod::lemma_fundamental_div_mod_converse(
                value,
                len,
                -q - 1,
                len - r,
            );
        }
    }
}

/// The value `delta` steps away from `current` in `values`, wrapping around.
pub fn cycle_value<T: Choice>(values: &[T], current: T, delta: i32) -> (next: T)
    requires
        0 < values@.len() <= i32::MAX,
        i32::MIN <= position_or_zero(values@, current) + delta <= i32::MAX,
    ensures
        next == cycled(values@, current, delta as int),
{
    let mut index: usize = 0;
    let mut found = false;
    for i in 0..values.len()
        invariant
            !found ==> index == 0,
            found ==> index < values@.len() && values@[index as int] == current && forall|j: int|
                0 <= j < index ==> values@[j] != current,
            !found ==> forall|j: int| 0 <= j < i ==> values@[j] != current,
    {
        if !found && values[i].same(&current) {
            index = i;
            found = true;
        }
    }
    proof {
        if found {
            assert(values@.contains(current));
            let k = position_or_zero(values@, current);
            assert(k == index as int) by {
                if k < index {
                } else if k > index {
                }
            }
        } else {
            assert(!values@.contains(current));
        }
    }
    let len = values.len() as u64;
    let shifted = index as i64 + delta as i64;
    let position: u64 = if shifted >= 0 {
        shifted as u64 % len
    } else {
        let back = (-shifted) as u64 % len;
        if back == 0 {
            0
        } else {
            len - back
        }
    };
    proof {
        lemma_euclid_mod(shifted as int, len as int, position as int);
    }
    values[position as usize]
}

/// The art shown beside the clock.
#[derive(Copy, Clone, Debug, PartialEq, Eq, Structural)]
pub enum ArtStyle {
    Custom,
    OriginalCat,
    Tomato,
    Coffee,
    Cat,
    Focus,
    Sky,
    Plant,
    Hourglass,
    Fireplace,
    Aquarium,
    Rocket,
    GrandCat,
    GrandCastle,
    GrandCosmos,
    Off,
}

/// Every art style, in the order the settings cycle through them.
pub const ART_STYLES: [ArtStyle; 16] = [
    ArtStyle::Custom,
    ArtStyle::OriginalCat,
    ArtStyle::Tomato,
    ArtStyle::Coffee,
    ArtStyle::Cat,
    ArtStyle::Focus,
    ArtStyle::Sky,
    ArtStyle::Plant,
    ArtStyle::Hourglass,
    ArtStyle::Fireplace,
    ArtStyle::Aquarium,
    ArtStyle::Rocket,
    ArtStyle::GrandCat,
    ArtStyle::GrandCastle,
    ArtStyle::GrandCosmos,
    ArtStyle::Off,
];

/// The place of a art style in `ART_STYLES`.
pub open spec fn art_style_index(style: ArtStyle) -> int {
    match style {
        ArtStyle::Custom => 0,
        ArtStyle::OriginalCat => 1,
        ArtStyle::Tomato => 2,
        ArtStyle::Coffee => 3,
        ArtStyle::Cat => 4,
        ArtStyle::Focus => 5,
        ArtStyle::Sky => 6,
        ArtStyle::Plant => 7,
        ArtStyle::Hourglass => 8,
        ArtStyle::Fireplace => 9,
        ArtStyle::Aquarium => 10,
        ArtStyle::Rocket => 11,
        ArtStyle::GrandCat => 12,
        ArtStyle::GrandCastle => 13,
        ArtStyle::GrandCosmos => 14,
        ArtStyle::Off => 15,
    }
}

/// The label of a art style in the settings.
pub open spec fn art_style_label(style: ArtStyle) -> Seq<char> {
    match style {
        ArtStyle::Custom => "custom"@,
        ArtStyle::OriginalCat => "original cat"@,
        ArtStyle::Tomato => "tomato"@,
        ArtStyle::Coffee => "coffee"@,
        ArtStyle::Cat => "small cat"@,
        ArtStyle::Focus => "focus orb"@,
        ArtStyle::Sky => "drifting sky"@,
        ArtStyle::Plant => "growing plant"@,
        ArtStyle::Hourglass => "hourglass"@,
        ArtStyle::Fireplace => "fireplace"@,
        ArtStyle::Aquarium => "aquarium"@,
        ArtStyle::Rocket => "rocket"@,
        ArtStyle::GrandCat => "GRAND cat"@,
        ArtStyle::GrandCastle => "GRAND castle"@,
        ArtStyle::GrandCosmos => "GRAND cosmos"@,
        ArtStyle::Off => "off"@,
    }
}

impl Choice for ArtStyle {
    fn same(&self, other: &Self) -> (b: bool) {
        *self == *other
    }
}

impl ArtStyle {
    /// The label of the style in the settings.
    pub fn label(self) -> (text: &'static str)
        ensures
            text@ == art_style_label(self),
    {
        match self {
            ArtStyle::Custom => "custom",
            ArtStyle::OriginalCat => "original cat",
            ArtStyle::Tomato => "tomato",
            ArtStyle::Coffee => "coffee",
            ArtStyle::Cat => "small cat",
            ArtStyle::Focus => "focus orb",
            ArtStyle::Sky => "drifting sky",
            ArtStyle::Plant => "growing plant",
            ArtStyle::Hourglass => "hourglass",
            ArtStyle::Fireplace => "fireplace",
            ArtStyle::Aquarium => "aquarium",
            ArtStyle::Rocket => "rocket",
            ArtStyle::GrandCat => "GRAND cat",
            ArtStyle::GrandCastle => "GRAND castle",
            ArtStyle::GrandCosmos => "GRAND cosmos",
            ArtStyle::Off => "off",
        }
    }

    /// The style `delta` steps away in `ART_STYLES`, wrapping around.
    pub fn cycle(self, delta: i32) -> (next: ArtStyle)
        requires
            art_style_index(self) + delta <= i32::MAX,
        ensures
            next == cycled(ART_STYLES@, self, delta as int),
    {
        proof {
            lemma_art_styles_listed();
        }
        cycle_value(&ART_STYLES, self, delta)
    }

    /// How often the style's art moves on a frame, in milliseconds; `None`
    /// for art that stands still.
    pub fn frame_interval(self) -> (interval: Option<u64>)
        ensures
            interval == art_frame_interval(self),
    {
        match self {
            ArtStyle::Custom => None,
            ArtStyle::OriginalCat => None,
            ArtStyle::Tomato => Some(420),
            ArtStyle::Coffee => Some(240),
            ArtStyle::Cat => Some(360),
            ArtStyle::Focus => Some(100),
            ArtStyle::Sky => Some(180),
            ArtStyle::Plant => Some(650),
            ArtStyle::Hourglass => Some(500),
            ArtStyle::Fireplace => Some(180),
            ArtStyle::Aquarium => Some(160),
            ArtStyle::Rocket => Some(140),
            ArtStyle::GrandCat => Some(300),
            ArtStyle::GrandCastle => Some(220),
            ArtStyle::GrandCosmos => Some(140),
            ArtStyle::Off => None,
        }
    }

    /// Whether the style is one of the grand scenes, drawn only on large
    /// screens.
    pub fn is_grand(self) -> (grand: bool)
        ensures
            grand == is_grand_style(self),
    {
        match self {
            ArtStyle::GrandCat | ArtStyle::GrandCastle | ArtStyle::GrandCosmos => true,
            _ => false,
        }
    }
}

/// `ART_STYLES` lists every art style once, each at its index.
pub proof fn lemma_art_styles_listed()
    ensures
        ART_STYLES@.len() == 16,
        ART_STYLES@.no_duplicates(),
        forall|style: ArtStyle| #[trigger] ART_STYLES@[art_style_index(style)] == style,
        forall|style: ArtStyle| 0 <= #[trigger] art_style_index(style) < 16,
        forall|style: ArtStyle| position_or_zero(ART_STYLES@, style) == #[trigger] art_style_index(style),
{
    assert forall|style: ArtStyle| position_or_zero(ART_STYLES@, style) == #[trigger] art_style_index(style) by {
        assert(ART_STYLES@[art_style_index(style)] == style);
        assert(ART_STYLES@.contains(style));
    }
}

/// No two art styles share a label.
pub proof fn lemma_art_style_labels_distinct(a: ArtStyle, b: ArtStyle)
    ensures
        a != b ==> art_style_label(a) != art_style_label(b),
{
    reveal_strlit("custom");
    reveal_strlit("original cat");
    reveal_strlit("tomato");
    reveal_strlit("coffee");
    reveal_strlit("small cat");
    reveal_strlit("focus orb");
    reveal_strlit("drifting sky");
    reveal_strlit("growing plant");
    reveal_strlit("hourglass");
    reveal_strlit("fireplace");
    reveal_strlit("aquarium");
    reveal_strlit("rocket");
    reveal_strlit("GRAND cat");
    reveal_strlit("GRAND castle");
    reveal_strlit("GRAND cosmos");
    reveal_strlit("off");
    let la = art_style_label(a);
    let lb = art_style_label(b);
    if a != b && la == lb {
        assert(la.len() == lb.len());
        assert(la[0] == lb[0]);
        if la.len() > 1 {
            assert(la[1] == lb[1]);
        }
        if la.len() > 7 {
            assert(la[7] == lb[7]);
        }
    }
}

/// Whether an art style is one of the grand scenes.
pub open spec fn is_grand_style(style: ArtStyle) -> bool {
    style is GrandCat || style is GrandCastle || style is GrandCosmos
}

/// How often an art style moves on a frame, in milliseconds.
pub open spec fn art_frame_interval(style: ArtStyle) -> Option<u64> {
    match style {
        ArtStyle::Custom => None,
        ArtStyle::OriginalCat => None,
        ArtStyle::Tomato => Some(420u64),
        ArtStyle::Coffee => Some(240u64),
        ArtStyle::Cat => Some(360u64),
        ArtStyle::Focus => Some(100u64),
        ArtStyle::Sky => Some(180u64),
        ArtStyle::Plant => Some(650u64),
        ArtStyle::Hourglass => Some(500u64),
        ArtStyle::Fireplace => Some(180u64),
        ArtStyle::Aquarium => Some(160u64),
        ArtStyle::Rocket => Some(140u64),
        ArtStyle::GrandCat => Some(300u64),
        ArtStyle::GrandCastle => Some(220u64),
        ArtStyle::GrandCosmos => Some(140u64),
        ArtStyle::Off => None,
    }
}

/// How the countdown is drawn.
#[derive(Copy, Clone, Debug, PartialEq, Eq, Structural)]
pub enum ClockStyle {
    Digital,
    Classic,
    Minimal,
}

/// Every clock style, in the order the settings cycle through them.
pub const CLOCK_STYLES: [ClockStyle; 3] = [
    ClockStyle::Digital,
    ClockStyle::Classic,
    ClockStyle::Minimal,
];

/// The place of a clock style in `CLOCK_STYLES`.
pub open spec fn clock_style_index(style: ClockStyle) -> int {
    match style {
        ClockStyle::Digital => 0,
        ClockStyle::Classic => 1,
        ClockStyle::Minimal => 2,
    }
}

/// The label of a clock style in the settings.
pub open spec fn clock_style_label(style: ClockStyle) -> Seq<char> {
    match style {
        ClockStyle::Digital => "digital"@,
        ClockStyle::Classic => "classic"@,
        ClockStyle::Minimal => "minimal"@,
    }
}

impl Choice for ClockStyle {
    fn same(&self, other: &Self) -> (b: bool) {
        *self == *other
    }
}

impl ClockStyle {
    /// The label of the style in the settings.
    pub fn label(self) -> (text: &'static str)
        ensures
            text@ == clock_style_label(self),
    {
        match self {
            ClockStyle::Digital => "digital",
            ClockStyle::Classic => "classic",
            ClockStyle::Minimal => "minimal",
        }
    }

    /// The style `delta` steps away in `CLOCK_STYLES`, wrapping around.
    pub fn cycle(self, delta: i32) -> (next: ClockStyle)
        requires
            clock_style_index(self) + delta <= i32::MAX,
        ensures
            next == cycled(CLOCK_STYLES@, self, delta as int),
    {
        proof {
            lemma_clock_styles_listed();
        }
        cycle_value(&CLOCK_STYLES, self, delta)
    }
}

/// `CLOCK_STYLES` lists every clock style once, each at its index.
pub proof fn lemma_clock_styles_listed()
    ensures
        CLOCK_STYLES@.len() == 3,
        CLOCK_STYLES@.no_duplicates(),
        forall|style: ClockStyle| #[trigger] CLOCK_STYLES@[clock_style_index(style)] == style,
        forall|style: ClockStyle| 0 <= #[trigger] clock_style_index(style) < 3,
        forall|style: ClockStyle| position_or_zero(CLOCK_STYLES@, style) == #[trigger] clock_style_index(style),
{
    assert forall|style: ClockStyle| position_or_zero(CLOCK_STYLES@, style) == #[trigger] clock_style_index(style) by {
        assert(CLOCK_STYLES@[clock_style_index(style)] == style);
        assert(CLOCK_STYLES@.contains(style));
    }
}

/// Whether a desktop notice is sent when a phase ends, and how urgent it is.
#[derive(Copy, Clone, Debug, PartialEq, Eq, Structural)]
pub enum NotificationStyle {
    Off,
    Normal,
    Urgent,
}

/// Every notification style, in the order the settings cycle through them.
pub const NOTIFICATION_STYLES: [NotificationStyle; 3] = [
    NotificationStyle::Off,
    NotificationStyle::Normal,
    NotificationStyle::Urgent,
];

/// The place of a notification style in `NOTIFICATION_STYLES`.
pub open spec fn notification_style_index(style: NotificationStyle) -> int {
    match style {
        NotificationStyle::Off => 0,
        NotificationStyle::Normal => 1,
        NotificationStyle::Urgent => 2,
    }
}

/// The label of a notification style in the settings.
pub open spec fn notification_style_label(style: NotificationStyle) -> Seq<char> {
    match style {
        NotificationStyle::Off => "off"@,
        NotificationStyle::Normal => "normal"@,
        NotificationStyle::Urgent => "urgent"@,
    }
}

impl Choice for NotificationStyle {
    fn same(&self, other: &Self) -> (b: bool) {
        *self == *other
    }
}

impl NotificationStyle {
    /// The label of the style in the settings.
    pub fn label(self) -> (text: &'static str)
        ensures
            text@ == notification_style_label(self),
    {
        match self {
            NotificationStyle::Off => "off",
            NotificationStyle::Normal => "normal",
            NotificationStyle::Urgent => "urgent",
        }
    }

    /// The style `delta` steps away in `NOTIFICATION_STYLES`, wrapping around.
    pub fn cycle(self, delta: i32) -> (next: NotificationStyle)
        requires
            notification_style_index(self) + delta <= i32::MAX,
        ensures
            next == cycled(NOTIFICATION_STYLES@, self, delta as int),
    {
        proof {
            lemma_notification_styles_listed();
        }
        cycle_value(&NOTIFICATION_STYLES, self, delta)
    }
}

/// `NOTIFICATION_STYLES` lists every notification style once, each at its index.
pub proof fn lemma_notification_styles_listed()
    ensures
        NOTIFICATION_STYLES@.len() == 3,
        NOTIFICATION_STYLES@.no_duplicates(),
        forall|style: NotificationStyle| #[trigger] NOTIFICATION_STYLES@[notification_style_index(style)] == style,
        forall|style: NotificationStyle| 0 <= #[trigger] notification_style_index(style) < 3,
        forall|style: NotificationStyle| position_or_zero(NOTIFICATION_STYLES@, style) == #[trigger] notification_style_index(style),
{
    assert forall|style: NotificationStyle| position_or_zero(NOTIFICATION_STYLES@, style) == #[trigger] notification_style_index(style) by {
        assert(NOTIFICATION_STYLES@[notification_style_index(style)] == style);
        assert(NOTIFICATION_STYLES@.contains(style));
    }
}

/// The sound played when a phase ends.
#[derive(Copy, Clone, Debug, PartialEq, Eq, Structural)]
pub enum SoundStyle {
    Off,
    Bell,
    Chime,
}

/// Every sound style, in the order the settings cycle through them.
pub const SOUND_STYLES: [SoundStyle; 3] = [
    SoundStyle::Off,
    SoundStyle::Bell,
    SoundStyle::Chime,
];

/// The place of a sound style in `SOUND_STYLES`.
pub open spec fn sound_style_index(style: SoundStyle) -> int {
    match style {
        SoundStyle::Off => 0,
        SoundStyle::Bell => 1,
        SoundStyle::Chime => 2,
    }
}

/// The label of a sound style in the settings.
pub open spec fn sound_style_label(style: SoundStyle) -> Seq<char> {
    match style {
        SoundStyle::Off => "off"@,
        SoundStyle::Bell => "terminal bell"@,
        SoundStyle::Chime => "system chime"@,
    }
}

impl Choice for SoundStyle {
    fn same(&self, other: &Self) -> (b: bool) {
        *self == *other
    }
}

impl SoundStyle {
    /// The label of the style in the settings.
    pub fn label(self) -> (text: &'static str)
        ensures
            text@ == sound_style_label(self),
    {
        match self {
            SoundStyle::Off => "off",
            SoundStyle::Bell => "terminal bell",
            SoundStyle::Chime => "system chime",
        }
    }

    /// The style `delta` steps away in `SOUND_STYLES`, wrapping around.
    pub fn cycle(self, delta: i32) -> (next: SoundStyle)
        requires
            sound_style_index(self) + delta <= i32::MAX,
        ensures
            next == cycled(SOUND_STYLES@, self, delta as int),
    {
        proof {
            lemma_sound_styles_listed();
        }
        cycle_value(&SOUND_STYLES, self, delta)
    }
}

/// `SOUND_STYLES` lists every sound style once, each at its index.
pub proof fn lemma_sound_styles_listed()
    ensures
        SOUND_STYLES@.len() == 3,
        SOUND_STYLES@.no_duplicates(),
        forall|style: SoundStyle| #[trigger] SOUND_STYLES@[sound_style_index(style)] == style,
        forall|style: SoundStyle| 0 <= #[trigger] sound_style_index(style) < 3,
        forall|style: SoundStyle| position_or_zero(SOUND_STYLES@, style) == #[trigger] sound_style_index(style),
{
    assert forall|style: SoundStyle| position_or_zero(SOUND_STYLES@, style) == #[trigger] sound_style_index(style) by {
        assert(SOUND_STYLES@[sound_style_index(style)] == style);
        assert(SOUND_STYLES@.contains(style));
    }
}

proof fn lemma_position_of_listed<T>(values: Seq<T>, k: int)
    requires
        values.no_duplicates(),
        0 <= k < values.len(),
    ensures
        position_or_zero(values, values[k]) == k,
{
    assert(values.contains(values[k]));
    let p = position_or_zero(values, values[k]);
    assert(forall|j: int| 0 <= j < k ==> values[j] != values[k]);
}

/// Stepping `delta` places forward and then `delta` places back through a
/// list without repeats returns to the value one started from.
pub proof fn lemma_cycle_round_trip<T>(values: Seq<T>, current: T, delta: int)
    requires
        values.len() > 0,
        values.no_duplicates(),
        values.contains(current),
    ensures
        cycled(values, cycled(values, current, delta), -delta) == current,
{
    let n = values.len() as int;
    let i = choose|i: int| 0 <= i < n && values[i] == current;
    lemma_position_of_listed(values, i);
    let j = (i + delta) % n;
    lemma_position_of_listed(values, j);
    vstd::arithmetic::div_mod::lemma_add_mod_noop_right(-delta, i + delta, n);
    vstd::arithmetic::div_mod::lemma_small_mod(i as nat, n as nat);
}

/// Every style comes back after stepping `delta` places through its list
/// and then `delta` places back.
pub proof fn lemma_styles_cycle_back(
    art: ArtStyle,
    clock: ClockStyle,
    notice: NotificationStyle,
    sound: SoundStyle,
    delta: int,
)
    ensures
        cycled(ART_STYLES@, cycled(ART_STYLES@, art, delta), -delta) == art,
        cycled(CLOCK_STYLES@, cycled(CLOCK_STYLES@, clock, delta), -delta) == clock,
        cycled(NOTIFICATION_STYLES@, cycled(NOTIFICATION_STYLES@, notice, delta), -delta)
            == notice,
        cycled(SOUND_STYLES@, cycled(SOUND_STYLES@, sound, delta), -delta) == sound,
{
    lemma_art_styles_listed();
    lemma_clock_styles_listed();
    lemma_notification_styles_listed();
    lemma_sound_styles_listed();
    assert(ART_STYLES@.contains(art)) by {
        assert(ART_STYLES@[art_style_index(art)] == art);
    }
    assert(CLOCK_STYLES@.contains(clock)) by {
        assert(CLOCK_STYLES@[clock_style_index(clock)] == clock);
    }
    assert(NOTIFICATION_STYLES@.contains(notice)) by {
        assert(NOTIFICATION_STYLES@[notification_style_index(notice)] == notice);
    }
    assert(SOUND_STYLES@.contains(sound)) by {
        assert(SOUND_STYLES@[sound_style_index(sound)] == sound);
    }
    lemma_cycle_round_trip(ART_STYLES@, art, delta);
    lemma_cycle_round_trip(CLOCK_STYLES@, clock, delta);
    lemma_cycle_round_trip(NOTIFICATION_STYLES@, notice, delta);
    lemma_cycle_round_trip(SOUND_STYLES@, sound, delta);
}


/// The durations of the configuration file.
pub struct Durations {
    pub work_min: u64,
    pub short_min: u64,
    pub long_min: u64,
    pub long_every: u64,
}

/// The paths of the configuration file.
pub struct Paths {
    pub log_dir: String,
    pub ascii_dir: String,
    pub log_filename: String,
}

/// The configuration file.
pub struct TomlConfig {
    pub durations: Durations,
    pub paths: Paths,
    pub ascii_art: AsciiArtConfig,
}

/// The configuration used when no configuration file can be read: 25
/// minutes of work, breaks of 5 and 15 minutes, a long break every 4
/// sessions, logs and art under `.ptimer`, and custom art enabled.
pub fn default_toml_config() -> (config: TomlConfig)
    ensures
        config.durations.work_min == 25,
        config.durations.short_min == 5,
        config.durations.long_min == 15,
        config.durations.long_every == 4,
        config.paths.log_dir@ == ".ptimer/logs"@,
        config.paths.ascii_dir@ == ".ptimer/ascii_art"@,
        config.paths.log_filename@ == "pomodoro.csv"@,
        config.ascii_art.enabled,
        config.ascii_art.idle_file@ == "idle.txt"@,
        config.ascii_art.work_file@ == "work.txt"@,
        config.ascii_art.short_file@ == "short.txt"@,
        config.ascii_art.long_file@ == "long.txt"@,
{
    TomlConfig {
        durations: Durations { work_min: 25, short_min: 5, long_min: 15, long_every: 4 },
        paths: Paths {
            log_dir: String::from_str(".ptimer/logs"),
            ascii_dir: String::from_str(".ptimer/ascii_art"),
            log_filename: String::from_str("pomodoro.csv"),
        },
        ascii_art: AsciiArtConfig {
            enabled: true,
            idle_file: String::from_str("idle.txt"),
            work_file: String::from_str("work.txt"),
            short_file: String::from_str("short.txt"),
            long_file: String::from_str("long.txt"),
        },
    }
}

/// The settings a user can change and that are saved between runs.
#[derive(Copy, Clone, Debug, PartialEq, Eq, Structural)]
pub struct Preferences {
    pub work_min: u64,
    pub short_min: u64,
    pub long_min: u64,
    pub long_every: u64,
    pub art_style: ArtStyle,
    pub animations_enabled: bool,
    pub clock_style: ClockStyle,
    pub notifications: NotificationStyle,
    pub sound: SoundStyle,
}

/// The default preferences: 25, 5 and 15 minutes, a long break every 4
/// sessions, custom art, animated, a digital clock, urgent notices and the
/// terminal bell.
pub open spec fn default_preferences() -> Preferences {
    Preferences {
        work_min: 25,
        short_min: 5,
        long_min: 15,
        long_every: 4,
        art_style: ArtStyle::Custom,
        animations_enabled: true,
        clock_style: ClockStyle::Digital,
        notifications: NotificationStyle::Urgent,
        sound: SoundStyle::Bell,
    }
}

impl Default for Preferences {
    fn default() -> (preferences: Self)
        ensures
            preferences == default_preferences(),
    {
        Preferences {
            work_min: 25,
            short_min: 5,
            long_min: 15,
            long_every: 4,
            art_style: ArtStyle::Custom,
            animations_enabled: true,
            clock_style: ClockStyle::Digital,
            notifications: NotificationStyle::Urgent,
            sound: SoundStyle::Bell,
        }
    }
}

/// The default preferences with the durations of the configuration file.
pub fn preferences_with_durations(durations: &Durations) -> (preferences: Preferences)
    ensures
        preferences == (Preferences {
            work_min: durations.work_min,
            short_min: durations.short_min,
            long_min: durations.long_min,
            long_every: durations.long_every,
            ..default_preferences()
        }),
{
    Preferences {
        work_min: durations.work_min,
        short_min: durations.short_min,
        long_min: durations.long_min,
        long_every: durations.long_every,
        ..Preferences::default()
    }
}

/// The running configuration: durations in seconds, and the chosen styles.
pub struct Config {
    pub work_sec: u64,
    pub short_sec: u64,
    pub long_sec: u64,
    pub long_every: u64,
    pub ascii_config: AsciiArtConfig,
    pub art_style: ArtStyle,
    pub animations_enabled: bool,
    pub clock_style: ClockStyle,
    pub notifications: NotificationStyle,
    pub sound: SoundStyle,
}

/// The preferences a configuration amounts to: its durations in whole
/// minutes.
pub open spec fn config_preferences(config: Config) -> Preferences {
    Preferences {
        work_min: config.work_sec / 60,
        short_min: config.short_sec / 60,
        long_min: config.long_sec / 60,
        long_every: config.long_every,
        art_style: config.art_style,
        animations_enabled: config.animations_enabled,
        clock_style: config.clock_style,
        notifications: config.notifications,
        sound: config.sound,
    }
}

impl Config {
    /// The preferences this configuration amounts to, to be saved.
    pub fn preferences(&self) -> (preferences: Preferences)
        ensures
            preferences == config_preferences(*self),
    {
        Preferences {
            work_min: self.work_sec / 60,
            short_min: self.short_sec / 60,
            long_min: self.long_sec / 60,
            long_every: self.long_every,
            art_style: self.art_style,
            animations_enabled: self.animations_enabled,
            clock_style: self.clock_style,
            notifications: self.notifications,
            sound: self.sound,
        }
    }
}

/// `c` is a decimal digit.
pub open spec fn is_digit(c: char) -> bool {
    '0' <= c <= '9'
}

/// The number the decimal digits spell.
pub open spec fn digits_value(digits: Seq<char>) -> nat
    decreases digits.len(),
{
    if digits.len() == 0 {
        0
    } else {
        digits_value(digits.drop_last()) * 10 + (digits.last() as nat - '0' as nat) as nat
    }
}

/// `text` without its plus sign, if it starts with one.
pub open spec fn number_digits(text: Seq<char>) -> Seq<char> {
    if text.len() > 0 && text[0] == '+' {
        text.drop_first()
    } else {
        text
    }
}

/// The number `text` spells as `str::parse::<u64>` reads it: an optional
/// plus sign, then one or more decimal digits, the value fitting in a `u64`;
/// `None` for anything else.
pub open spec fn parsed_number(text: Seq<char>) -> Option<u64> {
    let digits = number_digits(text);
    if digits.len() > 0 && (forall|i: int| 0 <= i < digits.len() ==> is_digit(#[trigger] digits[i]))
        && digits_value(digits) <= u64::MAX {
        Some(digits_value(digits) as u64)
    } else {
        None
    }
}

/// Reads a whole number from a command line argument, as
/// `str::parse::<u64>` does.
pub fn parse_number(text: &str) -> (number: Option<u64>)
    ensures
        number == parsed_number(text@),
{
    let chars = crate::text::chars_of(text);
    let start: usize = if chars.len() > 0 && chars[0] == '+' {
        1
    } else {
        0
    };
    let ghost digits = chars@.skip(start as int);
    assert(digits =~= if text@.len() > 0 && text@[0] == '+' {
        text@.drop_first()
    } else {
        text@
    });
    if start >= chars.len() {
        return None;
    }
    let mut value: u64 = 0;
    let mut i = start;
    while i < chars.len()
        invariant
            chars@ == text@,
            start == (if text@.len() > 0 && text@[0] == '+' { 1int } else { 0int }),
            start <= i <= chars@.len(),
            digits == chars@.skip(start as int),
            digits =~= if text@.len() > 0 && text@[0] == '+' {
                text@.drop_first()
            } else {
                text@
            },
            forall|j: int| start <= j < i ==> is_digit(#[trigger] chars@[j]),
            value as nat == digits_value(chars@.subrange(start as int, i as int)),
        decreases chars.len() - i,
    {
        let c = chars[i];
        assert(chars@.subrange(start as int, i + 1).drop_last() =~= chars@.subrange(
            start as int,
            i as int,
        ));
        if !('0' <= c && c <= '9') {
            assert(!is_digit(digits[i - start]));
            assert(number_digits(text@)[i - start] == digits[i - start]);
            return None;
        }
        let digit = (c as u32 - '0' as u32) as u64;
        let next = value.checked_mul(10);
        match next {
            Some(tens) => {
                match tens.checked_add(digit) {
                    Some(v) => {
                        value = v;
                    },
                    None => {
                        proof {
                            lemma_overflow_is_not_a_number(text@, chars@, start as int, i as int);
                        }
                        return None;
                    },
                }
            },
            None => {
                proof {
                    lemma_overflow_is_not_a_number(text@, chars@, start as int, i as int);
                }
                return None;
            },
        }
        i = i + 1;
    }
    assert(chars@.subrange(start as int, chars@.len() as int) =~= digits);
    Some(value)
}

/// A longer run of digits spells at least as much as its start.
proof fn lemma_digits_value_grows(digits: Seq<char>, k: nat)
    requires
        k <= digits.len(),
        forall|i: int| 0 <= i < digits.len() ==> is_digit(#[trigger] digits[i]),
    ensures
        digits_value(digits.take(k as int)) <= digits_value(digits),
    decreases digits.len(),
{
    if k < digits.len() {
        let init = digits.drop_last();
        assert forall|i: int| 0 <= i < init.len() implies is_digit(#[trigger] init[i]) by {
            assert(init[i] == digits[i]);
        }
        lemma_digits_value_grows(init, k);
        assert(init.take(k as int) =~= digits.take(k as int));
    } else {
        assert(digits.take(k as int) =~= digits);
    }
}

/// Digits whose start already spells more than a `u64` holds spell no
/// number.
proof fn lemma_overflow_is_not_a_number(text: Seq<char>, chars: Seq<char>, start: int, i: int)
    requires
        chars == text,
        start == (if text.len() > 0 && text[0] == '+' { 1int } else { 0int }),
        start <= i < chars.len(),
        is_digit(chars[i]),
        forall|j: int| start <= j < i ==> is_digit(#[trigger] chars[j]),
        digits_value(chars.subrange(start, i + 1)) > u64::MAX,
    ensures
        parsed_number(text) is None,
{
    let digits = chars.skip(start);
    assert(digits =~= if text.len() > 0 && text[0] == '+' {
        text.drop_first()
    } else {
        text
    });
    if forall|j: int| 0 <= j < digits.len() ==> is_digit(#[trigger] digits[j]) {
        lemma_digits_value_grows(digits, (i + 1 - start) as nat);
        assert(digits.take(i + 1 - start) =~= chars.subrange(start, i + 1));
        assert(digits_value(digits) > u64::MAX);
        assert(parsed_number(text) is None);
    } else {
        let j = choose|j: int| 0 <= j < digits.len() && !is_digit(#[trigger] digits[j]);
        assert(number_digits(text)[j] == digits[j]);
        assert(parsed_number(text) is None);
    }
}

/// The number an argument spells, or `fallback` when there is no argument
/// or it is not a number.
pub fn number(text: Option<&str>, fallback: u64) -> (value: u64)
    ensures
        value == match text {
            Some(t) => match parsed_number(t@) {
                Some(n) => n,
                None => fallback,
            },
            None => fallback,
        },
{
    match text {
        Some(t) => match parse_number(t) {
            Some(n) => n,
            None => fallback,
        },
        None => fallback,
    }
}

/// A duration in whole minutes made at least one minute and given in
/// seconds.
pub open spec fn minutes_to_seconds(minutes: u64) -> int {
    if minutes < 1 {
        60
    } else {
        minutes * 60
    }
}

/// The running configuration from the preferences, the numbers given on the
/// command line (which win over the preferences), and the custom art files:
/// every duration at least one minute and every long-break cycle at least
/// one session.
pub fn resolve_config(
    preferences: &Preferences,
    work: Option<u64>,
    short: Option<u64>,
    long: Option<u64>,
    long_every: Option<u64>,
    ascii_config: AsciiArtConfig,
) -> (config: Config)
    requires
        minutes_to_seconds(work.unwrap_or(preferences.work_min)) <= u64::MAX,
        minutes_to_seconds(short.unwrap_or(preferences.short_min)) <= u64::MAX,
        minutes_to_seconds(long.unwrap_or(preferences.long_min)) <= u64::MAX,
    ensures
        config.work_sec == minutes_to_seconds(work.unwrap_or(preferences.work_min)),
        config.short_sec == minutes_to_seconds(short.unwrap_or(preferences.short_min)),
        config.long_sec == minutes_to_seconds(long.unwrap_or(preferences.long_min)),
        config.long_every == if long_every.unwrap_or(preferences.long_every) < 1 {
            1
        } else {
            long_every.unwrap_or(preferences.long_every)
        },
        config.ascii_config == ascii_config,
        config.art_style == preferences.art_style,
        config.animations_enabled == preferences.animations_enabled,
        config.clock_style == preferences.clock_style,
        config.notifications == preferences.notifications,
        config.sound == preferences.sound,
{
    let work_min = match work {
        Some(n) => n,
        None => preferences.work_min,
    };
    let short_min = match short {
        Some(n) => n,
        None => preferences.short_min,
    };
    let long_min = match long {
        Some(n) => n,
        None => preferences.long_min,
    };
    let every = match long_every {
        Some(n) => n,
        None => preferences.long_every,
    };
    Config {
        work_sec: if work_min < 1 { 1 } else { work_min } * 60,
        short_sec: if short_min < 1 { 1 } else { short_min } * 60,
        long_sec: if long_min < 1 { 1 } else { long_min } * 60,
        long_every: if every < 1 { 1 } else { every },
        ascii_config,
        art_style: preferences.art_style,
        animations_enabled: preferences.animations_enabled,
        clock_style: preferences.clock_style,
        notifications: preferences.notifications,
        sound: preferences.sound,
    }
}

} // verus!

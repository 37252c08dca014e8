//! The art: the frames of the fixed scenes, row by row, and the sprites and
//! pieces the drawn scenes are made of.

use vstd::prelude::*;

use crate::canvas::{plain_sprite, sprite_view};
use crate::text::no_newline;

verus! {

/// The frames of the tomato scene, row by row.
pub const TOMATO: [[&'static str; 6]; 4] = [
    [
        r#"         __"#,
        r#"     .-\/_ _\/-."#,
        r#"    /  /o\ /o\  \"#,
        r#"   |     (_)     |"#,
        r#"    \  `-...-'  /"#,
        r#"     `-._____.-'"#,
    ],
    [
        r#"      .  __"#,
        r#"     .-\/_ _\/-."#,
        r#"    /  /o\ /o\  \"#,
        r#"   |     (_)     |"#,
        r#"    \  `-...-'  /"#,
        r#"     `-._____.-'"#,
    ],
    [
        r#"     *   __   *"#,
        r#"     .-\/_ _\/-."#,
        r#"    /  /-\ /-\  \"#,
        r#"   |     (_)     |"#,
        r#"    \  `-...-'  /"#,
        r#"     `-._____.-'"#,
    ],
    [
        r#"         __  ."#,
        r#"     .-\/_ _\/-."#,
        r#"    /  /o\ /o\  \"#,
        r#"   |     (_)     |"#,
        r#"    \  `-...-'  /"#,
        r#"     `-._____.-'"#,
    ],
];

/// The frames of the coffee cup scene, row by row.
pub const COFFEE: [[&'static str; 6]; 6] = [
    [
        r#"       (  ("#,
        r#"        )  )"#,
        r#"      .------."#,
        r#"      |      |]"#,
        r#"      \      /"#,
        r#"       `----'"#,
    ],
    [
        r#"        ( ("#,
        r#"       (   )"#,
        r#"      .------."#,
        r#"      |      |]"#,
        r#"      \      /"#,
        r#"       `----'"#,
    ],
    [
        r#"       )  )"#,
        r#"        (  ("#,
        r#"      .------."#,
        r#"      |      |]"#,
        r#"      \      /"#,
        r#"       `----'"#,
    ],
    [
        r#"      (   ("#,
        r#"       )   )"#,
        r#"      .------."#,
        r#"      |      |]"#,
        r#"      \      /"#,
        r#"       `----'"#,
    ],
    [
        r#"       ( ("#,
        r#"        ) )"#,
        r#"      .------."#,
        r#"      |      |]"#,
        r#"      \      /"#,
        r#"       `----'"#,
    ],
    [
        r#"        )  )"#,
        r#"       (  ("#,
        r#"      .------."#,
        r#"      |      |]"#,
        r#"      \      /"#,
        r#"       `----'"#,
    ],
];

/// The frames of the small cat scene, row by row.
pub const CAT: [[&'static str; 6]; 6] = [
    [
        r#"       /\_/\\"#,
        r#"      ( o.o )    _"#,
        r#"       > ^ <   _/ )"#,
        r#"      /     \_/  /"#,
        r#"     (  | |     /"#,
        r#"      \_) (_/--'"#,
    ],
    [
        r#"       /\_/\\"#,
        r#"      ( o.o )   __"#,
        r#"       > ^ <  _/  )"#,
        r#"      /     \/   /"#,
        r#"     (  | |     /"#,
        r#"      \_) (_/--'"#,
    ],
    [
        r#"       /\_/\\"#,
        r#"      ( -.- )  ___"#,
        r#"       > ^ < _/   )"#,
        r#"      /     \/   /"#,
        r#"     (  | |     /"#,
        r#"      \_) (_/--'"#,
    ],
    [
        r#"       /\_/\\"#,
        r#"      ( o.o )  __"#,
        r#"       > ^ < _/  \_"#,
        r#"      /     \/     )"#,
        r#"     (  | |       /"#,
        r#"      \_) (_/----'"#,
    ],
    [
        r#"       /\_/\\"#,
        r#"      ( o.o ) _"#,
        r#"       > ^ </  \__"#,
        r#"      /     \     )"#,
        r#"     (  | |      /"#,
        r#"      \_) (_/---'"#,
    ],
    [
        r#"       /\_/\\"#,
        r#"      ( ^.^ )    _"#,
        r#"       > ^ <   _/ )"#,
        r#"      /     \_/  /"#,
        r#"     (  | |     /"#,
        r#"      \_) (_/--'"#,
    ],
];

/// The frames of the growing plant scene, row by row.
pub const PLANT: [[&'static str; 7]; 6] = [
    [
        r#""#,
        r#""#,
        r#""#,
        r#""#,
        r#"        ."#,
        r#"      .---."#,
        r#"      '---'"#,
    ],
    [
        r#""#,
        r#""#,
        r#""#,
        r#"        |"#,
        r#"        |"#,
        r#"      .---."#,
        r#"      '---'"#,
    ],
    [
        r#""#,
        r#""#,
        r#"       \|/"#,
        r#"        |"#,
        r#"        |"#,
        r#"      .---."#,
        r#"      '---'"#,
    ],
    [
        r#""#,
        r#"       _"#,
        r#"     _/ \_"#,
        r#"       \|/"#,
        r#"        |"#,
        r#"      .---."#,
        r#"      '---'"#,
    ],
    [
        r#"        ."#,
        r#"       \|/"#,
        r#"     _/|\_"#,
        r#"    /  |  \"#,
        r#"       |"#,
        r#"      .---."#,
        r#"      '---'"#,
    ],
    [
        r#"      . * ."#,
        r#"       \|/"#,
        r#"    --< * >--"#,
        r#"       /|\"#,
        r#"        |"#,
        r#"      .---."#,
        r#"      '---'"#,
    ],
];

/// The frames of the hourglass scene, row by row.
pub const HOURGLASS: [[&'static str; 7]; 4] = [
    [
        r#"      _______"#,
        r#"      \...../"#,
        r#"       \.../"#,
        r#"        \./"#,
        r#"        / \"#,
        r#"       /   \"#,
        r#"      /_____\"#,
    ],
    [
        r#"      _______"#,
        r#"      \ ... /"#,
        r#"       \ . /"#,
        r#"        \ /"#,
        r#"        /·\"#,
        r#"       /   \"#,
        r#"      /_____\"#,
    ],
    [
        r#"      _______"#,
        r#"      \  .  /"#,
        r#"       \   /"#,
        r#"        \ /"#,
        r#"        / \"#,
        r#"       /···\"#,
        r#"      /_____\"#,
    ],
    [
        r#"      _______"#,
        r#"      \     /"#,
        r#"       \   /"#,
        r#"        \ /"#,
        r#"        / \"#,
        r#"       /.....\"#,
        r#"      /_____\"#,
    ],
];

/// The frames of the fireplace scene, row by row.
pub const FIREPLACE: [[&'static str; 7]; 4] = [
    [
        r#"      .========."#,
        r#"      |  (  )  |"#,
        r#"      | ( /\ ) |"#,
        r#"      |  /  \  |"#,
        r#"      | /_/\_\ |"#,
        r#"      |========|"#,
        r#"       /_====_\"#,
    ],
    [
        r#"      .========."#,
        r#"      |   ()   |"#,
        r#"      |  /\(   |"#,
        r#"      | (  )\  |"#,
        r#"      | /\/\_\ |"#,
        r#"      |========|"#,
        r#"       /_====_\"#,
    ],
    [
        r#"      .========."#,
        r#"      | ( )   |"#,
        r#"      |  )(   |"#,
        r#"      | /  \  |"#,
        r#"      |/_/\_\ |"#,
        r#"      |========|"#,
        r#"       /_====_\"#,
    ],
    [
        r#"      .========."#,
        r#"      |  (())  |"#,
        r#"      |   /\   |"#,
        r#"      |  /  \  |"#,
        r#"      | /_/\_\ |"#,
        r#"      |========|"#,
        r#"       /_====_\"#,
    ],
];

/// The spinner of the focus orb, one character per frame.
pub const BRAILLE_SPINNER: [&'static str; 10] = [
    r#"⠋"#,
    r#"⠙"#,
    r#"⠹"#,
    r#"⠸"#,
    r#"⠼"#,
    r#"⠴"#,
    r#"⠦"#,
    r#"⠧"#,
    r#"⠇"#,
    r#"⠏"#,
];

/// The pulse under the focus orb's label.
pub const PULSE: [&'static str; 4] = [
    r#"·  ·  ·"#,
    r#"•  ·  ·"#,
    r#"·  •  ·"#,
    r#"·  ·  •"#,
];

/// The focus orb up to its spinner.
pub const FOCUS_TOP: &'static str = r#"       .----------.
     .'     "#;

/// The focus orb between its spinner and its pulse.
pub const FOCUS_MIDDLE: &'static str = r#"      '.
    /    F O C U S     \
   |      "#;

/// The focus orb after its pulse.
pub const FOCUS_BOTTOM: &'static str = r#"       |
    \                /
     '._          _.'
        '--------'"#;

/// The cloud drifting over the sky.
pub const CLOUD: [&'static str; 3] = [
    r#" .--."#,
    r#"(    )"#,
    r#" `--'"#,
];

/// The bird crossing the sky.
pub const BIRD: &'static str = r#"~v~"#;

/// The hills along the bottom of the sky.
pub const HORIZON: &'static str = r#"__  _/\_    __/\__   _/\_  ___"#;

/// The big fish of the aquarium.
pub const FISH: &'static str = r#"<`)))><"#;

/// The small fish of the aquarium.
pub const SMALL_FISH: &'static str = r#"<><"#;

/// A rising bubble.
pub const BUBBLE: &'static str = r#"o"#;

/// The aquarium's floor.
pub const SEA_FLOOR: &'static str = r#"~~~~~~~~~~~~~~~~~~~~~~~~~~~~~~"#;

/// The rocket's body.
pub const ROCKET: [&'static str; 5] = [
    r#"       /\"#,
    r#"      /  \"#,
    r#"     | PT |"#,
    r#"     |____|"#,
    r#"    /|    |\"#,
];

/// The rocket's flame on even frames.
pub const FLAME_UP: &'static str = r#"      /\"#;

/// The rocket's flame on odd frames.
pub const FLAME_DOWN: &'static str = r#"      \/"#;

/// The sparks on every third frame.
pub const SPARKS_LOW: &'static str = r#"  .              *"#;

/// The sparks on the other frames.
pub const SPARKS_HIGH: &'static str = r#"       .      *"#;

/// A bright star.
pub const STAR: &'static str = r#"*"#;

/// A dim star.
pub const DIM_STAR: &'static str = r#"."#;

/// The columns of the cosmos's stars.
pub const STAR_COLUMNS: [isize; 7] = [3, 12, 23, 37, 49, 61, 66];

/// The ringed planet of the cosmos.
pub const PLANET: [&'static str; 7] = [
    r#"                         _..._"#,
    r#"                    _.-'     `-._"#,
    r#"              _.---'   .-·-.   `---._"#,
    r#"        _____/_________/_____\_________\_____"#,
    r#"             `-.       \     /       .-'"#,
    r#"                `-._    `-.-'    _.-'"#,
    r#"                    `--._____.--'"#,
];

/// The ship crossing the cosmos.
pub const SHIP: &'static str = r#"<=={o}==>"#;

/// The grand cat above its eyes.
pub const GRAND_CAT_TOP: [&'static str; 4] = [
    r#"             /\                            /\"#,
    r#"            /  \__________________________/  \"#,
    r#"           /                                  \"#,
    r#"          /       .--------.    .--------.      \"#,
];

/// The row of the grand cat's eyes, up to the left eye.
pub const GRAND_CAT_EYES_LEFT: &'static str = r#"         |       /    "#;

/// The row of the grand cat's eyes, between the eyes.
pub const GRAND_CAT_EYES_MIDDLE: &'static str = r#"     \  /    "#;

/// The row of the grand cat's eyes, after the right eye.
pub const GRAND_CAT_EYES_RIGHT: &'static str = r#"     \      |"#;

/// The grand cat between its eyes and its whiskers.
pub const GRAND_CAT_MIDDLE: [&'static str; 3] = [
    r#"         |       \          /  \          /      |"#,
    r#"         |        '--------' /\ '--------'       |"#,
    r#"         |                  /  \                  |"#,
];

/// The row of the grand cat's whiskers, before the left ones.
pub const GRAND_CAT_WHISKERS_LEFT: &'static str = r#"    "#;

/// The row of the grand cat's whiskers, between them.
pub const GRAND_CAT_WHISKERS_MIDDLE: &'static str = r#"  |              .-`  '-.              |  "#;

/// The grand cat below its whiskers.
pub const GRAND_CAT_BOTTOM: [&'static str; 3] = [
    r#"          \             `-.__.-'             /"#,
    r#"           '._                              _.'"#,
    r#"              '--------------------------'"#,
];

/// An open eye of the grand cat.
pub const EYE_OPEN: &'static str = r#"●"#;

/// A shut eye of the grand cat.
pub const EYE_SHUT: &'static str = r#"—"#;

/// A whisker on even frames.
pub const WHISKER_WAVE: &'static str = r#"≋"#;

/// A whisker on odd frames.
pub const WHISKER_TILDE: &'static str = r#"~"#;

/// The top of the castle's mast, before its flag.
pub const GRAND_CASTLE_MAST: &'static str = r#"                          |"#;

/// The castle below the top of its mast.
pub const GRAND_CASTLE_BODY: [&'static str; 12] = [
    r#"                          |"#,
    r#"                  _   _  _|_  _   _"#,
    r#"                 | |_| ||   || |_| |"#,
    r#"                 |              _  |"#,
    r#"             _   |  []   []    | | |   _"#,
    r#"            | |_|                |_| |_| |"#,
    r#"            |     []    ____    []       |"#,
    r#"            |          |    |            |"#,
    r#"       _____|__________| __ |____________|_____"#,
    r#"      /  /  /  /  /   |/  \|   \  \  \  \  \"#,
    r#"     /__/__/__/__/_____/____\____\__\__\__\__\"#,
    r#"          *       a quiet kingdom       *"#,
];

/// The castle's flag, waving.
pub const FLAG: [&'static str; 4] = [
    r#">>>"#,
    r#" >>"#,
    r#"  >"#,
    r#" >>"#,
];

/// Each row fits in `width` characters, holds no newline and does not end
/// in a carriage return, and the last row is not empty.
pub open spec fn rows_fit(rows: Seq<Seq<char>>, width: nat) -> bool {
    &&& rows.len() >= 1
    &&& rows.last().len() > 0
    &&& forall|j: int|
        0 <= j < rows.len() ==> (#[trigger] rows[j]).len() <= width && no_newline(rows[j]) && (
        rows[j].len() == 0 || rows[j].last() != '\r')
}

/// Every frame of every fixed scene fits its scene's width.
pub proof fn lemma_fixed_frames_fit()
    ensures
        forall|i: int| 0 <= i < 4 ==> rows_fit(sprite_view(#[trigger] TOMATO@[i]@), 19),
        forall|i: int| 0 <= i < 6 ==> rows_fit(sprite_view(#[trigger] COFFEE@[i]@), 16),
        forall|i: int| 0 <= i < 6 ==> rows_fit(sprite_view(#[trigger] CAT@[i]@), 22),
        forall|i: int| 0 <= i < 6 ==> rows_fit(sprite_view(#[trigger] PLANT@[i]@), 18),
        forall|i: int| 0 <= i < 4 ==> rows_fit(sprite_view(#[trigger] HOURGLASS@[i]@), 18),
        forall|i: int| 0 <= i < 4 ==> rows_fit(sprite_view(#[trigger] FIREPLACE@[i]@), 20),
{
    reveal_strlit(r#"         __"#);
    reveal_strlit(r#"     .-\/_ _\/-."#);
    reveal_strlit(r#"    /  /o\ /o\  \"#);
    reveal_strlit(r#"   |     (_)     |"#);
    reveal_strlit(r#"    \  `-...-'  /"#);
    reveal_strlit(r#"     `-._____.-'"#);
    reveal_strlit(r#"      .  __"#);
    reveal_strlit(r#"     *   __   *"#);
    reveal_strlit(r#"    /  /-\ /-\  \"#);
    reveal_strlit(r#"         __  ."#);
    reveal_strlit(r#"       (  ("#);
    reveal_strlit(r#"        )  )"#);
    reveal_strlit(r#"      .------."#);
    reveal_strlit(r#"      |      |]"#);
    reveal_strlit(r#"      \      /"#);
    reveal_strlit(r#"       `----'"#);
    reveal_strlit(r#"        ( ("#);
    reveal_strlit(r#"       (   )"#);
    reveal_strlit(r#"       )  )"#);
    reveal_strlit(r#"        (  ("#);
    reveal_strlit(r#"      (   ("#);
    reveal_strlit(r#"       )   )"#);
    reveal_strlit(r#"       ( ("#);
    reveal_strlit(r#"        ) )"#);
    reveal_strlit(r#"       /\_/\\"#);
    reveal_strlit(r#"      ( o.o )    _"#);
    reveal_strlit(r#"       > ^ <   _/ )"#);
    reveal_strlit(r#"      /     \_/  /"#);
    reveal_strlit(r#"     (  | |     /"#);
    reveal_strlit(r#"      \_) (_/--'"#);
    reveal_strlit(r#"      ( o.o )   __"#);
    reveal_strlit(r#"       > ^ <  _/  )"#);
    reveal_strlit(r#"      /     \/   /"#);
    reveal_strlit(r#"      ( -.- )  ___"#);
    reveal_strlit(r#"       > ^ < _/   )"#);
    reveal_strlit(r#"      ( o.o )  __"#);
    reveal_strlit(r#"       > ^ < _/  \_"#);
    reveal_strlit(r#"      /     \/     )"#);
    reveal_strlit(r#"     (  | |       /"#);
    reveal_strlit(r#"      \_) (_/----'"#);
    reveal_strlit(r#"      ( o.o ) _"#);
    reveal_strlit(r#"       > ^ </  \__"#);
    reveal_strlit(r#"      /     \     )"#);
    reveal_strlit(r#"     (  | |      /"#);
    reveal_strlit(r#"      \_) (_/---'"#);
    reveal_strlit(r#"      ( ^.^ )    _"#);
    reveal_strlit(r#""#);
    reveal_strlit(r#"        ."#);
    reveal_strlit(r#"      .---."#);
    reveal_strlit(r#"      '---'"#);
    reveal_strlit(r#"        |"#);
    reveal_strlit(r#"       \|/"#);
    reveal_strlit(r#"       _"#);
    reveal_strlit(r#"     _/ \_"#);
    reveal_strlit(r#"     _/|\_"#);
    reveal_strlit(r#"    /  |  \"#);
    reveal_strlit(r#"       |"#);
    reveal_strlit(r#"      . * ."#);
    reveal_strlit(r#"    --< * >--"#);
    reveal_strlit(r#"       /|\"#);
    reveal_strlit(r#"      _______"#);
    reveal_strlit(r#"      \...../"#);
    reveal_strlit(r#"       \.../"#);
    reveal_strlit(r#"        \./"#);
    reveal_strlit(r#"        / \"#);
    reveal_strlit(r#"       /   \"#);
    reveal_strlit(r#"      /_____\"#);
    reveal_strlit(r#"      \ ... /"#);
    reveal_strlit(r#"       \ . /"#);
    reveal_strlit(r#"        \ /"#);
    reveal_strlit(r#"        /·\"#);
    reveal_strlit(r#"      \  .  /"#);
    reveal_strlit(r#"       \   /"#);
    reveal_strlit(r#"       /···\"#);
    reveal_strlit(r#"      \     /"#);
    reveal_strlit(r#"       /.....\"#);
    reveal_strlit(r#"      .========."#);
    reveal_strlit(r#"      |  (  )  |"#);
    reveal_strlit(r#"      | ( /\ ) |"#);
    reveal_strlit(r#"      |  /  \  |"#);
    reveal_strlit(r#"      | /_/\_\ |"#);
    reveal_strlit(r#"      |========|"#);
    reveal_strlit(r#"       /_====_\"#);
    reveal_strlit(r#"      |   ()   |"#);
    reveal_strlit(r#"      |  /\(   |"#);
    reveal_strlit(r#"      | (  )\  |"#);
    reveal_strlit(r#"      | /\/\_\ |"#);
    reveal_strlit(r#"      | ( )   |"#);
    reveal_strlit(r#"      |  )(   |"#);
    reveal_strlit(r#"      | /  \  |"#);
    reveal_strlit(r#"      |/_/\_\ |"#);
    reveal_strlit(r#"      |  (())  |"#);
    reveal_strlit(r#"      |   /\   |"#);
    assert(rows_fit(sprite_view(TOMATO@[0]@), 19));
    assert(rows_fit(sprite_view(TOMATO@[1]@), 19));
    assert(rows_fit(sprite_view(TOMATO@[2]@), 19));
    assert(rows_fit(sprite_view(TOMATO@[3]@), 19));
    assert(rows_fit(sprite_view(COFFEE@[0]@), 16));
    assert(rows_fit(sprite_view(COFFEE@[1]@), 16));
    assert(rows_fit(sprite_view(COFFEE@[2]@), 16));
    assert(rows_fit(sprite_view(COFFEE@[3]@), 16));
    assert(rows_fit(sprite_view(COFFEE@[4]@), 16));
    assert(rows_fit(sprite_view(COFFEE@[5]@), 16));
    assert(rows_fit(sprite_view(CAT@[0]@), 22));
    assert(rows_fit(sprite_view(CAT@[1]@), 22));
    assert(rows_fit(sprite_view(CAT@[2]@), 22));
    assert(rows_fit(sprite_view(CAT@[3]@), 22));
    assert(rows_fit(sprite_view(CAT@[4]@), 22));
    assert(rows_fit(sprite_view(CAT@[5]@), 22));
    assert(rows_fit(sprite_view(PLANT@[0]@), 18));
    assert(rows_fit(sprite_view(PLANT@[1]@), 18));
    assert(rows_fit(sprite_view(PLANT@[2]@), 18));
    assert(rows_fit(sprite_view(PLANT@[3]@), 18));
    assert(rows_fit(sprite_view(PLANT@[4]@), 18));
    assert(rows_fit(sprite_view(PLANT@[5]@), 18));
    assert(rows_fit(sprite_view(HOURGLASS@[0]@), 18));
    assert(rows_fit(sprite_view(HOURGLASS@[1]@), 18));
    assert(rows_fit(sprite_view(HOURGLASS@[2]@), 18));
    assert(rows_fit(sprite_view(HOURGLASS@[3]@), 18));
    assert(rows_fit(sprite_view(FIREPLACE@[0]@), 20));
    assert(rows_fit(sprite_view(FIREPLACE@[1]@), 20));
    assert(rows_fit(sprite_view(FIREPLACE@[2]@), 20));
    assert(rows_fit(sprite_view(FIREPLACE@[3]@), 20));
}
/// No sprite of the drawn scenes holds a newline; the sky's hills begin
/// with an underscore and the aquarium's floor with a tilde.
pub proof fn lemma_sprites_plain()
    ensures
        plain_sprite(sprite_view(CLOUD@)),
        plain_sprite(sprite_view(ROCKET@)),
        plain_sprite(sprite_view(PLANET@)),
        no_newline(BIRD@),
        no_newline(HORIZON@),
        no_newline(FISH@),
        no_newline(SMALL_FISH@),
        no_newline(BUBBLE@),
        no_newline(SEA_FLOOR@),
        no_newline(FLAME_UP@),
        no_newline(FLAME_DOWN@),
        no_newline(SPARKS_LOW@),
        no_newline(SPARKS_HIGH@),
        no_newline(STAR@),
        no_newline(DIM_STAR@),
        no_newline(SHIP@),
        HORIZON@.len() == 30 && HORIZON@[0] == '_',
        SEA_FLOOR@.len() == 30 && SEA_FLOOR@[0] == '~',
{
    reveal_strlit(" .--.");
    reveal_strlit("(    )");
    reveal_strlit(" `--'");
    reveal_strlit("~v~");
    reveal_strlit(r"__  _/\_    __/\__   _/\_  ___");
    reveal_strlit("<`)))><");
    reveal_strlit("<><");
    reveal_strlit("o");
    reveal_strlit("~~~~~~~~~~~~~~~~~~~~~~~~~~~~~~");
    reveal_strlit("       /\\");
    reveal_strlit("      /  \\");
    reveal_strlit("     | PT |");
    reveal_strlit("     |____|");
    reveal_strlit("    /|    |\\");
    reveal_strlit("      /\\");
    reveal_strlit("      \\/");
    reveal_strlit("  .              *");
    reveal_strlit("       .      *");
    reveal_strlit("*");
    reveal_strlit(".");
    reveal_strlit("<=={o}==>");
    reveal_strlit(r"                         _..._");
    reveal_strlit(r"                    _.-'     `-._");
    reveal_strlit(r"              _.---'   .-·-.   `---._");
    reveal_strlit(r"        _____/_________/_____\_________\_____");
    reveal_strlit(r"             `-.       \     /       .-'");
    reveal_strlit(r"                `-._    `-.-'    _.-'");
    reveal_strlit(r"                    `--._____.--'");
    assert(plain_sprite(sprite_view(CLOUD@)));
    assert(plain_sprite(sprite_view(ROCKET@)));
    assert(plain_sprite(sprite_view(PLANET@)));
}
/// The pieces of the grand scenes: their rows fit the scenes' widths, and
/// the pieces that fill a row hold no newline and are this wide.
pub proof fn lemma_grand_pieces()
    ensures
        rows_fit(sprite_view(GRAND_CAT_TOP@), 62),
        rows_fit(sprite_view(GRAND_CAT_MIDDLE@), 62),
        rows_fit(sprite_view(GRAND_CAT_BOTTOM@), 62),
        rows_fit(sprite_view(GRAND_CASTLE_BODY@), 68),
        no_newline(GRAND_CAT_EYES_LEFT@) && GRAND_CAT_EYES_LEFT@.len() == 22,
        no_newline(GRAND_CAT_EYES_MIDDLE@) && GRAND_CAT_EYES_MIDDLE@.len() == 13,
        no_newline(GRAND_CAT_EYES_RIGHT@) && GRAND_CAT_EYES_RIGHT@.len() == 13,
        no_newline(GRAND_CAT_WHISKERS_LEFT@) && GRAND_CAT_WHISKERS_LEFT@.len() == 4,
        no_newline(GRAND_CAT_WHISKERS_MIDDLE@) && GRAND_CAT_WHISKERS_MIDDLE@.len() == 42,
        no_newline(EYE_OPEN@) && EYE_OPEN@.len() == 1,
        no_newline(EYE_SHUT@) && EYE_SHUT@.len() == 1,
        no_newline(WHISKER_WAVE@) && WHISKER_WAVE@.len() == 1,
        no_newline(WHISKER_TILDE@) && WHISKER_TILDE@.len() == 1,
        no_newline(GRAND_CASTLE_MAST@) && GRAND_CASTLE_MAST@.len() == 27,
        GRAND_CAT_EYES_RIGHT@.last() == '|',
        forall|i: int| 0 <= i < 4 ==> no_newline(#[trigger] FLAG@[i]@) && FLAG@[i]@.len() == 3 && FLAG@[i]@.last() == '>',
{
    reveal_strlit(r#"    "#);
    reveal_strlit(r#"                          |"#);
    reveal_strlit(r#"                  _   _  _|_  _   _"#);
    reveal_strlit(r#"                 |              _  |"#);
    reveal_strlit(r#"                 | |_| ||   || |_| |"#);
    reveal_strlit(r#"              '--------------------------'"#);
    reveal_strlit(r#"             /\                            /\"#);
    reveal_strlit(r#"             _   |  []   []    | | |   _"#);
    reveal_strlit(r#"            /  \__________________________/  \"#);
    reveal_strlit(r#"            |          |    |            |"#);
    reveal_strlit(r#"            |     []    ____    []       |"#);
    reveal_strlit(r#"            | |_|                |_| |_| |"#);
    reveal_strlit(r#"           '._                              _.'"#);
    reveal_strlit(r#"           /                                  \"#);
    reveal_strlit(r#"          *       a quiet kingdom       *"#);
    reveal_strlit(r#"          /       .--------.    .--------.      \"#);
    reveal_strlit(r#"          \             `-.__.-'             /"#);
    reveal_strlit(r#"         |                  /  \                  |"#);
    reveal_strlit(r#"         |        '--------' /\ '--------'       |"#);
    reveal_strlit(r#"         |       /    "#);
    reveal_strlit(r#"         |       \          /  \          /      |"#);
    reveal_strlit(r#"       _____|__________| __ |____________|_____"#);
    reveal_strlit(r#"      /  /  /  /  /   |/  \|   \  \  \  \  \"#);
    reveal_strlit(r#"     /__/__/__/__/_____/____\____\__\__\__\__\"#);
    reveal_strlit(r#"     \      |"#);
    reveal_strlit(r#"     \  /    "#);
    reveal_strlit(r#"  >"#);
    reveal_strlit(r#"  |              .-`  '-.              |  "#);
    reveal_strlit(r#" >>"#);
    reveal_strlit(r#">>>"#);
    reveal_strlit(r#"~"#);
    reveal_strlit(r#"—"#);
    reveal_strlit(r#"≋"#);
    reveal_strlit(r#"●"#);
    assert(rows_fit(sprite_view(GRAND_CAT_TOP@), 62));
    assert(rows_fit(sprite_view(GRAND_CAT_MIDDLE@), 62));
    assert(rows_fit(sprite_view(GRAND_CAT_BOTTOM@), 62));
    assert(rows_fit(sprite_view(GRAND_CASTLE_BODY@), 68));
}
} // verus!

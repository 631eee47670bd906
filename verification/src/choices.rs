//! The options of `/grate create` and `/grate grateic help`.

use crate::canvas::{is_hex_color, parse_hex_color, preset_dimensions, CanvasPreset, ColorParseError};
use crate::text;
use vstd::prelude::*;

verus! {

/// The canvas preset picked in `/grate create`.
#[derive(Debug, Clone, Copy, PartialEq, Eq, Structural)]
pub enum PresetChoice {
    Square,
    Portrait,
    Landscape,
}

pub open spec fn preset_of(choice: PresetChoice) -> CanvasPreset {
    match choice {
        PresetChoice::Square => CanvasPreset::Square,
        PresetChoice::Portrait => CanvasPreset::Portrait,
        PresetChoice::Landscape => CanvasPreset::Landscape,
    }
}

impl From<PresetChoice> for CanvasPreset {
    fn from(value: PresetChoice) -> (p: CanvasPreset) {
        match value {
            PresetChoice::Square => CanvasPreset::Square,
            PresetChoice::Portrait => CanvasPreset::Portrait,
            PresetChoice::Landscape => CanvasPreset::Landscape,
        }
    }
}

impl vstd::std_specs::convert::FromSpecImpl<PresetChoice> for CanvasPreset {
    open spec fn obeys_from_spec() -> bool {
        true
    }

    open spec fn from_spec(v: PresetChoice) -> CanvasPreset {
        preset_of(v)
    }
}

/// The preset that converting a choice gives.
pub open spec fn converted_preset(choice: PresetChoice) -> CanvasPreset {
    <CanvasPreset as vstd::std_specs::convert::FromSpec<PresetChoice>>::from_spec(choice)
}

/// Converting a preset choice keeps its shape: the square choice gives a
/// canvas as wide as it is tall, the portrait choice one taller than wide,
/// the landscape choice one wider than tall; so different choices give
/// different presets.
pub proof fn law_preset_choice_keeps_its_shape(c: PresetChoice, d: PresetChoice)
    ensures
        (preset_dimensions(converted_preset(c)).0 == preset_dimensions(converted_preset(c)).1) <==> c
            == PresetChoice::Square,
        (preset_dimensions(converted_preset(c)).0 < preset_dimensions(converted_preset(c)).1) <==> c
            == PresetChoice::Portrait,
        (preset_dimensions(converted_preset(c)).0 > preset_dimensions(converted_preset(c)).1) <==> c
            == PresetChoice::Landscape,
        converted_preset(c) == converted_preset(d) ==> c == d,
{
}

/// The background picked in `/grate create`.
#[derive(Debug, Clone, Copy, PartialEq, Eq, Structural)]
pub enum BackgroundChoice {
    White,
    Black,
    WarmPaper,
    PaleBlue,
    PaleGreen,
    PalePink,
    Custom,
}

/// The colour of each named background.
pub open spec fn background_preset_hex(choice: BackgroundChoice) -> Seq<char> {
    match choice {
        BackgroundChoice::White => "#ffffff"@,
        BackgroundChoice::Black => "#000000"@,
        BackgroundChoice::WarmPaper => "#f8f1df"@,
        BackgroundChoice::PaleBlue => "#dbeafe"@,
        BackgroundChoice::PaleGreen => "#dcfce7"@,
        BackgroundChoice::PalePink => "#fce7f3"@,
        BackgroundChoice::Custom => Seq::empty(),
    }
}

/// Why a background could not be used.
#[derive(Debug, Clone, Copy, PartialEq, Eq, Structural)]
pub enum BackgroundError {
    MissingCustomBackground,
    InvalidColor(ColorParseError),
}

pub open spec fn background_error_text(e: BackgroundError) -> Seq<char> {
    match e {
        BackgroundError::MissingCustomBackground =>
            "custom_background is required when background is custom hex"@,
        BackgroundError::InvalidColor(_) => "background color must use #RRGGBB format"@,
    }
}

impl BackgroundError {
    pub fn message(&self) -> (m: &'static str)
        ensures
            m@ == background_error_text(*self),
    {
        match self {
            BackgroundError::MissingCustomBackground =>
                "custom_background is required when background is custom hex",
            BackgroundError::InvalidColor(e) => e.message(),
        }
    }
}

impl BackgroundChoice {
    /// The `#RRGGBB` colour of the choice; `Custom` takes it from
    /// `custom_background`, which must then be given and well formed.
    pub fn hex(self, custom_background: Option<&str>) -> (r: Result<String, BackgroundError>)
        ensures
            self != BackgroundChoice::Custom ==> (r matches Ok(h) && h@ == background_preset_hex(
                self,
            )),
            self == BackgroundChoice::Custom && custom_background is None ==> r == Err::<
                String,
                BackgroundError,
            >(BackgroundError::MissingCustomBackground),
            self == BackgroundChoice::Custom ==> (custom_background matches Some(c) ==> if is_hex_color(
                c@,
            ) {
                r matches Ok(h) && h@ == c@
            } else {
                r == Err::<String, BackgroundError>(
                    BackgroundError::InvalidColor(ColorParseError::InvalidFormat),
                )
            }),
    {
        let hex: &str = match self {
            BackgroundChoice::White => {
                proof {
                    reveal_strlit("#ffffff");
                }
                "#ffffff"
            },
            BackgroundChoice::Black => {
                proof {
                    reveal_strlit("#000000");
                }
                "#000000"
            },
            BackgroundChoice::WarmPaper => {
                proof {
                    reveal_strlit("#f8f1df");
                }
                "#f8f1df"
            },
            BackgroundChoice::PaleBlue => {
                proof {
                    reveal_strlit("#dbeafe");
                }
                "#dbeafe"
            },
            BackgroundChoice::PaleGreen => {
                proof {
                    reveal_strlit("#dcfce7");
                }
                "#dcfce7"
            },
            BackgroundChoice::PalePink => {
                proof {
                    reveal_strlit("#fce7f3");
                }
                "#fce7f3"
            },
            BackgroundChoice::Custom => match custom_background {
                Some(c) => c,
                None => {
                    return Err(BackgroundError::MissingCustomBackground);
                },
            },
        };
        match parse_hex_color(hex) {
            Ok(_) => {},
            Err(e) => {
                return Err(BackgroundError::InvalidColor(e));
            },
        }
        Ok(text::owned(hex))
    }
}

/// Short or full game, as picked in `/grate create`.
#[derive(Debug, Clone, Copy, PartialEq, Eq, Structural)]
pub enum GameModeChoice {
    Short,
    Full,
}

/// The topics of `/grate grateic help`.
#[derive(Debug, Clone, Copy, PartialEq, Eq, Structural)]
pub enum HelpTopicChoice {
    Overview,
    Commands,
    CreateSettings,
    Modes,
    GameFlowExamples,
    CanvasSizeRule,
}

pub open spec fn help_text(topic: HelpTopicChoice) -> Seq<char> {
    match topic {
        HelpTopicChoice::Overview => "Grateic Phone help: create a lobby with `/grate create`, then players use `/grate grateic join`, and the host uses `/grate grateic start`.\n\nUse the `topic` option on `/grate grateic help` for focused help: `commands`, `create settings`, `modes`, `game flow examples`, or `canvas size rule`.\n\nDefault behavior: `/grate create` requires a mode, preset, and background. `custom_background` is only needed for `custom hex`. `require_canvas_size` defaults to enabled, so drawing uploads must match the selected canvas size unless the host turns it off."@,
        HelpTopicChoice::Commands => "Grateic Phone commands:\n`/grate create`: create a Grateic Phone lobby. Choose `mode`, `preset`, and `background`.\n`/grate grateic join`: join the active lobby in this server.\n`/grate grateic ready`: retry the DM check if the bot could not DM you.\n`/grate grateic start`: host-only; starts the active lobby after at least 2 players join.\n`/grate grateic status`: refresh lobby status before start, or privately show in-progress round status.\n`/grate grateic cancel`: host-only; cancel the active lobby before it starts.\n`/grate grateic force_cancel`: host-only; force-cancel a stuck active game.\n`/grate grateic set channel`: set the only channel where Grateic commands work.\n`/grate grateic help`: explain commands, settings, modes, and rules."@,
        HelpTopicChoice::CreateSettings => "`/grate create` settings:\n`mode`: `short` is one prompt plus one drawing. `full` is the full telephone-style chain game.\n`preset`: canvas size. `square` is 1024x1024, `portrait` is 1080x1920, `landscape` is 1920x1080.\n`background`: canvas background color preset. Choose `custom hex` only when you want your own color.\n`custom_background`: required only when `background` is `custom hex`; use `#RRGGBB`, like `#ff00aa`.\n`require_canvas_size`: optional. Defaults to `true`. When `false`, drawing uploads can use any image size."@,
        HelpTopicChoice::Modes => "Grateic Phone modes:\n`short`: everyone submits one prompt, then each player gets one prompt from another player, uploads one drawing, and the bot reveals showcases.\n`full`: everyone submits an initial prompt, chains rotate through alternating drawing and prompt rounds, then each original author names the final drawing before reveal.\n\nBoth modes use DMs for submissions. Both modes send the selected blank canvas at start. Both modes use the same canvas size rule."@,
        HelpTopicChoice::GameFlowExamples => "Example short flow with 3 players:\n1. A, B, and C each submit one prompt.\n2. A draws C's prompt, B draws A's prompt, C draws B's prompt.\n3. After all drawings are uploaded, the bot posts each prompt with its drawing as showcases.\n\nExample full flow with 3 players:\n1. A, B, and C each submit an initial prompt.\n2. Next round, each player draws a different prompt.\n3. Next round, each player describes a drawing for the next player.\n4. Drawing and prompt rounds keep rotating.\n5. Final round, original authors name the final drawing from their chain.\n6. The bot reveals every chain."@,
        HelpTopicChoice::CanvasSizeRule => "Canvas size rule:\nBy default, `require_canvas_size` is enabled. Drawing uploads must exactly match the canvas preset chosen in `/grate create`.\n\nPreset sizes: `square` 1024x1024, `portrait` 1080x1920, `landscape` 1920x1080.\n\nIf a submitted image is the wrong size, the bot rejects it and tells the player the expected and actual dimensions. If Discord does not report dimensions, the bot asks for a normal image upload whose dimensions Discord can detect.\n\nTo disable this rule for a lobby, set `require_canvas_size:false` when creating it."@,
    }
}

pub fn grateic_help_text(topic: HelpTopicChoice) -> (t: &'static str)
    ensures
        t@ == help_text(topic),
{
    match topic {
        HelpTopicChoice::Overview => "Grateic Phone help: create a lobby with `/grate create`, then players use `/grate grateic join`, and the host uses `/grate grateic start`.\n\nUse the `topic` option on `/grate grateic help` for focused help: `commands`, `create settings`, `modes`, `game flow examples`, or `canvas size rule`.\n\nDefault behavior: `/grate create` requires a mode, preset, and background. `custom_background` is only needed for `custom hex`. `require_canvas_size` defaults to enabled, so drawing uploads must match the selected canvas size unless the host turns it off.",
        HelpTopicChoice::Commands => "Grateic Phone commands:\n`/grate create`: create a Grateic Phone lobby. Choose `mode`, `preset`, and `background`.\n`/grate grateic join`: join the active lobby in this server.\n`/grate grateic ready`: retry the DM check if the bot could not DM you.\n`/grate grateic start`: host-only; starts the active lobby after at least 2 players join.\n`/grate grateic status`: refresh lobby status before start, or privately show in-progress round status.\n`/grate grateic cancel`: host-only; cancel the active lobby before it starts.\n`/grate grateic force_cancel`: host-only; force-cancel a stuck active game.\n`/grate grateic set channel`: set the only channel where Grateic commands work.\n`/grate grateic help`: explain commands, settings, modes, and rules.",
        HelpTopicChoice::CreateSettings => "`/grate create` settings:\n`mode`: `short` is one prompt plus one drawing. `full` is the full telephone-style chain game.\n`preset`: canvas size. `square` is 1024x1024, `portrait` is 1080x1920, `landscape` is 1920x1080.\n`background`: canvas background color preset. Choose `custom hex` only when you want your own color.\n`custom_background`: required only when `background` is `custom hex`; use `#RRGGBB`, like `#ff00aa`.\n`require_canvas_size`: optional. Defaults to `true`. When `false`, drawing uploads can use any image size.",
        HelpTopicChoice::Modes => "Grateic Phone modes:\n`short`: everyone submits one prompt, then each player gets one prompt from another player, uploads one drawing, and the bot reveals showcases.\n`full`: everyone submits an initial prompt, chains rotate through alternating drawing and prompt rounds, then each original author names the final drawing before reveal.\n\nBoth modes use DMs for submissions. Both modes send the selected blank canvas at start. Both modes use the same canvas size rule.",
        HelpTopicChoice::GameFlowExamples => "Example short flow with 3 players:\n1. A, B, and C each submit one prompt.\n2. A draws C's prompt, B draws A's prompt, C draws B's prompt.\n3. After all drawings are uploaded, the bot posts each prompt with its drawing as showcases.\n\nExample full flow with 3 players:\n1. A, B, and C each submit an initial prompt.\n2. Next round, each player draws a different prompt.\n3. Next round, each player describes a drawing for the next player.\n4. Drawing and prompt rounds keep rotating.\n5. Final round, original authors name the final drawing from their chain.\n6. The bot reveals every chain.",
        HelpTopicChoice::CanvasSizeRule => "Canvas size rule:\nBy default, `require_canvas_size` is enabled. Drawing uploads must exactly match the canvas preset chosen in `/grate create`.\n\nPreset sizes: `square` 1024x1024, `portrait` 1080x1920, `landscape` 1920x1080.\n\nIf a submitted image is the wrong size, the bot rejects it and tells the player the expected and actual dimensions. If Discord does not report dimensions, the bot asks for a normal image upload whose dimensions Discord can detect.\n\nTo disable this rule for a lobby, set `require_canvas_size:false` when creating it.",
    }
}

} // verus!

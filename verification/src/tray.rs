//! The tray icon's state, menu and fallback picture.
use crate::i18n::{texts, texts_of};
use crate::settings::AppLanguage;
use crate::text::{chars_eq, chars_of, string_from};
use vstd::prelude::*;

verus! {

/// The menu id of the settings item.
pub const SETTINGS_MENU_ID: &'static str = "voiceinsert-settings";

/// The menu id of the exit item.
pub const EXIT_MENU_ID: &'static str = "voiceinsert-exit";

/// What the tray icon shows.
#[derive(Debug, Clone, Copy, PartialEq, Eq, Structural)]
pub enum TrayState {
    Idle,
    Recording,
    Transcribing,
    Error,
}

/// A command chosen from the tray menu.
#[derive(Debug, Clone, Copy, PartialEq, Eq, Structural)]
pub enum TrayCommand {
    Settings,
    Exit,
}

/// The texts of the tray menu items.
#[derive(Debug, Clone, PartialEq, Eq)]
pub struct TrayMenuLabels {
    pub settings: String,
    pub exit: String,
}

impl TrayMenuLabels {
    /// The menu labels in `language`.
    pub fn for_language(language: AppLanguage) -> (l: TrayMenuLabels)
        ensures
            l.settings@ == texts_of(language).settings,
            l.exit@ == texts_of(language).exit,
    {
        let t = texts(language);
        TrayMenuLabels { settings: string_from(t.settings), exit: string_from(t.exit) }
    }
}

/// The tray's labels and state, apart from the platform icon.
#[derive(Debug)]
pub struct TrayService {
    labels: TrayMenuLabels,
    state: TrayState,
}

impl TrayService {
    pub closed spec fn labels_view(&self) -> TrayMenuLabels {
        self.labels
    }

    pub closed spec fn state_view(&self) -> TrayState {
        self.state
    }

    /// An idle tray with labels in `language`.
    pub fn new(language: AppLanguage) -> (s: TrayService)
        ensures
            s.labels_view().settings@ == texts_of(language).settings,
            s.labels_view().exit@ == texts_of(language).exit,
            s.state_view() == TrayState::Idle,
    {
        TrayService { labels: TrayMenuLabels::for_language(language), state: TrayState::Idle }
    }

    pub fn labels(&self) -> (l: &TrayMenuLabels)
        ensures
            *l == self.labels_view(),
    {
        &self.labels
    }

    pub fn state(&self) -> (s: TrayState)
        ensures
            s == self.state_view(),
    {
        self.state
    }

    /// Relabels the menu in `language`; the state stays.
    pub fn set_language(&mut self, language: AppLanguage)
        ensures
            final(self).labels_view().settings@ == texts_of(language).settings,
            final(self).labels_view().exit@ == texts_of(language).exit,
            final(self).state_view() == old(self).state_view(),
    {
        self.labels = TrayMenuLabels::for_language(language);
    }

    /// Shows `state`; the labels stay.
    pub fn set_state(&mut self, state: TrayState)
        ensures
            final(self).state_view() == state,
            final(self).labels_view() == old(self).labels_view(),
    {
        self.state = state;
    }
}

/// The command of the menu item with `id`, if it is one of ours.
pub open spec fn menu_command(id: Seq<char>) -> Option<TrayCommand> {
    if id == SETTINGS_MENU_ID@ {
        Some(TrayCommand::Settings)
    } else if id == EXIT_MENU_ID@ {
        Some(TrayCommand::Exit)
    } else {
        None
    }
}

/// The command of a clicked menu item.
pub fn command_for_menu_id(id: &str) -> (r: Option<TrayCommand>)
    ensures
        r == menu_command(id@),
{
    let cs = chars_of(id);
    let settings = chars_of(SETTINGS_MENU_ID);
    let exit = chars_of(EXIT_MENU_ID);
    if chars_eq(cs.as_slice(), settings.as_slice()) {
        Some(TrayCommand::Settings)
    } else if chars_eq(cs.as_slice(), exit.as_slice()) {
        Some(TrayCommand::Exit)
    } else {
        None
    }
}

/// The side of the fallback tray icon, in pixels.
pub const ICON_SIZE: u32 = 32;

/// The fallback icon is a filled circle of radius 14 around pixel (15, 15).
pub open spec fn icon_inside(x: int, y: int) -> bool {
    (x - 15) * (x - 15) + (y - 15) * (y - 15) <= 14 * 14
}

/// Channel `c` (red, green, blue, alpha) of icon pixel `(x, y)`: teal inside
/// the circle, transparent outside.
pub open spec fn icon_channel(x: int, y: int, c: int) -> u8 {
    if icon_inside(x, y) {
        if c == 0 {
            0x51
        } else if c == 1 {
            0xb3
        } else if c == 2 {
            0xa2
        } else {
            0xff
        }
    } else {
        0
    }
}

/// The fallback tray icon as `ICON_SIZE` rows of `ICON_SIZE` RGBA pixels.
pub fn default_icon_rgba() -> (rgba: Vec<u8>)
    ensures
        rgba.len() == 32 * 32 * 4,
        forall|y: int, x: int, c: int|
            0 <= y < 32 && 0 <= x < 32 && 0 <= c < 4 ==> #[trigger] rgba@[(y * 32 + x) * 4 + c]
                == icon_channel(x, y, c),
{
    let mut rgba: Vec<u8> = Vec::new();
    let mut y: i32 = 0;
    while y < 32
        invariant
            0 <= y <= 32,
            rgba.len() == y * 32 * 4,
            forall|yy: int, x: int, c: int|
                0 <= yy < y && 0 <= x < 32 && 0 <= c < 4 ==> #[trigger] rgba@[(yy * 32 + x) * 4 + c]
                    == icon_channel(x, yy, c),
        decreases 32 - y,
    {
        let mut x: i32 = 0;
        while x < 32
            invariant
                0 <= y < 32,
                0 <= x <= 32,
                rgba.len() == (y * 32 + x) * 4,
                forall|yy: int, xx: int, c: int|
                    0 <= yy < 32 && 0 <= xx < 32 && 0 <= c < 4 && (yy * 32 + xx) < (y * 32 + x)
                        ==> #[trigger] rgba@[(yy * 32 + xx) * 4 + c] == icon_channel(xx, yy, c),
            decreases 32 - x,
        {
            let dx = x - 15;
            let dy = y - 15;
            proof {
                assert(0 <= dx * dx <= 256) by (nonlinear_arith)
                    requires
                        -15 <= dx <= 16,
                ;
                assert(0 <= dy * dy <= 256) by (nonlinear_arith)
                    requires
                        -15 <= dy <= 16,
                ;
            }
            let inside = dx * dx + dy * dy <= 14 * 14;
            let ghost before = rgba@;
            if inside {
                rgba.push(0x51);
                rgba.push(0xb3);
                rgba.push(0xa2);
                rgba.push(0xff);
            } else {
                rgba.push(0);
                rgba.push(0);
                rgba.push(0);
                rgba.push(0);
            }
            proof {
                let base = (y * 32 + x) * 4;
                assert(inside == icon_inside(x as int, y as int));
                assert forall|yy: int, xx: int, c: int|
                    0 <= yy < 32 && 0 <= xx < 32 && 0 <= c < 4 && (yy * 32 + xx) < (y * 32 + x + 1)
                        implies #[trigger] rgba@[(yy * 32 + xx) * 4 + c] == icon_channel(xx, yy, c) by {
                    if (yy * 32 + xx) < (y * 32 + x) {
                        assert((yy * 32 + xx) * 4 + c < base);
                        assert(rgba@[(yy * 32 + xx) * 4 + c] == before[(yy * 32 + xx) * 4 + c]);
                    } else {
                        assert(yy * 32 + xx == y * 32 + x);
                        assert(yy == y && xx == x) by (nonlinear_arith)
                            requires
                                yy * 32 + xx == y * 32 + x,
                                0 <= xx < 32,
                                0 <= x < 32,
                        ;
                    }
                }
            }
            x = x + 1;
        }
        proof {
            assert forall|yy: int, xx: int, c: int|
                0 <= yy < y + 1 && 0 <= xx < 32 && 0 <= c < 4 implies #[trigger] rgba@[(yy * 32 + xx)
                * 4 + c] == icon_channel(xx, yy, c) by {
                assert(yy * 32 + xx < y * 32 + 32);
            }
        }
        y = y + 1;
    }
    rgba
}

} // verus!

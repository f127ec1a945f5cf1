//! The colored screen border shown while recording or transcribing: its
//! geometry, colors and when it must be redrawn.
use crate::overlay::WorkArea;
use vstd::prelude::*;

verus! {

/// What the border shows.
#[derive(Debug, Clone, Copy, PartialEq, Eq, Structural)]
pub enum BorderIndicatorColor {
    Recording,
    Transcribing,
}

/// The thickness of the border, in pixels.
pub const BORDER_WIDTH: i32 = 12;

/// The opacity of the border windows (out of 255).
pub const BORDER_ALPHA: u8 = 210;

/// The border's color as a Windows `COLORREF` value (`0x00BBGGRR`).
pub fn color_ref(color: BorderIndicatorColor) -> (r: u32)
    ensures
        color is Recording ==> r == 0x46c978,
        color is Transcribing ==> r == 0x2d8cff,
{
    match color {
        BorderIndicatorColor::Recording => 0x46c978,
        BorderIndicatorColor::Transcribing => 0x2d8cff,
    }
}

/// The window class registered for a border color.
pub fn window_class_name(color: BorderIndicatorColor) -> (r: &'static str)
    ensures
        color is Recording ==> r@ == "VoiceInsertRecordingBorder"@,
        color is Transcribing ==> r@ == "VoiceInsertTranscribingBorder"@,
{
    match color {
        BorderIndicatorColor::Recording => "VoiceInsertRecordingBorder",
        BorderIndicatorColor::Transcribing => "VoiceInsertTranscribingBorder",
    }
}

/// The rectangle `(x, y, width, height)` of each border window: top, bottom,
/// left and right edge of the area, each `thickness` pixels wide.
pub open spec fn border_rects(area: WorkArea, thickness: int) -> Seq<(int, int, int, int)> {
    seq![
        (area.left as int, area.top as int, area.width as int, thickness),
        (area.left as int, area.top + area.height - thickness, area.width as int, thickness),
        (area.left as int, area.top as int, thickness, area.height as int),
        (area.left + area.width - thickness, area.top as int, thickness, area.height as int),
    ]
}

/// The four border windows for `area`.
pub fn border_sides(area: WorkArea, thickness: i32) -> (r: [(i32, i32, i32, i32); 4])
    requires
        i32::MIN <= area.top + area.height - thickness <= i32::MAX,
        i32::MIN <= area.top + area.height <= i32::MAX,
        i32::MIN <= area.left + area.width - thickness <= i32::MAX,
        i32::MIN <= area.left + area.width <= i32::MAX,
    ensures
        forall|i: int|
            0 <= i < 4 ==> {
                let (x, y, w, h) = #[trigger] r@[i];
                (x as int, y as int, w as int, h as int) == border_rects(area, thickness as int)[i]
            },
{
    let r = [
        (area.left, area.top, area.width, thickness),
        (area.left, area.top + area.height - thickness, area.width, thickness),
        (area.left, area.top, thickness, area.height),
        (area.left + area.width - thickness, area.top, thickness, area.height),
    ];
    r
}

/// Which border is on screen, apart from its platform windows.
#[derive(Debug, Clone, Copy, PartialEq, Eq, Structural)]
pub struct BorderIndicatorState {
    pub visible_color: Option<BorderIndicatorColor>,
}

impl BorderIndicatorState {
    /// No border is shown.
    pub fn new() -> (s: BorderIndicatorState)
        ensures
            s.visible_color is None,
    {
        BorderIndicatorState { visible_color: None }
    }

    /// Shows `color`. Returns whether the windows must be (re)created: not
    /// when that color is already shown.
    pub fn show(&mut self, color: BorderIndicatorColor) -> (redraw: bool)
        ensures
            final(self).visible_color == Some(color),
            redraw == (old(self).visible_color != Some(color)),
    {
        if self.visible_color == Some(color) {
            return false;
        }
        self.visible_color = Some(color);
        true
    }

    /// Takes the border off the screen.
    pub fn dismiss(&mut self)
        ensures
            final(self).visible_color is None,
    {
        self.visible_color = None;
    }
}

} // verus!

//! Where the transient recording overlay goes on the desktop.
use vstd::prelude::*;

verus! {

/// Desktop work area available for positioning transient overlay windows.
#[derive(Debug, Clone, Copy, PartialEq, Eq, Structural)]
pub struct WorkArea {
    pub left: i32,
    pub top: i32,
    pub width: i32,
    pub height: i32,
}

pub open spec fn max(a: int, b: int) -> int {
    if a >= b {
        a
    } else {
        b
    }
}

/// The bottom-right position of an overlay of `size` with `margin` to the
/// work area's right and bottom edges, moved right or down where needed so
/// that it never starts left of or above the work area.
pub open spec fn overlay_origin(area: WorkArea, size: (i32, i32), margin: i32) -> (int, int) {
    let m = max(margin as int, 0);
    (
        max(area.left + area.width - size.0 - m, area.left as int),
        max(area.top + area.height - size.1 - m, area.top as int),
    )
}

/// The overlay position can be computed in `i32` arithmetic.
pub open spec fn overlay_fits_i32(area: WorkArea, size: (i32, i32), margin: i32) -> bool {
    let m = max(margin as int, 0);
    &&& i32::MIN <= area.left + area.width <= i32::MAX
    &&& i32::MIN <= area.left + area.width - size.0 <= i32::MAX
    &&& i32::MIN <= area.left + area.width - size.0 - m <= i32::MAX
    &&& i32::MIN <= area.top + area.height <= i32::MAX
    &&& i32::MIN <= area.top + area.height - size.1 <= i32::MAX
    &&& i32::MIN <= area.top + area.height - size.1 - m <= i32::MAX
}

/// Calculates a bottom-right overlay position clamped inside the supplied work
/// area. A negative margin counts as none.
pub fn overlay_position(work_area: WorkArea, overlay_size: (i32, i32), margin: i32) -> (r: (
    i32,
    i32,
))
    requires
        overlay_fits_i32(work_area, overlay_size, margin),
    ensures
        (r.0 as int, r.1 as int) == overlay_origin(work_area, overlay_size, margin),
        r.0 >= work_area.left,
        r.1 >= work_area.top,
        overlay_size.0 + max(margin as int, 0) <= work_area.width ==> r.0 + overlay_size.0 + max(
            margin as int,
            0,
        ) == work_area.left + work_area.width,
        overlay_size.1 + max(margin as int, 0) <= work_area.height ==> r.1 + overlay_size.1 + max(
            margin as int,
            0,
        ) == work_area.top + work_area.height,
{
    let (overlay_width, overlay_height) = overlay_size;
    let margin = if margin < 0 {
        0
    } else {
        margin
    };
    let x0 = work_area.left + work_area.width - overlay_width - margin;
    let x = if x0 >= work_area.left {
        x0
    } else {
        work_area.left
    };
    let y0 = work_area.top + work_area.height - overlay_height - margin;
    let y = if y0 >= work_area.top {
        y0
    } else {
        work_area.top
    };
    (x, y)
}

/// An overlay that fits the work area with its margin lies wholly inside it,
/// its right and bottom edges `margin` away from the work area's.
pub proof fn law_overlay_inside_work_area(area: WorkArea, size: (i32, i32), margin: i32)
    requires
        size.0 >= 0,
        size.1 >= 0,
        size.0 + max(margin as int, 0) <= area.width,
        size.1 + max(margin as int, 0) <= area.height,
    ensures
        ({
            let (x, y) = overlay_origin(area, size, margin);
            &&& area.left <= x
            &&& x + size.0 <= area.left + area.width
            &&& area.top <= y
            &&& y + size.1 <= area.top + area.height
        }),
{
}

} // verus!

use vstd::prelude::*;
use crate::ui::window_manager::wm::{SnapZone, Window};

verus! {

/// The rectangle (x, y, width, height) of a snap zone on a screen of
/// `sw` x `sh` pixels: halves and quarters split at `sw / 2` and `sh / 2`,
/// the right and bottom parts taking the odd pixel.
pub open spec fn snap_geometry(zone: SnapZone, sw: u32, sh: u32) -> (u32, u32, u32, u32) {
    let hw = sw / 2;
    let hh = sh / 2;
    match zone {
        SnapZone::Left => (0, 0, hw, sh),
        SnapZone::Right => (hw, 0, (sw - hw) as u32, sh),
        SnapZone::TopLeft => (0, 0, hw, hh),
        SnapZone::TopRight => (hw, 0, (sw - hw) as u32, hh),
        SnapZone::BottomLeft => (0, hh, hw, (sh - hh) as u32),
        SnapZone::BottomRight => (hw, hh, (sw - hw) as u32, (sh - hh) as u32),
        SnapZone::Fullscreen => (0, 0, sw, sh),
    }
}

/// Compute the geometry (x, y, width, height) for a window snapped to a zone
/// within a screen of `screen_width` x `screen_height` pixels.
pub fn compute_snap_geometry(zone: &SnapZone, screen_width: u32, screen_height: u32) -> (r: (
    u32,
    u32,
    u32,
    u32,
))
    ensures
        r == snap_geometry(*zone, screen_width, screen_height),
{
    let hw = screen_width / 2;
    let hh = screen_height / 2;

    match zone {
        SnapZone::Left => (0, 0, hw, screen_height),
        SnapZone::Right => (hw, 0, screen_width - hw, screen_height),
        SnapZone::TopLeft => (0, 0, hw, hh),
        SnapZone::TopRight => (hw, 0, screen_width - hw, hh),
        SnapZone::BottomLeft => (0, hh, hw, screen_height - hh),
        SnapZone::BottomRight => (hw, hh, screen_width - hw, screen_height - hh),
        SnapZone::Fullscreen => (0, 0, screen_width, screen_height),
    }
}

/// Apply snap geometry to an existing window in place.
pub fn apply_snap(window: &mut Window, zone: &SnapZone, screen_width: u32, screen_height: u32)
    ensures
        (final(window).x, final(window).y, final(window).width, final(window).height)
            == snap_geometry(*zone, screen_width, screen_height),
        final(window).id == old(window).id,
        final(window).title == old(window).title,
{
    let (x, y, w, h) = compute_snap_geometry(zone, screen_width, screen_height);
    window.x = x;
    window.y = y;
    window.width = w;
    window.height = h;
}

/// Every snap zone lies within the screen.
pub proof fn law_snap_within_screen(zone: SnapZone, sw: u32, sh: u32)
    ensures
        snap_geometry(zone, sw, sh).0 + snap_geometry(zone, sw, sh).2 <= sw,
        snap_geometry(zone, sw, sh).1 + snap_geometry(zone, sw, sh).3 <= sh,
{
}

/// The left and right halves tile the screen: they meet at the split, span
/// its whole width and its whole height.
pub proof fn law_halves_tile(sw: u32, sh: u32)
    ensures
        snap_geometry(SnapZone::Left, sw, sh).0 == 0,
        snap_geometry(SnapZone::Right, sw, sh).0 == snap_geometry(SnapZone::Left, sw, sh).2,
        snap_geometry(SnapZone::Left, sw, sh).2 + snap_geometry(SnapZone::Right, sw, sh).2 == sw,
        snap_geometry(SnapZone::Left, sw, sh).3 == sh,
        snap_geometry(SnapZone::Right, sw, sh).3 == sh,
{
}

/// The four quarters tile the screen: the top ones meet the bottom ones at
/// the horizontal split, the left ones the right ones at the vertical split,
/// and each row and column spans the screen.
pub proof fn law_quarters_tile(sw: u32, sh: u32)
    ensures
        snap_geometry(SnapZone::TopRight, sw, sh).0 == snap_geometry(SnapZone::TopLeft, sw, sh).2,
        snap_geometry(SnapZone::BottomRight, sw, sh).0 == snap_geometry(
            SnapZone::BottomLeft,
            sw,
            sh,
        ).2,
        snap_geometry(SnapZone::TopLeft, sw, sh).2 + snap_geometry(SnapZone::TopRight, sw, sh).2
            == sw,
        snap_geometry(SnapZone::BottomLeft, sw, sh).2 + snap_geometry(
            SnapZone::BottomRight,
            sw,
            sh,
        ).2 == sw,
        snap_geometry(SnapZone::BottomLeft, sw, sh).1 == snap_geometry(SnapZone::TopLeft, sw, sh).3,
        snap_geometry(SnapZone::BottomRight, sw, sh).1 == snap_geometry(
            SnapZone::TopRight,
            sw,
            sh,
        ).3,
        snap_geometry(SnapZone::TopLeft, sw, sh).3 + snap_geometry(SnapZone::BottomLeft, sw, sh).3
            == sh,
        snap_geometry(SnapZone::TopRight, sw, sh).3 + snap_geometry(SnapZone::BottomRight, sw, sh).3
            == sh,
{
}

} // verus!

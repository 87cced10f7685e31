//! Hiding the overlays while another window is fullscreen: when a window counts as covering
//! its monitor, and when the monitor loop changes the overlays' visibility.
use vstd::prelude::*;

verus! {

/// How far, in pixels, a window may fall short of its monitor's edges and still count as
/// covering it.
pub const FULLSCREEN_TOLERANCE: i32 = 2;

/// A screen rectangle by its edges.
#[derive(Debug, Clone, Copy, PartialEq, Eq, Structural)]
pub struct ScreenRect {
    pub left: i32,
    pub top: i32,
    pub right: i32,
    pub bottom: i32,
}

/// The window reaches every edge of the monitor, within the tolerance.
pub open spec fn spec_covers_monitor(window: ScreenRect, monitor: ScreenRect) -> bool {
    &&& window.left <= monitor.left + FULLSCREEN_TOLERANCE
    &&& window.top <= monitor.top + FULLSCREEN_TOLERANCE
    &&& window.right >= monitor.right - FULLSCREEN_TOLERANCE
    &&& window.bottom >= monitor.bottom - FULLSCREEN_TOLERANCE
}

/// Whether the foreground window covers its monitor.
pub fn covers_monitor(window: ScreenRect, monitor: ScreenRect) -> (r: bool)
    ensures
        r == spec_covers_monitor(window, monitor),
{
    let tolerance = FULLSCREEN_TOLERANCE as i64;
    (window.left as i64) <= (monitor.left as i64) + tolerance && (window.top as i64) <= (
    monitor.top as i64) + tolerance && (window.right as i64) >= (monitor.right as i64) - tolerance
        && (window.bottom as i64) >= (monitor.bottom as i64) - tolerance
}

/// One turn of the monitor loop: the overlays are hidden in safe mode or while a window is
/// fullscreen; the turn gives whether they are hidden now and, when that changed since the
/// last turn, the visibility to apply.
pub open spec fn monitor_outcome(last_hidden: Option<bool>, safe_mode: bool, fullscreen: bool) -> (
    bool,
    Option<bool>,
) {
    let hidden = safe_mode || fullscreen;
    (
        hidden,
        if last_hidden == Some(hidden) {
            None
        } else {
            Some(!hidden)
        },
    )
}

pub fn monitor_step(last_hidden: Option<bool>, safe_mode: bool, fullscreen: bool) -> (r: (
    bool,
    Option<bool>,
))
    ensures
        r == monitor_outcome(last_hidden, safe_mode, fullscreen),
{
    let hidden = safe_mode || fullscreen;
    let unchanged = match last_hidden {
        Some(previous) => previous == hidden,
        None => false,
    };
    if unchanged {
        (hidden, None)
    } else {
        (hidden, Some(!hidden))
    }
}

/// Safe mode always hides the overlays: a turn in safe mode never shows them, and once they
/// are hidden it applies nothing.
pub proof fn law_safe_mode_never_shows_overlays(last_hidden: Option<bool>, fullscreen: bool)
    ensures
        monitor_outcome(last_hidden, true, fullscreen).0,
        monitor_outcome(last_hidden, true, fullscreen).1 != Some(true),
        last_hidden == Some(true) ==> monitor_outcome(last_hidden, true, fullscreen).1 is None,
{
}


/// A window that stops more than 2 pixels short of any edge of its monitor does not cover it:
/// a maximized window above a taskbar is not fullscreen.
pub proof fn law_window_short_of_an_edge_does_not_cover(window: ScreenRect, monitor: ScreenRect)
    requires
        window.left > monitor.left + 2 || window.top > monitor.top + 2 || window.right
            < monitor.right - 2 || window.bottom < monitor.bottom - 2,
    ensures
        !spec_covers_monitor(window, monitor),
{
}

/// A window that reaches every edge of its monitor, or goes past it, covers it.
pub proof fn law_window_over_the_whole_monitor_covers(window: ScreenRect, monitor: ScreenRect)
    requires
        window.left <= monitor.left,
        window.top <= monitor.top,
        window.right >= monitor.right,
        window.bottom >= monitor.bottom,
    ensures
        spec_covers_monitor(window, monitor),
{
}

} // verus!

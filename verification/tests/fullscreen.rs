use aip_desktop::fullscreen::{covers_monitor, monitor_step, ScreenRect};

fn rect(left: i32, top: i32, right: i32, bottom: i32) -> ScreenRect {
    ScreenRect { left, top, right, bottom }
}

#[test]
fn windows_covering_the_monitor_within_tolerance_are_fullscreen() {
    let monitor = rect(0, 0, 1920, 1080);
    assert!(covers_monitor(rect(0, 0, 1920, 1080), monitor));
    assert!(covers_monitor(rect(2, 2, 1918, 1078), monitor));
    assert!(covers_monitor(rect(-8, -8, 1928, 1088), monitor));
    assert!(!covers_monitor(rect(3, 0, 1920, 1080), monitor));
    assert!(!covers_monitor(rect(0, 0, 1917, 1080), monitor));
    assert!(covers_monitor(rect(i32::MIN, i32::MIN, i32::MAX, i32::MAX), rect(i32::MIN, i32::MIN, i32::MAX, i32::MAX)));
}

#[test]
fn the_monitor_loop_applies_only_changes() {
    assert_eq!(monitor_step(None, false, false), (false, Some(true)));
    assert_eq!(monitor_step(Some(false), false, false), (false, None));
    assert_eq!(monitor_step(Some(false), false, true), (true, Some(false)));
    assert_eq!(monitor_step(Some(true), true, false), (true, None));
    assert_eq!(monitor_step(Some(true), false, false), (false, Some(true)));
}

#[test]
fn safe_mode_never_shows_the_overlays() {
    for last in [None, Some(false), Some(true)] {
        for fullscreen in [false, true] {
            let (hidden, change) = monitor_step(last, true, fullscreen);
            assert!(hidden);
            assert_ne!(change, Some(true));
        }
    }
    assert_eq!(monitor_step(Some(true), true, true), (true, None));
}

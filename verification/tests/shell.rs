use swd::hit_test::{hit_test_step, HitTestStep, IGNORE_CURSOR_AT_START};
use swd::monitor::{select_target_monitor, MonitorInfo};
use swd::system_info::network_totals;
use swd::tray::{toggle_visibility, tray_action, TrayAction, VisibilityChange, QUIT_ID, SETTINGS_ID, TOGGLE_VISIBILITY_ID};
use swd::window_layer::{is_layer_relevant_message, WM_DISPLAYCHANGE, WM_DPICHANGED};

fn mon(x: i32, width: u32) -> MonitorInfo {
    MonitorInfo { x, y: 0, width, height: 1080 }
}

#[test]
fn rightmost_monitor_is_chosen() {
    let ms = vec![mon(0, 1920), mon(1920, 2560), mon(-1920, 1920)];
    assert_eq!(select_target_monitor(&ms), Some(mon(1920, 2560)));
}

#[test]
fn last_of_equally_right_monitors_is_chosen() {
    let ms = vec![mon(100, 1), mon(100, 2), mon(50, 3)];
    assert_eq!(select_target_monitor(&ms), Some(mon(100, 2)));
}

#[test]
fn no_monitor_no_choice() {
    assert_eq!(select_target_monitor(&Vec::new()), None);
}

#[test]
fn click_through_switches_only_on_crossing() {
    assert!(IGNORE_CURSOR_AT_START);
    let s = hit_test_step(true, true);
    assert_eq!(s, HitTestStep { ignore_cursor: false, switch_to: Some(false) });
    let s2 = hit_test_step(s.ignore_cursor, true);
    assert_eq!(s2, HitTestStep { ignore_cursor: false, switch_to: None });
    let s3 = hit_test_step(s2.ignore_cursor, false);
    assert_eq!(s3, HitTestStep { ignore_cursor: true, switch_to: Some(true) });
    assert_eq!(hit_test_step(true, false), HitTestStep { ignore_cursor: true, switch_to: None });
}

#[test]
fn network_bytes_are_totalled() {
    assert_eq!(network_totals(&vec![(100, 5), (20, 7), (0, 0)]), Some((120, 12)));
    assert_eq!(network_totals(&Vec::new()), Some((0, 0)));
}

#[test]
fn network_total_overflow_is_reported() {
    assert_eq!(network_totals(&vec![(u64::MAX, 0), (1, 0)]), None);
    assert_eq!(network_totals(&vec![(0, u64::MAX), (0, 1)]), None);
    assert_eq!(network_totals(&vec![(u64::MAX, u64::MAX)]), Some((u64::MAX, u64::MAX)));
}

#[test]
fn tray_menu_ids_map_to_actions() {
    assert_eq!(tray_action(TOGGLE_VISIBILITY_ID), Some(TrayAction::ToggleVisibility));
    assert_eq!(tray_action(SETTINGS_ID), Some(TrayAction::OpenSettings));
    assert_eq!(tray_action(QUIT_ID), Some(TrayAction::Quit));
    assert_eq!(tray_action("toggle-visibility"), Some(TrayAction::ToggleVisibility));
    assert_eq!(tray_action("quit!"), None);
    assert_eq!(tray_action(""), None);
}

#[test]
fn show_hide_flips_visibility() {
    assert_eq!(toggle_visibility(Some(true)), VisibilityChange::Hide);
    assert_eq!(toggle_visibility(Some(false)), VisibilityChange::Show);
    assert_eq!(toggle_visibility(None), VisibilityChange::Hide);
}

#[test]
fn relevant_window_messages() {
    assert_eq!(WM_DISPLAYCHANGE, 0x007E);
    assert_eq!(WM_DPICHANGED, 0x02E0);
    assert!(is_layer_relevant_message(WM_DISPLAYCHANGE, 0));
    assert!(is_layer_relevant_message(WM_DPICHANGED, 0xC0DE));
    assert!(is_layer_relevant_message(0xC0DE, 0xC0DE));
    assert!(!is_layer_relevant_message(0, 0));
    assert!(!is_layer_relevant_message(0x0010, 0xC0DE));
}

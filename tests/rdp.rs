use hyperv_provisioner::rdp::{
    center_position, find_main_window, find_zoom_command, is_zoom_label, is_zoom_label_folded,
    label_has_level, select_zoom_command, zoom_target_string, MenuEntry, WindowCandidate,
    ZoomAction, ZoomEvent, ZoomPhase, ZoomSession,
};

fn entry(index: u32, text: &str, command_id: u32, is_submenu: bool) -> MenuEntry {
    MenuEntry { index, text: text.to_string(), command_id, is_submenu }
}

#[test]
fn centering_on_a_larger_screen() {
    assert_eq!(center_position(1920, 1080, 800, 600), (560, 240));
    assert_eq!(center_position(1921, 1081, 800, 600), (560, 240));
}

#[test]
fn centering_a_window_larger_than_the_screen() {
    assert_eq!(center_position(1280, 720, 2560, 1440), (0, 0));
    assert_eq!(center_position(1280, 720, 1281, 100), (0, 310));
}

#[test]
fn centering_extremes_do_not_overflow() {
    assert_eq!(center_position(i32::MAX, 0, i32::MIN, i32::MAX), (i32::MAX, 0));
}

#[test]
fn main_window_is_the_first_visible_one_of_the_process() {
    let ws = vec![
        WindowCandidate { handle: 10, process_id: 5, visible: true },
        WindowCandidate { handle: 11, process_id: 7, visible: false },
        WindowCandidate { handle: 12, process_id: 7, visible: true },
        WindowCandidate { handle: 13, process_id: 7, visible: true },
    ];
    assert_eq!(find_main_window(&ws, 7), Some(12));
    assert_eq!(find_main_window(&ws, 9), None);
}

#[test]
fn zoom_labels() {
    assert!(is_zoom_label("&Zoom"));
    assert!(is_zoom_label("THU PHÓNG"));
    assert!(!is_zoom_label("Move"));
    assert!(is_zoom_label_folded("zoom"));
    assert!(!is_zoom_label_folded("Zoom"));
    assert_eq!(zoom_target_string(100), "100%");
}

#[test]
fn level_matching_is_not_fooled_by_longer_numbers() {
    assert!(label_has_level("100%", "100%"));
    assert!(label_has_level("Zoom 100% (default)", "100%"));
    assert!(!label_has_level("1000%", "100%"));
    assert!(!label_has_level("1100%", "100%"));
    assert!(!label_has_level("75%", "100%"));
}

#[test]
fn zoom_request_posts_the_exact_level() {
    let top = vec![
        entry(0, "&Restore", 61728, false),
        entry(1, "&Move", 61456, false),
        entry(2, "&Zoom", 0, true),
        entry(3, "&Close", 61536, false),
    ];
    let zoom = vec![
        entry(0, "50%", 501, false),
        entry(1, "75%", 751, false),
        entry(2, "1000%", 9999, false),
        entry(3, "100%", 1001, false),
        entry(4, "Fit Window", 42, false),
    ];
    let subs = vec![vec![], vec![], zoom, vec![]];
    assert_eq!(find_zoom_command(&top, &subs, 100), Some(1001));
    assert_eq!(find_zoom_command(&top, &subs, 75), Some(751));
    assert_eq!(find_zoom_command(&top, &subs, 125), None);
}

#[test]
fn zoom_entry_outside_a_zoom_menu_is_ignored() {
    let subs = vec![vec![entry(0, "100%", 1, false)], vec![entry(0, "100%", 2, false)]];
    assert_eq!(select_zoom_command(&vec![false, true], &subs, 100), Some(2));
    assert_eq!(select_zoom_command(&vec![false, false], &subs, 100), None);
}

#[test]
fn zoom_session_success_path() {
    let mut s = ZoomSession::new(77, 100);
    assert_eq!(s.step(ZoomEvent::Tick { elapsed_ms: 0 }), ZoomAction::SearchWindow);
    assert_eq!(s.step(ZoomEvent::WindowSearched { found: false }), ZoomAction::Sleep { ms: 500 });
    assert_eq!(s.step(ZoomEvent::Tick { elapsed_ms: 500 }), ZoomAction::SearchWindow);
    assert_eq!(s.step(ZoomEvent::WindowSearched { found: true }), ZoomAction::ApplyZoomAfter { ms: 1500 });
    assert_eq!(s.phase, ZoomPhase::Found);
    assert_eq!(s.step(ZoomEvent::ZoomPosted { posted: false }), ZoomAction::Sleep { ms: 500 });
    assert_eq!(s.phase, ZoomPhase::Searching);
    assert_eq!(s.step(ZoomEvent::Tick { elapsed_ms: 2500 }), ZoomAction::SearchWindow);
    assert_eq!(s.step(ZoomEvent::WindowSearched { found: true }), ZoomAction::ApplyZoomAfter { ms: 1500 });
    assert_eq!(s.step(ZoomEvent::ZoomPosted { posted: true }), ZoomAction::CenterAfter { ms: 500 });
    assert_eq!(s.step(ZoomEvent::WindowCentered), ZoomAction::Stop);
    assert_eq!(s.phase, ZoomPhase::Centered);
    assert!(s.is_finished());
}

#[test]
fn zoom_session_times_out() {
    let mut s = ZoomSession::new(1, 100);
    assert_eq!(s.step(ZoomEvent::Tick { elapsed_ms: 29999 }), ZoomAction::SearchWindow);
    assert_eq!(s.step(ZoomEvent::WindowSearched { found: false }), ZoomAction::Sleep { ms: 500 });
    assert_eq!(s.step(ZoomEvent::Tick { elapsed_ms: 30000 }), ZoomAction::Stop);
    assert_eq!(s.phase, ZoomPhase::TimedOut);
    assert!(s.is_finished());
    assert_eq!(s.step(ZoomEvent::Tick { elapsed_ms: 0 }), ZoomAction::Stop);
    assert_eq!(s.phase, ZoomPhase::TimedOut);
}

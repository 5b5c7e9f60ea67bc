use rust_expander::quick_switch::{ensure_trailing_backslash, is_passthrough_class, FocusState, Navigation};

#[test]
fn test_focus_state_initial_is_none() {
    let state = FocusState::new();
    assert!(state.last_explorer_hwnd.is_none());
}

#[test]
fn test_passthrough_classes_contains_transient_windows() {
    assert!(is_passthrough_class("Shell_TrayWnd"));
    assert!(is_passthrough_class("Shell_SecondaryTrayWnd"));
    assert!(is_passthrough_class("Progman"));
    assert!(is_passthrough_class("WorkerW"));
    assert!(is_passthrough_class("XamlExplorerHostIslandWindow"));
    assert!(is_passthrough_class("TaskListThumbnailWnd"));
    assert!(is_passthrough_class("MultitaskingViewFrame"));
    assert!(is_passthrough_class("ForegroundStaging"));
}

#[test]
fn test_passthrough_classes_rejects_actual_apps() {
    assert!(!is_passthrough_class("CabinetWClass"));
    assert!(!is_passthrough_class("#32770"));
    assert!(!is_passthrough_class("Notepad"));
    assert!(!is_passthrough_class("Chrome_WidgetWin_1"));
    assert!(!is_passthrough_class(""));
}

#[test]
fn test_ensure_trailing_backslash() {
    assert_eq!(ensure_trailing_backslash(r"C:\Users\User\Documents".to_string()), r"C:\Users\User\Documents\");
    assert_eq!(ensure_trailing_backslash(r"C:\Users\User\Documents\".to_string()), r"C:\Users\User\Documents\");
    assert_eq!(ensure_trailing_backslash(r"C:\Påske\Båd".to_string()), r"C:\Påske\Båd\");
    assert_eq!(ensure_trailing_backslash("".to_string()), "");
}

#[test]
fn explorer_then_dialog_navigates() {
    let mut st = FocusState::new();
    assert_eq!(st.on_foreground(true, 10, "CabinetWClass"), None);
    assert_eq!(st.last_explorer_hwnd, Some(10));
    assert_eq!(
        st.on_foreground(true, 20, "#32770"),
        Some(Navigation { explorer: 10, dialog: 20 })
    );
    assert_eq!(st.last_explorer_hwnd, None);
    // A second dialog focus does not navigate again.
    assert_eq!(st.on_foreground(true, 20, "#32770"), None);
}

#[test]
fn passthrough_window_keeps_sequence() {
    let mut st = FocusState::new();
    st.on_foreground(true, 10, "CabinetWClass");
    assert_eq!(st.on_foreground(true, 30, "Shell_TrayWnd"), None);
    assert_eq!(st.on_foreground(true, 0, "Notepad"), None);
    assert_eq!(
        st.on_foreground(true, 20, "#32770"),
        Some(Navigation { explorer: 10, dialog: 20 })
    );
}

#[test]
fn intervening_app_resets_sequence() {
    let mut st = FocusState::new();
    st.on_foreground(true, 10, "CabinetWClass");
    assert_eq!(st.on_foreground(true, 40, "Notepad"), None);
    assert_eq!(st.last_explorer_hwnd, None);
    assert_eq!(st.on_foreground(true, 20, "#32770"), None);
}

#[test]
fn disabled_quick_switch_forgets_explorer() {
    let mut st = FocusState::new();
    st.on_foreground(true, 10, "CabinetWClass");
    assert_eq!(st.on_foreground(false, 20, "#32770"), None);
    assert_eq!(st.last_explorer_hwnd, None);
}

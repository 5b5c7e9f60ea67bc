use rust_expander::config::{
    choose_config_dir, default_buffer_size, default_case_changer_enabled,
    default_case_changer_hotkey, default_clipboard_restore_delay_ms, default_config,
    default_language, default_true, move_copies, registry_delete_outcome, registry_open_outcome,
    registry_size_outcome, registry_value_outcome, registry_value_path, settle_loaded_config,
    uninstall_cleanup, AppConfig, ExpansionMode, HotkeyConfig,
};
use rust_expander::unicode::{is_control, is_whitespace, utf16_lossy};

#[test]
fn test_default_config_values() {
    let config = default_config();
    assert_eq!(config.language, "en");
    assert_eq!(config.hotkey.modifiers, 6);
    assert_eq!(config.hotkey.virtual_key, 0x54);
    assert_eq!(config.buffer_size, 10);
    assert_eq!(config.clipboard_restore_delay_ms, 150);
    assert!(config.quick_switch_enabled, "quick_switch_enabled should default to true");
    assert!(config.snippet_hotkey_enabled, "snippet_hotkey_enabled should default to true");
    assert_eq!(config.snippets.len(), 3);
    assert_eq!(config.snippets[0].trigger, ".sig");
    assert_eq!(config.snippets[0].mode, ExpansionMode::Immediate);
    assert_eq!(config.snippets[1].trigger, ".em");
    assert_eq!(config.snippets[1].mode, ExpansionMode::Immediate);
    assert_eq!(config.snippets[2].trigger, "jd");
    assert_eq!(config.snippets[2].mode, ExpansionMode::Hotkey);
}

fn minimal_config(buffer_size: usize) -> AppConfig {
    AppConfig {
        language: "en".to_string(),
        hotkey: HotkeyConfig { modifiers: 6, virtual_key: 84 },
        buffer_size,
        clipboard_restore_delay_ms: 150,
        snippet_hotkey_enabled: true,
        quick_switch_enabled: true,
        case_changer_enabled: true,
        case_changer_hotkey: HotkeyConfig { modifiers: 2, virtual_key: 0x14 },
        snippets: Vec::new(),
    }
}

#[test]
fn default_field_helpers() {
    assert!(default_true());
    assert_eq!(default_language(), "en");
    assert_eq!(default_buffer_size(), 10);
    assert_eq!(default_clipboard_restore_delay_ms(), 150);
    assert!(default_case_changer_enabled());
    assert_eq!(default_case_changer_hotkey(), HotkeyConfig { modifiers: 2, virtual_key: 0x14 });
}

#[test]
fn default_config_other_fields() {
    let config = default_config();
    assert!(config.case_changer_enabled);
    assert_eq!(config.case_changer_hotkey, HotkeyConfig { modifiers: 2, virtual_key: 0x14 });
    assert_eq!(config.snippets[0].replacement, "Regards,\nJohn Doe");
    assert_eq!(config.snippets[1].replacement, "john.doe@example.com");
    assert_eq!(config.snippets[2].replacement, "With kind regards and sincerely - John Doe");
}

#[test]
fn loaded_buffer_size_is_clamped() {
    let r: Result<AppConfig, String> = settle_loaded_config(Ok(minimal_config(0)), None::<Result<AppConfig, ()>>);
    assert_eq!(r.unwrap().buffer_size, 1);
    let r: Result<AppConfig, String> = settle_loaded_config(Ok(minimal_config(99999)), None::<Result<AppConfig, ()>>);
    assert_eq!(r.unwrap().buffer_size, 256);
    let r: Result<AppConfig, String> = settle_loaded_config(Ok(minimal_config(64)), None::<Result<AppConfig, ()>>);
    assert_eq!(r.unwrap().buffer_size, 64);
}

#[test]
fn corrupt_config_falls_back_to_backup() {
    let r: Result<AppConfig, String> =
        settle_loaded_config(Err("bad".to_string()), Some(Ok::<AppConfig, ()>(minimal_config(300))));
    assert_eq!(r.unwrap().buffer_size, 256);
}

#[test]
fn corrupt_config_and_backup_report_primary_error() {
    let r: Result<AppConfig, String> =
        settle_loaded_config(Err("bad".to_string()), Some(Err::<AppConfig, String>("worse".to_string())));
    assert_eq!(r, Err("bad".to_string()));
    let r: Result<AppConfig, String> = settle_loaded_config(Err("bad".to_string()), None::<Result<AppConfig, ()>>);
    assert_eq!(r, Err("bad".to_string()));
}

#[test]
fn config_dir_resolution() {
    let exe = "C:\\Apps".to_string();
    let appdata = "C:\\AppData\\aiVOLUTION\\dotXPANDER".to_string();
    assert_eq!(
        choose_config_dir(Ok(Some("D:\\Cloud".to_string())), exe.clone(), appdata.clone()),
        ("D:\\Cloud".to_string(), false)
    );
    assert_eq!(choose_config_dir(Ok(None), exe.clone(), appdata.clone()), (exe.clone(), true));
    assert_eq!(choose_config_dir(Err(5), exe, appdata.clone()), (appdata, false));
}

#[test]
fn registry_value_decoding() {
    let units: Vec<u16> = "D:\\Cloud".encode_utf16().chain([0, 0]).collect();
    assert_eq!(registry_value_path(&units), Some("D:\\Cloud".to_string()));
    let no_nul: Vec<u16> = "abc".encode_utf16().collect();
    assert_eq!(registry_value_path(&no_nul), Some("abc".to_string()));
    assert_eq!(registry_value_path(&[0, 65]), None);
    assert_eq!(registry_value_path(&[]), None);
}

#[test]
fn registry_value_decodes_surrogates_lossily() {
    // U+1F600 as a pair, 'A', an unpaired high surrogate, 'B', an unpaired low one.
    let units = [0xD83D, 0xDE00, 0x41, 0xD800, 0x42, 0xDC00, 0, 0x43];
    assert_eq!(registry_value_path(&units), Some("\u{1F600}A\u{FFFD}B\u{FFFD}".to_string()));
}

#[test]
fn registry_read_outcomes() {
    assert_eq!(registry_open_outcome(0), None);
    assert_eq!(registry_open_outcome(2), Some(Ok(None)));
    assert_eq!(registry_open_outcome(3), Some(Ok(None)));
    assert_eq!(registry_open_outcome(5), Some(Err(5)));
    assert_eq!(registry_size_outcome(0), None);
    assert_eq!(registry_size_outcome(2), Some(Ok(None)));
    assert_eq!(registry_size_outcome(3), Some(Err(3)));
    let units: Vec<u16> = "C:\\x\0".encode_utf16().collect();
    assert_eq!(registry_value_outcome(0, 1, &units), Ok(Some("C:\\x".to_string())));
    assert_eq!(registry_value_outcome(0, 2, &units), Err(0xDEAD_0001));
    assert_eq!(registry_value_outcome(234, 1, &units), Err(234));
    assert_eq!(registry_value_outcome(0, 1, &[0]), Ok(None));
    assert_eq!(registry_delete_outcome(0), Ok(()));
    assert_eq!(registry_delete_outcome(2), Ok(()));
    assert_eq!(registry_delete_outcome(5), Err(5));
}

#[test]
fn uninstall_and_move_decisions() {
    assert_eq!(uninstall_cleanup(false, true, true), (true, true));
    assert_eq!(uninstall_cleanup(false, false, true), (true, false));
    assert_eq!(uninstall_cleanup(true, true, false), (false, false));
    assert_eq!(move_copies(true, true, false, true, true), None);
    assert_eq!(move_copies(false, true, true, false, true), Some((false, false, true)));
    assert_eq!(move_copies(false, true, false, true, false), Some((true, true, false)));
}

#[test]
fn whitespace_and_control_classes_match_std() {
    for u in 0u32..0x3100 {
        if let Some(c) = char::from_u32(u) {
            assert_eq!(is_whitespace(c), c.is_whitespace(), "{u:#x}");
            assert_eq!(is_control(c), c.is_control(), "{u:#x}");
        }
    }
    for c in ['\u{FEFF}', '\u{180E}', '\u{10FFFF}', '\u{E000}'] {
        assert_eq!(is_whitespace(c), c.is_whitespace());
        assert_eq!(is_control(c), c.is_control());
    }
}

#[test]
fn utf16_decoding_matches_std() {
    let samples: [&[u16]; 7] = [
        &[],
        &[0x41, 0x42],
        &[0xD83D, 0xDE00],
        &[0xD83D],
        &[0xDE00, 0xD83D, 0x41],
        &[0xD800, 0xD800, 0xDC00, 0xDBFF, 0xDFFF],
        &[0xE000, 0xFFFF, 0x0, 0xFFFD, 0xDC00],
    ];
    for units in samples {
        assert_eq!(utf16_lossy(units), String::from_utf16_lossy(units), "{units:?}");
    }
    for a in [0x41u16, 0xD7FF, 0xD800, 0xDBFF, 0xDC00, 0xDFFF, 0xE000] {
        for b in [0x41u16, 0xD800, 0xDC00, 0xDFFF] {
            for c in [0xDC00u16, 0x42] {
                let units = [a, b, c];
                assert_eq!(utf16_lossy(&units), String::from_utf16_lossy(&units));
            }
        }
    }
}

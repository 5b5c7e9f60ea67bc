use rust_expander::i18n::{english_strings, get_strings, Strings};

fn assert_all_fields_non_empty(s: &Strings, lang: &str) {
    assert!(!s.window_title.is_empty(), "window_title empty for {lang}");
    assert!(!s.header.is_empty(), "header empty for {lang}");
    assert!(!s.hotkey_label.is_empty(), "hotkey_label empty for {lang}");
    assert!(!s.hotkey_save.is_empty(), "hotkey_save empty for {lang}");
    assert!(!s.hotkey_prompt.is_empty(), "hotkey_prompt empty for {lang}");
    assert!(!s.buffer_label.is_empty(), "buffer_label empty for {lang}");
    assert!(!s.buffer_empty.is_empty(), "buffer_empty empty for {lang}");
    assert!(!s.col_trigger.is_empty(), "col_trigger empty for {lang}");
    assert!(!s.col_trigger_tooltip.is_empty(), "col_trigger_tooltip empty for {lang}");
    assert!(!s.col_replacement.is_empty(), "col_replacement empty for {lang}");
    assert!(!s.col_mode.is_empty(), "col_mode empty for {lang}");
    assert!(!s.mode_immediate.is_empty(), "mode_immediate empty for {lang}");
    assert!(!s.mode_hotkey.is_empty(), "mode_hotkey empty for {lang}");
    assert!(!s.btn_delete.is_empty(), "btn_delete empty for {lang}");
    assert!(!s.btn_add.is_empty(), "btn_add empty for {lang}");
    assert!(!s.btn_quit.is_empty(), "btn_quit empty for {lang}");
    assert!(!s.btn_pause.is_empty(), "btn_pause empty for {lang}");
    assert!(!s.btn_resume.is_empty(), "btn_resume empty for {lang}");
    assert!(!s.btn_pause_tooltip.is_empty(), "btn_pause_tooltip empty for {lang}");
    assert!(!s.btn_cancel.is_empty(), "btn_cancel empty for {lang}");
    assert!(!s.btn_save.is_empty(), "btn_save empty for {lang}");
    assert!(!s.tray_tooltip.is_empty(), "tray_tooltip empty for {lang}");
    assert!(!s.tray_open.is_empty(), "tray_open empty for {lang}");
    assert!(!s.tray_quit.is_empty(), "tray_quit empty for {lang}");
    assert!(!s.err_needs_mod.is_empty(), "err_needs_mod empty for {lang}");
    assert!(!s.err_ctrl_reserved.is_empty(), "err_ctrl_reserved empty for {lang}");
    assert!(!s.err_sys_reserved.is_empty(), "err_sys_reserved empty for {lang}");
    assert!(!s.err_win_reserved.is_empty(), "err_win_reserved empty for {lang}");
    assert!(!s.err_conflict.is_empty(), "err_conflict empty for {lang}");
    assert!(!s.uninstall_btn.is_empty(), "uninstall_btn empty for {lang}");
    assert!(!s.uninstall_tooltip.is_empty(), "uninstall_tooltip empty for {lang}");
    assert!(!s.uninstall_title.is_empty(), "uninstall_title empty for {lang}");
    assert!(!s.uninstall_body.is_empty(), "uninstall_body empty for {lang}");
    assert!(!s.btn_cancel_tooltip.is_empty(), "btn_cancel_tooltip empty for {lang}");
    assert!(!s.hotkey_label_tooltip.is_empty(), "hotkey_label_tooltip empty for {lang}");
    assert!(!s.hotkey_reset_tooltip.is_empty(), "hotkey_reset_tooltip empty for {lang}");
    assert!(!s.case_changer_reset_tooltip.is_empty(), "case_changer_reset_tooltip empty for {lang}");
    assert!(!s.quick_switch_label.is_empty(), "quick_switch_label empty for {lang}");
    assert!(!s.quick_switch_tooltip.is_empty(), "quick_switch_tooltip empty for {lang}");
    assert!(!s.case_menu_uppercase.is_empty(), "case_menu_uppercase empty for {lang}");
    assert!(!s.case_menu_lowercase.is_empty(), "case_menu_lowercase empty for {lang}");
    assert!(!s.case_menu_title_case.is_empty(), "case_menu_title_case empty for {lang}");
    assert!(!s.case_menu_sentence_case.is_empty(), "case_menu_sentence_case empty for {lang}");
    assert!(!s.case_menu_fix_linebreaks.is_empty(), "case_menu_fix_linebreaks empty for {lang}");
    assert!(!s.case_menu_spaces_submenu.is_empty(), "case_menu_spaces_submenu empty for {lang}");
    assert!(!s.case_menu_remove_spaces.is_empty(), "case_menu_remove_spaces empty for {lang}");
    assert!(!s.case_menu_space_to_underscore.is_empty(), "case_menu_space_to_underscore empty for {lang}");
    assert!(!s.case_menu_space_to_dash.is_empty(), "case_menu_space_to_dash empty for {lang}");
    assert!(!s.case_menu_lower_camel.is_empty(), "case_menu_lower_camel empty for {lang}");
    assert!(!s.case_menu_pascal_case.is_empty(), "case_menu_pascal_case empty for {lang}");
    assert!(!s.case_menu_windows_filename.is_empty(), "case_menu_windows_filename empty for {lang}");
    assert!(!s.case_menu_all_chars_invalid.is_empty(), "case_menu_all_chars_invalid empty for {lang}");
    assert!(!s.case_changer_label.is_empty(), "case_changer_label empty for {lang}");
    assert!(!s.case_changer_tooltip.is_empty(), "case_changer_tooltip empty for {lang}");
    assert!(!s.tab_general.is_empty(), "tab_general empty for {lang}");
    assert!(!s.tab_snippets.is_empty(), "tab_snippets empty for {lang}");
    assert!(!s.section_hotkey.is_empty(), "section_hotkey empty for {lang}");
    assert!(!s.section_features.is_empty(), "section_features empty for {lang}");
    assert!(!s.mode_portable.is_empty(), "mode_portable empty for {lang}");
    assert!(!s.mode_installed.is_empty(), "mode_installed empty for {lang}");
    assert!(!s.move_config_btn.is_empty(), "move_config_btn empty for {lang}");
    assert!(!s.move_config_tooltip.is_empty(), "move_config_tooltip empty for {lang}");
    assert!(!s.mode_portable_tooltip.is_empty(), "mode_portable_tooltip empty for {lang}");
    assert!(!s.tab_about.is_empty(), "tab_about empty for {lang}");
    assert!(!s.about_tagline.is_empty(), "about_tagline empty for {lang}");
    assert!(!s.about_developed_by.is_empty(), "about_developed_by empty for {lang}");
    assert!(!s.about_btn_website.is_empty(), "about_btn_website empty for {lang}");
    assert!(!s.about_btn_github.is_empty(), "about_btn_github empty for {lang}");
    assert!(!s.about_license.is_empty(), "about_license empty for {lang}");
    assert!(!s.about_disclaimer_title.is_empty(), "about_disclaimer_title empty for {lang}");
    assert!(!s.about_disclaimer_text.is_empty(), "about_disclaimer_text empty for {lang}");
}

#[test]
fn test_english_strings_fully_populated() {
    let strings = get_strings("en");
    assert_all_fields_non_empty(&strings, "en");
    assert_eq!(strings.window_title, ".XPANDER - Settings");
}

#[test]
fn test_danish_strings_fully_populated() {
    let strings = get_strings("da");
    assert_all_fields_non_empty(&strings, "da");
    assert_eq!(strings.window_title, ".XPANDER - Indstillinger");
}

#[test]
fn test_unknown_language_falls_back_to_english() {
    let fallback = get_strings("xyz_unknown");
    assert_eq!(fallback.window_title, english_strings().window_title);
    assert_eq!(fallback.header, english_strings().header);
    assert_eq!(fallback.quick_switch_label, english_strings().quick_switch_label);
}

#[test]
fn test_danish_strings_contain_danish_characters() {
    let da = get_strings("da");
    // Verify genuine Danish characters (æ, ø, å / Æ, Ø, Å) are present
    assert!(da.tray_open.contains('Å'), "Expected Å in tray_open");
    assert!(da.btn_cancel_tooltip.contains('æ'), "Expected æ in btn_cancel_tooltip");
    assert!(da.btn_add.contains('ø'), "Expected ø in btn_add");
    assert!(da.quick_switch_tooltip.contains('Å'), "Expected Å in quick_switch_tooltip");
    assert!(da.about_tagline.contains('æ'), "Expected æ in about_tagline");
    assert!(da.about_disclaimer_title.contains('å'), "Expected å in about_disclaimer_title");
}

#[test]
fn test_about_tab_strings_content() {
    let en = get_strings("en");
    assert!(en.tab_about.contains("About"));
    assert_eq!(en.about_btn_website, "User Guide & FAQ");
    assert_eq!(en.about_btn_github, "GitHub");
    assert_eq!(en.about_license, "MIT License");
    assert!(en.about_disclaimer_text.contains("aiVOLUTION"));
    assert!(en.about_disclaimer_text.contains("without warranty"));

    let da = get_strings("da");
    assert!(da.tab_about.contains("Om"));
    assert_eq!(da.about_btn_website, "User Guide & FAQ");
    assert_eq!(da.about_btn_github, "GitHub");
    assert_eq!(da.about_license, "MIT-licens");
    assert!(da.about_disclaimer_text.contains("aiVOLUTION"));
    assert!(da.about_disclaimer_text.contains("uden nogen form for garanti"));
}

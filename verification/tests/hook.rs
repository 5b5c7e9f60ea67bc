use rust_expander::buffer::KeyBuffer;
use rust_expander::config::{default_config, ExpansionMode, HotkeyConfig, Snippet};
use rust_expander::hook::{
    classify_key, decide_key_down, is_examined_event, modifier_display, modifier_mask, on_loop_message,
    on_registered_hotkey, on_typed_chars, with_pressed_key, HookAction, KeyClass, KeyDown, LoopAction,
    WM_HOTKEY_MESSAGE, WM_QUIT_MESSAGE, WM_REHOOK, WM_SHOW_CASE_MENU,
};

fn key(vk: u32, ctrl: bool, alt: bool, shift: bool, win: bool) -> KeyDown {
    KeyDown { vk, ctrl, alt, shift, win }
}

fn typed(buf: &mut KeyBuffer, text: &str) {
    for c in text.chars() {
        buf.push(c);
    }
}

#[test]
fn modifier_mask_values() {
    assert_eq!(modifier_mask(false, false, false, false), 0);
    assert_eq!(modifier_mask(true, false, true, false), 6);
    assert_eq!(modifier_mask(true, true, true, true), 15);
    assert_eq!(modifier_mask(false, true, false, false), 1);
}

#[test]
fn pressed_modifier_counts_as_held() {
    let e = with_pressed_key(key(0xA2, false, false, false, false));
    assert!(e.ctrl && !e.alt && !e.shift && !e.win);
    let e = with_pressed_key(key(0x5C, false, false, false, false));
    assert!(e.win);
    let e = with_pressed_key(key(0x41, false, true, false, false));
    assert!(e.alt && !e.ctrl);
}

#[test]
fn modifier_display_text() {
    assert_eq!(modifier_display(true, true, false, false), Some("CTRL + ALT".to_string()));
    assert_eq!(modifier_display(false, false, true, true), Some("SHIFT + WIN".to_string()));
    assert_eq!(modifier_display(false, false, false, false), None);
}

#[test]
fn key_classes() {
    assert_eq!(classify_key(0x10, false, false), KeyClass::Modifier);
    assert_eq!(classify_key(0x14, true, false), KeyClass::Modifier);
    assert_eq!(classify_key(0x43, true, false), KeyClass::CtrlShortcut);
    assert_eq!(classify_key(0x43, true, true), KeyClass::Text);
    assert_eq!(classify_key(0x08, false, false), KeyClass::Backspace);
    assert_eq!(classify_key(0x25, false, false), KeyClass::Navigation);
    assert_eq!(classify_key(0x0D, false, false), KeyClass::Navigation);
    assert_eq!(classify_key(0x41, false, false), KeyClass::Text);
}

#[test]
fn recording_captures_hotkey() {
    let config = default_config();
    let mut buf = KeyBuffer::new(10);
    typed(&mut buf, "ab");
    let a = decide_key_down(&config, &mut buf, key(0x11, false, false, false, false), true, false);
    assert_eq!(a, HookAction::ShowModifiers(Some("CTRL".to_string())));
    let a = decide_key_down(&config, &mut buf, key(0x58, true, true, false, false), true, false);
    assert_eq!(a, HookAction::CaptureHotkey(HotkeyConfig { modifiers: 3, virtual_key: 0x58 }));
    let a = decide_key_down(&config, &mut buf, key(0x1B, false, false, false, false), true, false);
    assert_eq!(a, HookAction::CancelRecording);
    assert_eq!(buf.content(), "ab");
}

#[test]
fn paused_passes_everything() {
    let config = default_config();
    let mut buf = KeyBuffer::new(10);
    typed(&mut buf, "jd");
    let a = decide_key_down(&config, &mut buf, key(0x54, true, false, true, false), false, true);
    assert_eq!(a, HookAction::PassThrough);
    assert_eq!(buf.content(), "jd");
}

#[test]
fn case_changer_hotkey_shows_menu() {
    let config = default_config();
    let mut buf = KeyBuffer::new(10);
    let a = decide_key_down(&config, &mut buf, key(0x14, true, false, false, false), false, false);
    assert_eq!(a, HookAction::ShowCaseMenu);
    let mut off = default_config();
    off.case_changer_enabled = false;
    let a = decide_key_down(&off, &mut buf, key(0x14, true, false, false, false), false, false);
    assert_eq!(a, HookAction::PassThrough);
}

#[test]
fn snippet_hotkey_expands_hotkey_snippet() {
    let config = default_config();
    let mut buf = KeyBuffer::new(10);
    typed(&mut buf, "xjd");
    let a = decide_key_down(&config, &mut buf, key(0x54, true, false, true, false), false, false);
    assert_eq!(
        a,
        HookAction::ExpandHotkey(Some((2, "With kind regards and sincerely - John Doe".to_string())))
    );
    assert!(buf.is_empty());
    typed(&mut buf, "xyz");
    let a = decide_key_down(&config, &mut buf, key(0x54, true, false, true, false), false, false);
    assert_eq!(a, HookAction::ExpandHotkey(None));
    assert_eq!(buf.content(), "xyz");
}

#[test]
fn immediate_snippet_is_not_expanded_by_hotkey() {
    let config = default_config();
    let mut buf = KeyBuffer::new(10);
    typed(&mut buf, ".sig");
    assert_eq!(on_registered_hotkey(&mut buf, &config.snippets), None);
    assert_eq!(buf.content(), ".sig");
}

#[test]
fn registered_hotkey_expands() {
    let config = default_config();
    let mut buf = KeyBuffer::new(10);
    typed(&mut buf, "jd");
    assert_eq!(
        on_registered_hotkey(&mut buf, &config.snippets),
        Some((2, "With kind regards and sincerely - John Doe".to_string()))
    );
    assert!(buf.is_empty());
}

#[test]
fn ordinary_keys_edit_buffer() {
    let config = default_config();
    let mut buf = KeyBuffer::new(10);
    typed(&mut buf, "abc");
    assert_eq!(decide_key_down(&config, &mut buf, key(0x08, false, false, false, false), false, false), HookAction::PassThrough);
    assert_eq!(buf.content(), "ab");
    assert_eq!(decide_key_down(&config, &mut buf, key(0x10, false, false, false, false), false, false), HookAction::PassThrough);
    assert_eq!(buf.content(), "ab");
    assert_eq!(decide_key_down(&config, &mut buf, key(0x41, false, false, false, false), false, false), HookAction::TranslateKey);
    assert_eq!(buf.content(), "ab");
    assert_eq!(decide_key_down(&config, &mut buf, key(0x43, true, false, false, false), false, false), HookAction::PassThrough);
    assert!(buf.is_empty());
    typed(&mut buf, "ab");
    assert_eq!(decide_key_down(&config, &mut buf, key(0x25, false, false, false, false), false, false), HookAction::PassThrough);
    assert!(buf.is_empty());
}

#[test]
fn typed_trigger_expands_immediately() {
    let config = default_config();
    let mut buf = KeyBuffer::new(10);
    assert_eq!(on_typed_chars(&mut buf, &config.snippets, &['h', 'i', ' ', '.', 's', 'i']), None);
    assert_eq!(buf.content(), "hi .si");
    assert_eq!(
        on_typed_chars(&mut buf, &config.snippets, &['g']),
        Some((4, "Regards,\nJohn Doe".to_string()))
    );
    assert!(buf.is_empty());
}

#[test]
fn control_chars_are_not_buffered() {
    let config = default_config();
    let mut buf = KeyBuffer::new(10);
    assert_eq!(on_typed_chars(&mut buf, &config.snippets, &['a', '\u{7}', 'b']), None);
    assert_eq!(buf.content(), "ab");
}

#[test]
fn later_match_in_same_key_wins() {
    let snippets = vec![
        Snippet { trigger: "a".to_string(), replacement: "1".to_string(), mode: ExpansionMode::Immediate },
        Snippet { trigger: "b".to_string(), replacement: "2".to_string(), mode: ExpansionMode::Immediate },
    ];
    let mut buf = KeyBuffer::new(4);
    assert_eq!(on_typed_chars(&mut buf, &snippets, &['a', 'b']), Some((1, "2".to_string())));
    assert!(buf.is_empty());
}

#[test]
fn examined_events() {
    assert!(is_examined_event(0, false, 0, 0x0100));
    assert!(is_examined_event(0, false, 7, 0x0104));
    assert!(!is_examined_event(-1, false, 0, 0x0100));
    assert!(!is_examined_event(0, true, 0, 0x0100));
    assert!(!is_examined_event(0, false, 0x5245_5850, 0x0100));
    assert!(!is_examined_event(0, false, 0, 0x0101));
}

#[test]
fn loop_message_constants() {
    assert_eq!(WM_QUIT_MESSAGE, 0x0012);
    assert_eq!(WM_HOTKEY_MESSAGE, 0x0312);
    assert_eq!(WM_REHOOK, 0x0464);
    assert_eq!(WM_SHOW_CASE_MENU, 0x0465);
}

#[test]
fn loop_rehook_resizes_buffer_and_reregisters() {
    let mut config = default_config();
    config.buffer_size = 3;
    config.hotkey = HotkeyConfig { modifiers: 3, virtual_key: 0x51 };
    let mut buf = KeyBuffer::new(10);
    typed(&mut buf, "abcdef");
    let a = on_loop_message(&config, &mut buf, WM_REHOOK, false);
    assert_eq!(a, LoopAction::Rehook(HotkeyConfig { modifiers: 3, virtual_key: 0x51 }));
    assert_eq!(buf.capacity(), 3);
    assert_eq!(buf.content(), "def");
}

#[test]
fn loop_hotkey_expands_unless_paused() {
    let config = default_config();
    let mut buf = KeyBuffer::new(10);
    typed(&mut buf, "xjd");
    assert_eq!(on_loop_message(&config, &mut buf, WM_HOTKEY_MESSAGE, true), LoopAction::Skip);
    assert_eq!(buf.content(), "xjd");
    let a = on_loop_message(&config, &mut buf, WM_HOTKEY_MESSAGE, false);
    assert_eq!(
        a,
        LoopAction::Expand(Some((2, "With kind regards and sincerely - John Doe".to_string())), 150)
    );
    assert!(buf.is_empty());
    typed(&mut buf, "zz");
    assert_eq!(on_loop_message(&config, &mut buf, WM_HOTKEY_MESSAGE, false), LoopAction::Expand(None, 150));
    assert_eq!(buf.content(), "zz");
}

#[test]
fn loop_other_messages() {
    let config = default_config();
    let mut buf = KeyBuffer::new(10);
    typed(&mut buf, "ab");
    assert_eq!(on_loop_message(&config, &mut buf, WM_QUIT_MESSAGE, false), LoopAction::Stop);
    assert_eq!(on_loop_message(&config, &mut buf, WM_SHOW_CASE_MENU, false), LoopAction::ShowCaseMenu(150));
    assert_eq!(on_loop_message(&config, &mut buf, 0x0100, false), LoopAction::Dispatch);
    assert_eq!(buf.content(), "ab");
}

//! Decisions of the low-level keyboard hook: how each key press changes the
//! typing buffer and which snippet, if any, it expands.
//!
//! The hook itself (installing it, reading the keyboard state, translating
//! keys to characters, posting messages, pasting) runs outside; it hands
//! every key press to [`decide_key_down`], the characters a key produced to
//! [`on_typed_chars`], and every message of the hook thread's queue to
//! [`on_loop_message`].

use vstd::prelude::*;

use crate::buffer::{
    ends_with_seq, keep_last, lemma_ends_with_keep_last, lemma_ends_with_push, KeyBuffer,
};
use crate::chars::{char_vec, joined, push_joined};
use crate::config::{AppConfig, ExpansionMode, HotkeyConfig, Snippet};
use crate::unicode::{is_control, is_control_char};

verus! {

// ---------------------------------------------------------------------------
// Snippet matching
// ---------------------------------------------------------------------------

/// The first snippet at index `k` or later that has mode `mode` and whose
/// trigger the buffer content `buf` ends with.
pub open spec fn first_match_from(
    buf: Seq<char>,
    snippets: Seq<Snippet>,
    mode: ExpansionMode,
    k: int,
) -> Option<int>
    decreases snippets.len() - k,
{
    if k < 0 || k >= snippets.len() {
        None
    } else if snippets[k].mode == mode && ends_with_seq(buf, snippets[k].trigger@) {
        Some(k)
    } else {
        first_match_from(buf, snippets, mode, k + 1)
    }
}

/// The first snippet of mode `mode` whose trigger `buf` ends with.
pub open spec fn first_match(buf: Seq<char>, snippets: Seq<Snippet>, mode: ExpansionMode) -> Option<int> {
    first_match_from(buf, snippets, mode, 0)
}

/// Whether `e` is the expansion of snippet `s`: the number of characters of
/// its trigger (to be erased) and its replacement.
pub open spec fn is_expansion_of(e: (usize, String), s: Snippet) -> bool {
    e.0 == s.trigger@.len() && e.1@ == s.replacement@
}

proof fn lemma_first_match_from_bounds(buf: Seq<char>, snippets: Seq<Snippet>, mode: ExpansionMode, k: int)
    ensures
        match first_match_from(buf, snippets, mode, k) {
            Some(i) => k <= i < snippets.len() && snippets[i].mode == mode && ends_with_seq(buf, snippets[i].trigger@),
            None => true,
        },
    decreases snippets.len() - k,
{
    if k < 0 || k >= snippets.len() {
    } else if snippets[k].mode == mode && ends_with_seq(buf, snippets[k].trigger@) {
    } else {
        lemma_first_match_from_bounds(buf, snippets, mode, k + 1);
    }
}

/// The index of the first snippet of `mode` whose trigger the buffer ends with.
fn find_match(buffer: &KeyBuffer, snippets: &Vec<Snippet>, mode: ExpansionMode) -> (r: Option<usize>)
    ensures
        r is Some <==> first_match(buffer@, snippets@, mode) is Some,
        r matches Some(i) ==> first_match(buffer@, snippets@, mode) == Some(i as int),
{
    let mut k: usize = 0;
    while k < snippets.len()
        invariant
            k <= snippets@.len(),
            first_match(buffer@, snippets@, mode) == first_match_from(buffer@, snippets@, mode, k as int),
        decreases snippets@.len() - k,
    {
        let s = &snippets[k];
        if s.mode == mode && buffer.ends_with(s.trigger.as_str()) {
            return Some(k);
        }
        k = k + 1;
    }
    None
}

/// The expansion of snippet `s`.
fn expansion(s: &Snippet) -> (r: (usize, String))
    ensures
        is_expansion_of(r, *s),
{
    (char_vec(s.trigger.as_str()).len(), s.replacement.clone())
}

/// Looks for the first snippet of `mode` whose trigger the buffer ends with;
/// when there is one, empties the buffer and returns its expansion.
fn take_match(buffer: &mut KeyBuffer, snippets: &Vec<Snippet>, mode: ExpansionMode) -> (r: Option<(usize, String)>)
    ensures
        final(buffer).cap() == old(buffer).cap(),
        match first_match(old(buffer)@, snippets@, mode) {
            Some(i) => r is Some && is_expansion_of(r->0, snippets@[i]) && final(buffer)@ == Seq::<char>::empty(),
            None => r is None && final(buffer)@ == old(buffer)@,
        },
{
    proof { lemma_first_match_from_bounds(buffer@, snippets@, mode, 0); }
    match find_match(buffer, snippets, mode) {
        Some(i) => {
            let e = expansion(&snippets[i]);
            buffer.clear();
            Some(e)
        },
        None => None,
    }
}

/// Handles the registered snippet hotkey (the `WM_HOTKEY` message): expands
/// the first hotkey-mode snippet whose trigger the buffer ends with, and
/// empties the buffer when one does.
pub fn on_registered_hotkey(buffer: &mut KeyBuffer, snippets: &Vec<Snippet>) -> (r: Option<(usize, String)>)
    ensures
        final(buffer).cap() == old(buffer).cap(),
        match first_match(old(buffer)@, snippets@, ExpansionMode::Hotkey) {
            Some(i) => r is Some && is_expansion_of(r->0, snippets@[i]) && final(buffer)@ == Seq::<char>::empty(),
            None => r is None && final(buffer)@ == old(buffer)@,
        },
{
    take_match(buffer, snippets, ExpansionMode::Hotkey)
}

// ---------------------------------------------------------------------------
// Typed characters
// ---------------------------------------------------------------------------

/// Buffer content and last expanded snippet after the first `n` typed
/// characters: each non-control character is pushed; when the buffer then
/// ends with the trigger of an immediate-mode snippet, that snippet is
/// expanded and the buffer emptied.
pub open spec fn typed_state(
    buf: Seq<char>,
    cap: nat,
    snippets: Seq<Snippet>,
    chars: Seq<char>,
    n: int,
) -> (Seq<char>, Option<int>)
    decreases n,
{
    if n <= 0 {
        (buf, None)
    } else {
        let (b, m) = typed_state(buf, cap, snippets, chars, n - 1);
        let c = chars[n - 1];
        if is_control_char(c) {
            (b, m)
        } else {
            let pushed = keep_last(b.push(c), cap);
            match first_match(pushed, snippets, ExpansionMode::Immediate) {
                Some(i) => (Seq::empty(), Some(i)),
                None => (pushed, m),
            }
        }
    }
}

/// Feeds the characters one key press produced into the buffer and checks
/// the immediate-mode snippets after each one. Returns the expansion of the
/// last snippet that fired, if any (the key press is then consumed).
pub fn on_typed_chars(buffer: &mut KeyBuffer, snippets: &Vec<Snippet>, chars: &[char]) -> (r: Option<(usize, String)>)
    ensures
        final(buffer).cap() == old(buffer).cap(),
        final(buffer)@ == typed_state(old(buffer)@, old(buffer).cap(), snippets@, chars@, chars@.len() as int).0,
        match typed_state(old(buffer)@, old(buffer).cap(), snippets@, chars@, chars@.len() as int).1 {
            Some(i) => r is Some && 0 <= i < snippets@.len() && is_expansion_of(r->0, snippets@[i]),
            None => r is None,
        },
{
    let ghost buf0 = buffer@;
    let ghost cap = buffer.cap();
    let mut result: Option<(usize, String)> = None;
    let mut n: usize = 0;
    while n < chars.len()
        invariant
            buffer.cap() == cap,
            n <= chars@.len(),
            buffer@ == typed_state(buf0, cap, snippets@, chars@, n as int).0,
            match typed_state(buf0, cap, snippets@, chars@, n as int).1 {
                Some(i) => result is Some && 0 <= i < snippets@.len() && is_expansion_of(result->0, snippets@[i]),
                None => result is None,
            },
        decreases chars@.len() - n,
    {
        let c = chars[n];
        if !is_control(c) {
            buffer.push(c);
            proof { lemma_first_match_from_bounds(buffer@, snippets@, ExpansionMode::Immediate, 0); }
            match take_match(buffer, snippets, ExpansionMode::Immediate) {
                Some(e) => {
                    result = Some(e);
                },
                None => {},
            }
        }
        n = n + 1;
    }
    result
}

// ---------------------------------------------------------------------------
// Key presses
// ---------------------------------------------------------------------------

/// A key press as the hook sees it: the virtual key, and which modifiers
/// the keyboard reports as held.
#[derive(Debug, Clone, Copy, PartialEq, Eq, Structural)]
pub struct KeyDown {
    pub vk: u32,
    pub ctrl: bool,
    pub alt: bool,
    pub shift: bool,
    pub win: bool,
}

/// Ctrl, left Ctrl, right Ctrl.
pub open spec fn is_ctrl_key(vk: u32) -> bool {
    vk == 0x11 || vk == 0xA2 || vk == 0xA3
}

/// Alt, left Alt, right Alt.
pub open spec fn is_alt_key(vk: u32) -> bool {
    vk == 0x12 || vk == 0xA4 || vk == 0xA5
}

/// Shift, left Shift, right Shift.
pub open spec fn is_shift_key(vk: u32) -> bool {
    vk == 0x10 || vk == 0xA0 || vk == 0xA1
}

/// Left and right Windows keys.
pub open spec fn is_win_key(vk: u32) -> bool {
    vk == 0x5B || vk == 0x5C
}

/// The modifiers in effect for a key press: those held, plus the pressed
/// key itself when it is a modifier.
pub open spec fn effective_modifiers(ev: KeyDown) -> KeyDown {
    KeyDown {
        vk: ev.vk,
        ctrl: ev.ctrl || is_ctrl_key(ev.vk),
        alt: ev.alt || is_alt_key(ev.vk),
        shift: ev.shift || is_shift_key(ev.vk),
        win: ev.win || is_win_key(ev.vk),
    }
}

/// Win32 hotkey modifier flags: `MOD_ALT=1`, `MOD_CONTROL=2`,
/// `MOD_SHIFT=4`, `MOD_WIN=8`.
pub open spec fn modifier_flags(ctrl: bool, alt: bool, shift: bool, win: bool) -> u32 {
    ((if alt { 1u32 } else { 0u32 }) + (if ctrl { 2u32 } else { 0u32 }) + (if shift { 4u32 } else { 0u32 }) + (
    if win {
        8u32
    } else {
        0u32
    })) as u32
}

/// The modifier flags of a key press, the pressed key included.
pub open spec fn key_flags(ev: KeyDown) -> u32 {
    let e = effective_modifiers(ev);
    modifier_flags(e.ctrl, e.alt, e.shift, e.win)
}

/// Computes the Win32 hotkey modifier flags.
pub fn modifier_mask(ctrl: bool, alt: bool, shift: bool, win: bool) -> (r: u32)
    ensures
        r == modifier_flags(ctrl, alt, shift, win),
{
    let mut m: u32 = 0;
    if alt {
        m = m + 1;
    }
    if ctrl {
        m = m + 2;
    }
    if shift {
        m = m + 4;
    }
    if win {
        m = m + 8;
    }
    m
}

/// The modifiers in effect for a key press.
pub fn with_pressed_key(ev: KeyDown) -> (r: KeyDown)
    ensures
        r == effective_modifiers(ev),
{
    let vk = ev.vk;
    KeyDown {
        vk,
        ctrl: ev.ctrl || vk == 0x11 || vk == 0xA2 || vk == 0xA3,
        alt: ev.alt || vk == 0x12 || vk == 0xA4 || vk == 0xA5,
        shift: ev.shift || vk == 0x10 || vk == 0xA0 || vk == 0xA1,
        win: ev.win || vk == 0x5B || vk == 0x5C,
    }
}

/// How an ordinary key press (no hotkey, not recording) affects the buffer.
#[derive(Debug, Clone, Copy, PartialEq, Eq, Structural)]
pub enum KeyClass {
    /// A modifier key on its own: the buffer is left alone.
    Modifier,
    /// A Ctrl shortcut (Ctrl without Alt, such as Ctrl+C): the buffer is emptied.
    CtrlShortcut,
    /// Backspace: the last character is removed.
    Backspace,
    /// Navigation and editing keys (arrows, Home, End, Delete, Escape, Tab,
    /// Enter, Page Up, Page Down): the buffer is emptied.
    Navigation,
    /// Any other key: it may produce characters.
    Text,
}

/// Shift, Ctrl, Alt (each side) and Caps Lock.
pub open spec fn is_plain_modifier_key(vk: u32) -> bool {
    is_shift_key(vk) || is_ctrl_key(vk) || is_alt_key(vk) || vk == 0x14
}

/// Arrows, Home, End, Delete, Escape, Tab, Enter, Page Up, Page Down.
pub open spec fn is_navigation_key(vk: u32) -> bool {
    vk == 0x25 || vk == 0x27 || vk == 0x26 || vk == 0x28 || vk == 0x24 || vk == 0x23 || vk == 0x2E
        || vk == 0x1B || vk == 0x09 || vk == 0x0D || vk == 0x21 || vk == 0x22
}

/// The class of an ordinary key press, given the effective Ctrl and Alt.
pub open spec fn key_class(vk: u32, ctrl: bool, alt: bool) -> KeyClass {
    if is_plain_modifier_key(vk) {
        KeyClass::Modifier
    } else if ctrl && !alt {
        KeyClass::CtrlShortcut
    } else if vk == 0x08 {
        KeyClass::Backspace
    } else if is_navigation_key(vk) {
        KeyClass::Navigation
    } else {
        KeyClass::Text
    }
}

/// Classifies an ordinary key press.
pub fn classify_key(vk: u32, ctrl: bool, alt: bool) -> (r: KeyClass)
    ensures
        r == key_class(vk, ctrl, alt),
{
    if vk == 0x10 || vk == 0xA0 || vk == 0xA1 || vk == 0x11 || vk == 0xA2 || vk == 0xA3 || vk == 0x12
        || vk == 0xA4 || vk == 0xA5 || vk == 0x14 {
        KeyClass::Modifier
    } else if ctrl && !alt {
        KeyClass::CtrlShortcut
    } else if vk == 0x08 {
        KeyClass::Backspace
    } else if vk == 0x25 || vk == 0x27 || vk == 0x26 || vk == 0x28 || vk == 0x24 || vk == 0x23
        || vk == 0x2E || vk == 0x1B || vk == 0x09 || vk == 0x0D || vk == 0x21 || vk == 0x22 {
        KeyClass::Navigation
    } else {
        KeyClass::Text
    }
}

/// The buffer after an ordinary key press of class `k`.
pub open spec fn buffer_after_key(buf: Seq<char>, k: KeyClass) -> Seq<char> {
    match k {
        KeyClass::CtrlShortcut => Seq::empty(),
        KeyClass::Navigation => Seq::empty(),
        KeyClass::Backspace => if buf.len() > 0 {
            buf.drop_last()
        } else {
            buf
        },
        _ => buf,
    }
}

/// The names of the held modifiers, in the order CTRL, ALT, SHIFT, WIN.
pub open spec fn modifier_names(ctrl: bool, alt: bool, shift: bool, win: bool) -> Seq<Seq<char>> {
    (if ctrl { seq!["CTRL"@] } else { Seq::empty() }) + (if alt { seq!["ALT"@] } else { Seq::empty() })
        + (if shift { seq!["SHIFT"@] } else { Seq::empty() }) + (if win { seq!["WIN"@] } else { Seq::empty() })
}

/// The text shown while modifiers are held during hotkey recording, such as
/// `"CTRL + ALT"`; none when no modifier is held.
pub open spec fn modifier_display_text(ctrl: bool, alt: bool, shift: bool, win: bool) -> Option<Seq<char>> {
    let names = modifier_names(ctrl, alt, shift, win);
    if names.len() == 0 {
        None
    } else {
        Some(joined(names, " + "@))
    }
}

/// Whether `o` holds the text `t` (both absent, or both present and equal).
pub open spec fn text_is(o: Option<String>, t: Option<Seq<char>>) -> bool {
    match t {
        Some(x) => o is Some && o->0@ == x,
        None => o is None,
    }
}

/// The text shown while modifiers are held during hotkey recording.
pub fn modifier_display(ctrl: bool, alt: bool, shift: bool, win: bool) -> (r: Option<String>)
    ensures
        text_is(r, modifier_display_text(ctrl, alt, shift, win)),
{
    proof {
        reveal_strlit("CTRL");
        reveal_strlit("ALT");
        reveal_strlit("SHIFT");
        reveal_strlit("WIN");
    }
    let ghost mut parts: Seq<Seq<char>> = Seq::empty();
    let mut out = String::new();
    if ctrl {
        push_joined(&mut out, Ghost(parts), " + ", &char_vec("CTRL"));
        proof { parts = parts.push("CTRL"@); }
    }
    if alt {
        push_joined(&mut out, Ghost(parts), " + ", &char_vec("ALT"));
        proof { parts = parts.push("ALT"@); }
    }
    if shift {
        push_joined(&mut out, Ghost(parts), " + ", &char_vec("SHIFT"));
        proof { parts = parts.push("SHIFT"@); }
    }
    if win {
        push_joined(&mut out, Ghost(parts), " + ", &char_vec("WIN"));
        proof { parts = parts.push("WIN"@); }
    }
    assert(parts =~= modifier_names(ctrl, alt, shift, win));
    if ctrl || alt || shift || win {
        Some(out)
    } else {
        None
    }
}

/// What the hook does with a key press.
#[derive(Debug, Clone, PartialEq, Eq)]
pub enum HookAction {
    /// Let the key reach the application.
    PassThrough,
    /// Recording a hotkey, a modifier was pressed: consume it and show the
    /// held modifiers (when any).
    ShowModifiers(Option<String>),
    /// Recording a hotkey, Escape was pressed: consume it and stop recording.
    CancelRecording,
    /// Recording a hotkey, another key was pressed: consume it, stop
    /// recording and report the hotkey.
    CaptureHotkey(HotkeyConfig),
    /// The case changer hotkey: consume it and show the case changer menu.
    ShowCaseMenu,
    /// The snippet hotkey: consume it and paste the expansion, when a
    /// hotkey-mode snippet matched.
    ExpandHotkey(Option<(usize, String)>),
    /// A key that may produce characters: translate it and hand the
    /// characters to [`on_typed_chars`], then let it through unless a
    /// snippet fired.
    TranslateKey,
}

/// Whether `a` is the expansion the snippet match `m` gives (none for no match).
pub open spec fn expansion_is(a: Option<(usize, String)>, snippets: Seq<Snippet>, m: Option<int>) -> bool {
    match m {
        Some(i) => a is Some && 0 <= i < snippets.len() && is_expansion_of(a->0, snippets[i]),
        None => a is None,
    }
}

/// Whether the key press `ev` is the hotkey `hk`.
pub open spec fn is_hotkey(ev: KeyDown, hk: HotkeyConfig) -> bool {
    key_flags(ev) == hk.modifiers && ev.vk == hk.virtual_key
}

/// Decides what a key press does, in this order:
///
/// 1. while a hotkey is being recorded: a modifier shows the held modifiers,
///    Escape cancels, any other key is captured together with the modifier
///    flags;
/// 2. while paused: nothing;
/// 3. the case changer hotkey (when enabled) shows the case changer menu;
/// 4. the snippet hotkey (when enabled) expands the first hotkey-mode
///    snippet whose trigger the buffer ends with, emptying the buffer;
/// 5. otherwise the key is classified: modifiers leave the buffer alone,
///    Ctrl shortcuts and navigation keys empty it, Backspace removes its
///    last character, and other keys are translated into characters.
pub fn decide_key_down(
    config: &AppConfig,
    buffer: &mut KeyBuffer,
    ev: KeyDown,
    recording: bool,
    paused: bool,
) -> (r: HookAction)
    ensures
        final(buffer).cap() == old(buffer).cap(),
        ({
            let e = effective_modifiers(ev);
            let vk = ev.vk;
            if recording {
                &&& final(buffer)@ == old(buffer)@
                &&& if is_ctrl_key(vk) || is_alt_key(vk) || is_shift_key(vk) || is_win_key(vk) {
                    r matches HookAction::ShowModifiers(o) && text_is(
                        o,
                        modifier_display_text(e.ctrl, e.alt, e.shift, e.win),
                    )
                } else if vk == 0x1B {
                    r == HookAction::CancelRecording
                } else {
                    r == HookAction::CaptureHotkey(HotkeyConfig { modifiers: key_flags(ev), virtual_key: vk })
                }
            } else if paused {
                r == HookAction::PassThrough && final(buffer)@ == old(buffer)@
            } else if config.case_changer_enabled && is_hotkey(ev, config.case_changer_hotkey) {
                r == HookAction::ShowCaseMenu && final(buffer)@ == old(buffer)@
            } else if config.snippet_hotkey_enabled && is_hotkey(ev, config.hotkey) {
                &&& r matches HookAction::ExpandHotkey(a)
                &&& expansion_is(a, config.snippets@, first_match(old(buffer)@, config.snippets@, ExpansionMode::Hotkey))
                &&& final(buffer)@ == if first_match(old(buffer)@, config.snippets@, ExpansionMode::Hotkey) is Some {
                    Seq::<char>::empty()
                } else {
                    old(buffer)@
                }
            } else {
                &&& final(buffer)@ == buffer_after_key(old(buffer)@, key_class(vk, e.ctrl, e.alt))
                &&& r == if key_class(vk, e.ctrl, e.alt) == KeyClass::Text {
                    HookAction::TranslateKey
                } else {
                    HookAction::PassThrough
                }
            }
        }),
{
    let e = with_pressed_key(ev);
    let vk = ev.vk;
    let flags = modifier_mask(e.ctrl, e.alt, e.shift, e.win);
    if recording {
        let is_modifier = vk == 0x10 || vk == 0xA0 || vk == 0xA1 || vk == 0x11 || vk == 0xA2 || vk
            == 0xA3 || vk == 0x12 || vk == 0xA4 || vk == 0xA5 || vk == 0x5B || vk == 0x5C;
        if is_modifier {
            return HookAction::ShowModifiers(modifier_display(e.ctrl, e.alt, e.shift, e.win));
        }
        if vk == 0x1B {
            return HookAction::CancelRecording;
        }
        return HookAction::CaptureHotkey(HotkeyConfig { modifiers: flags, virtual_key: vk });
    }
    if paused {
        return HookAction::PassThrough;
    }
    let cc = config.case_changer_hotkey;
    if config.case_changer_enabled && flags == cc.modifiers && vk == cc.virtual_key {
        return HookAction::ShowCaseMenu;
    }
    let hk = config.hotkey;
    if config.snippet_hotkey_enabled && flags == hk.modifiers && vk == hk.virtual_key {
        proof { lemma_first_match_from_bounds(buffer@, config.snippets@, ExpansionMode::Hotkey, 0); }
        let a = take_match(buffer, &config.snippets, ExpansionMode::Hotkey);
        return HookAction::ExpandHotkey(a);
    }
    match classify_key(vk, e.ctrl, e.alt) {
        KeyClass::Modifier => HookAction::PassThrough,
        KeyClass::CtrlShortcut => {
            buffer.clear();
            HookAction::PassThrough
        },
        KeyClass::Backspace => {
            buffer.pop();
            HookAction::PassThrough
        },
        KeyClass::Navigation => {
            buffer.clear();
            HookAction::PassThrough
        },
        KeyClass::Text => HookAction::TranslateKey,
    }
}

// ---------------------------------------------------------------------------
// The hook thread's message loop
// ---------------------------------------------------------------------------

/// `WM_QUIT`: leave the message loop.
pub const WM_QUIT_MESSAGE: u32 = 0x0012;
/// `WM_HOTKEY`: the registered snippet hotkey was pressed.
pub const WM_HOTKEY_MESSAGE: u32 = 0x0312;
/// `WM_USER + 100`: the configuration changed; re-register the hotkey and
/// resize the buffer.
pub const WM_REHOOK: u32 = 0x0400 + 100;
/// `WM_USER + 101`: show the case changer menu (posted by the hook so the
/// menu runs outside the hook callback).
pub const WM_SHOW_CASE_MENU: u32 = 0x0400 + 101;

/// What the hook thread does with a message of its queue. Every action but
/// `Stop` and `Skip` ends by handing the message on to the default dispatch.
#[derive(Debug, Clone, PartialEq, Eq)]
pub enum LoopAction {
    /// Leave the message loop.
    Stop,
    /// Register this hotkey in place of the previous one (the buffer has
    /// been resized to the configured size).
    Rehook(HotkeyConfig),
    /// Show the case changer menu; the clipboard is restored after this many
    /// milliseconds.
    ShowCaseMenu(u64),
    /// Paste the expansion, when a hotkey-mode snippet matched, restoring the
    /// clipboard after this many milliseconds.
    Expand(Option<(usize, String)>, u64),
    /// Drop the message (the snippet hotkey while paused).
    Skip,
    /// Nothing to do but the default dispatch.
    Dispatch,
}

/// Decides what the hook thread does with the message `msg` of its queue,
/// given the current configuration and whether expansion is paused.
pub fn on_loop_message(config: &AppConfig, buffer: &mut KeyBuffer, msg: u32, paused: bool) -> (r: LoopAction)
    ensures
        msg == WM_REHOOK ==> {
            &&& r == LoopAction::Rehook(config.hotkey)
            &&& final(buffer).cap() == config.buffer_size
            &&& final(buffer)@ == keep_last(old(buffer)@, config.buffer_size as nat)
        },
        msg != WM_REHOOK ==> final(buffer).cap() == old(buffer).cap(),
        msg == WM_QUIT_MESSAGE ==> r == LoopAction::Stop && final(buffer)@ == old(buffer)@,
        msg == WM_SHOW_CASE_MENU ==> r == LoopAction::ShowCaseMenu(config.clipboard_restore_delay_ms)
            && final(buffer)@ == old(buffer)@,
        msg == WM_HOTKEY_MESSAGE && paused ==> r == LoopAction::Skip && final(buffer)@ == old(buffer)@,
        msg == WM_HOTKEY_MESSAGE && !paused ==> {
            let m = first_match(old(buffer)@, config.snippets@, ExpansionMode::Hotkey);
            &&& r matches LoopAction::Expand(a, d)
            &&& d == config.clipboard_restore_delay_ms
            &&& expansion_is(a, config.snippets@, m)
            &&& final(buffer)@ == if m is Some {
                Seq::<char>::empty()
            } else {
                old(buffer)@
            }
        },
        msg != WM_QUIT_MESSAGE && msg != WM_REHOOK && msg != WM_SHOW_CASE_MENU && msg != WM_HOTKEY_MESSAGE
            ==> r == LoopAction::Dispatch && final(buffer)@ == old(buffer)@,
{
    if msg == WM_QUIT_MESSAGE {
        LoopAction::Stop
    } else if msg == WM_REHOOK {
        if buffer.capacity() != config.buffer_size {
            buffer.resize(config.buffer_size);
        }
        LoopAction::Rehook(config.hotkey)
    } else if msg == WM_SHOW_CASE_MENU {
        LoopAction::ShowCaseMenu(config.clipboard_restore_delay_ms)
    } else if msg == WM_HOTKEY_MESSAGE {
        if paused {
            LoopAction::Skip
        } else {
            proof { lemma_first_match_from_bounds(buffer@, config.snippets@, ExpansionMode::Hotkey, 0); }
            let a = on_registered_hotkey(buffer, &config.snippets);
            LoopAction::Expand(a, config.clipboard_restore_delay_ms)
        }
    } else {
        LoopAction::Dispatch
    }
}

/// Whether the hook examines a keyboard event: a key-down (`WM_KEYDOWN`
/// 0x0100 or `WM_SYSKEYDOWN` 0x0104) with a non-negative hook code, while
/// the hook is not inhibited, that this application did not synthesise
/// itself (tagged with `0x52455850`). Every other event goes to the next hook.
pub open spec fn examines_event(n_code: i32, inhibited: bool, extra_info: usize, message: u32) -> bool {
    n_code >= 0 && !inhibited && extra_info != 0x5245_5850 && (message == 0x0100 || message == 0x0104)
}

/// Decides whether the hook examines a keyboard event (see [`examines_event`]).
pub fn is_examined_event(n_code: i32, inhibited: bool, extra_info: usize, message: u32) -> (r: bool)
    ensures
        r == examines_event(n_code, inhibited, extra_info, message),
{
    n_code >= 0 && !inhibited && extra_info != 0x5245_5850 && (message == 0x0100 || message == 0x0104)
}

proof fn lemma_first_match_exists(buf: Seq<char>, snippets: Seq<Snippet>, mode: ExpansionMode, k: int, i: int)
    requires
        0 <= k <= i < snippets.len(),
        snippets[i].mode == mode,
        ends_with_seq(buf, snippets[i].trigger@),
    ensures
        first_match_from(buf, snippets, mode, k) is Some,
    decreases i - k,
{
    if !(snippets[k].mode == mode && ends_with_seq(buf, snippets[k].trigger@)) {
        lemma_first_match_exists(buf, snippets, mode, k + 1, i);
    }
}

/// Typing the last character of an immediate-mode trigger expands a
/// snippet: when the buffer holds the rest of the trigger at its end and the
/// trigger fits in the buffer, the key press that types the trigger's last
/// (non-control) character fires the first immediate-mode snippet whose
/// trigger now matches, and the buffer is emptied.
pub proof fn lemma_typing_trigger_expands(buf: Seq<char>, cap: nat, snippets: Seq<Snippet>, i: int)
    requires
        0 <= i < snippets.len(),
        snippets[i].mode == ExpansionMode::Immediate,
        snippets[i].trigger@.len() > 0,
        snippets[i].trigger@.len() <= cap,
        ends_with_seq(buf, snippets[i].trigger@.drop_last()),
        !is_control_char(snippets[i].trigger@.last()),
    ensures
        ({
            let (b, m) = typed_state(buf, cap, snippets, seq![snippets[i].trigger@.last()], 1);
            &&& m is Some
            &&& m == first_match(
                keep_last(buf.push(snippets[i].trigger@.last()), cap),
                snippets,
                ExpansionMode::Immediate,
            )
            &&& b == Seq::<char>::empty()
        }),
{
    let t = snippets[i].trigger@;
    let c = t.last();
    lemma_ends_with_push(buf, t.drop_last(), c);
    assert(t.drop_last().push(c) =~= t);
    lemma_ends_with_keep_last(buf.push(c), t, cap);
    let pushed = keep_last(buf.push(c), cap);
    lemma_first_match_exists(pushed, snippets, ExpansionMode::Immediate, 0, i);
    let chars = seq![c];
    assert(chars[0] == c);
    assert(typed_state(buf, cap, snippets, chars, 0) == (buf, None::<int>));
}

/// Moving the caret or leaving the field breaks what is being typed: the
/// arrow keys (0x25 to 0x28), Home (0x24), End (0x23), Delete (0x2E),
/// Escape (0x1B), Tab (0x09), Enter (0x0D), Page Up (0x21) and Page Down
/// (0x22), pressed without Ctrl on its own, are navigation keys: they empty
/// the typing buffer and pass through.
pub proof fn lemma_navigation_keys_empty_buffer(ev: KeyDown, buf: Seq<char>)
    requires
        ev.vk == 0x25 || ev.vk == 0x26 || ev.vk == 0x27 || ev.vk == 0x28 || ev.vk == 0x24 || ev.vk == 0x23
            || ev.vk == 0x2E || ev.vk == 0x1B || ev.vk == 0x09 || ev.vk == 0x0D || ev.vk == 0x21 || ev.vk
            == 0x22,
        !(ev.ctrl && !ev.alt),
    ensures
        key_class(ev.vk, effective_modifiers(ev).ctrl, effective_modifiers(ev).alt) == KeyClass::Navigation,
        buffer_after_key(buf, key_class(ev.vk, effective_modifiers(ev).ctrl, effective_modifiers(ev).alt))
            == Seq::<char>::empty(),
{
}

} // verus!

//! Hotkey entry in the settings window: turning a key event into a hotkey
//! and a hotkey into its display text.

use vstd::prelude::*;

use crate::chars::{char_vec, joined, push_char, push_joined, str_eq};
use crate::config::{ExpansionMode, HotkeyConfig, Snippet};
use crate::hook::{modifier_flags, modifier_mask, modifier_names};

verus! {

/// The UI toolkit's private-use codes for Delete, Home, End, Page Up and
/// Page Down, which lie among its modifier codes but name real keys.
pub open spec fn is_navigation_code(code: u32) -> bool {
    code == 0xF728 || code == 0xF729 || (0xF72B <= code <= 0xF72D)
}

/// Key codes of modifiers (Shift, Ctrl, Alt of each side, Caps Lock, the
/// Windows keys) and the UI toolkit's private-use codes for modifiers
/// (0xF720 to 0xF72F, apart from its navigation keys).
pub open spec fn is_modifier_code(code: u32) -> bool {
    code == 0x10 || code == 0xA0 || code == 0xA1 || code == 0x11 || code == 0xA2 || code == 0xA3
        || code == 0x12 || code == 0xA4 || code == 0xA5 || code == 0x14 || code == 0x5B || code
        == 0x5C || (0xF720 <= code <= 0xF72F && !is_navigation_code(code))
}

/// ASCII graphic characters: `'!'` to `'~'` (`char::is_ascii_graphic`).
pub open spec fn is_ascii_graphic_code(code: u32) -> bool {
    0x21 <= code <= 0x7E
}

/// `char::to_ascii_uppercase` on a code: `a`..=`z` map to `A`..=`Z`.
pub open spec fn ascii_upper_code(code: u32) -> u32 {
    if 0x61 <= code <= 0x7A {
        (code - 0x20) as u32
    } else {
        code
    }
}

/// The virtual key for a key event's character code, and whether it implies
/// Ctrl (control characters 1 to 26 are Ctrl+A to Ctrl+Z); none for codes
/// that name no key.
pub open spec fn virtual_key_of(code: u32) -> Option<(u32, bool)> {
    if code == 0x09 {
        Some((0x09, false))
    } else if code == 0x0D || code == 0x0A {
        Some((0x0D, false))
    } else if code == 0x1B {
        Some((0x1B, false))
    } else if code == 0x20 {
        Some((0x20, false))
    } else if code == 0x08 {
        Some((0x08, false))
    } else if 1 <= code <= 26 {
        Some(((0x41 + code - 1) as u32, true))
    } else if 0x41 <= code <= 0x5A {
        Some((code, false))
    } else if 0x61 <= code <= 0x7A {
        Some(((code - 0x20) as u32, false))
    } else if 0x30 <= code <= 0x39 {
        Some((code, false))
    } else if 0xF704 <= code <= 0xF70F {
        Some(((code - 0xF704 + 0x70) as u32, false))
    } else if code == 0xF700 {
        Some((0x26, false))
    } else if code == 0xF701 {
        Some((0x28, false))
    } else if code == 0xF702 {
        Some((0x25, false))
    } else if code == 0xF703 {
        Some((0x27, false))
    } else if code == 0xF729 {
        Some((0x24, false))
    } else if code == 0xF72B {
        Some((0x23, false))
    } else if code == 0xF72C {
        Some((0x21, false))
    } else if code == 0xF72D {
        Some((0x22, false))
    } else if code == 0xF728 {
        Some((0x2E, false))
    } else if is_ascii_graphic_code(code) {
        Some((ascii_upper_code(code), false))
    } else {
        None
    }
}

/// The hotkey a key event names: its first character's key with the held
/// modifiers; none for an empty text, a modifier on its own, or a code that
/// names no key.
pub open spec fn key_event_hotkey(text: Seq<char>, ctrl: bool, alt: bool, shift: bool, win: bool) -> Option<HotkeyConfig> {
    if text.len() == 0 {
        None
    } else {
        let code = text[0] as u32;
        if is_modifier_code(code) {
            None
        } else {
            match virtual_key_of(code) {
                Some((vk, forces_ctrl)) => Some(
                    HotkeyConfig { modifiers: modifier_flags(ctrl || forces_ctrl, alt, shift, win), virtual_key: vk },
                ),
                None => None,
            }
        }
    }
}

fn key_code_vk(code: u32) -> (r: Option<(u32, bool)>)
    ensures
        r == virtual_key_of(code),
{
    if code == 0x09 {
        Some((0x09, false))
    } else if code == 0x0D || code == 0x0A {
        Some((0x0D, false))
    } else if code == 0x1B {
        Some((0x1B, false))
    } else if code == 0x20 {
        Some((0x20, false))
    } else if code == 0x08 {
        Some((0x08, false))
    } else if 1 <= code && code <= 26 {
        Some((0x41 + code - 1, true))
    } else if 0x41 <= code && code <= 0x5A {
        Some((code, false))
    } else if 0x61 <= code && code <= 0x7A {
        Some((code - 0x20, false))
    } else if 0x30 <= code && code <= 0x39 {
        Some((code, false))
    } else if 0xF704 <= code && code <= 0xF70F {
        Some((code - 0xF704 + 0x70, false))
    } else if code == 0xF700 {
        Some((0x26, false))
    } else if code == 0xF701 {
        Some((0x28, false))
    } else if code == 0xF702 {
        Some((0x25, false))
    } else if code == 0xF703 {
        Some((0x27, false))
    } else if code == 0xF729 {
        Some((0x24, false))
    } else if code == 0xF72B {
        Some((0x23, false))
    } else if code == 0xF72C {
        Some((0x21, false))
    } else if code == 0xF72D {
        Some((0x22, false))
    } else if code == 0xF728 {
        Some((0x2E, false))
    } else if 0x21 <= code && code <= 0x7E {
        if 0x61 <= code && code <= 0x7A {
            Some((code - 0x20, false))
        } else {
            Some((code, false))
        }
    } else {
        None
    }
}

/// Parses a key event of the settings window into a hotkey. Returns `None`
/// for modifier-only keys so the caller can show an intermediate display.
pub fn parse_key_event(text: &str, ctrl: bool, alt: bool, shift: bool, win: bool) -> (r: Option<HotkeyConfig>)
    ensures
        r == key_event_hotkey(text@, ctrl, alt, shift, win),
{
    let v = char_vec(text);
    if v.len() == 0 {
        return None;
    }
    let code = v[0] as u32;
    if code == 0x10 || code == 0xA0 || code == 0xA1 || code == 0x11 || code == 0xA2 || code == 0xA3
        || code == 0x12 || code == 0xA4 || code == 0xA5 || code == 0x14 || code == 0x5B || code
        == 0x5C || (0xF720 <= code && code <= 0xF72F && code != 0xF728 && code != 0xF729 && !(0xF72B
        <= code && code <= 0xF72D)) {
        return None;
    }
    match key_code_vk(code) {
        Some((vk, forces_ctrl)) => Some(
            HotkeyConfig { modifiers: modifier_mask(ctrl || forces_ctrl, alt, shift, win), virtual_key: vk },
        ),
        None => None,
    }
}

/// The uppercase hexadecimal digit for `d` (below 16).
pub open spec fn hex_digit(d: nat) -> char {
    seq!['0', '1', '2', '3', '4', '5', '6', '7', '8', '9', 'A', 'B', 'C', 'D', 'E', 'F'][d as int]
}

/// `n` in uppercase hexadecimal, without leading zeros.
pub open spec fn hex_digits(n: nat) -> Seq<char>
    decreases n,
{
    if n < 16 {
        seq![hex_digit(n)]
    } else {
        hex_digits(n / 16).push(hex_digit(n % 16))
    }
}

/// `n` in uppercase hexadecimal, at least two digits (`{:02X}`).
pub open spec fn hex_two(n: nat) -> Seq<char> {
    if n < 16 {
        seq!['0', hex_digit(n)]
    } else {
        hex_digits(n)
    }
}

/// The display name of a virtual key: letters and digits as themselves,
/// F1 to F12, CAPSLOCK, and `0x` with two or more hex digits otherwise.
pub open spec fn key_name(vk: u32) -> Seq<char> {
    if (0x41 <= vk <= 0x5A) || (0x30 <= vk <= 0x39) {
        seq![vk as char]
    } else if 0x70 <= vk <= 0x78 {
        seq!['F', hex_digit((vk - 0x6F) as nat)]
    } else if 0x79 <= vk <= 0x7B {
        seq!['F', '1', hex_digit((vk - 0x79) as nat)]
    } else if vk == 0x14 {
        "CAPSLOCK"@
    } else {
        "0x"@ + hex_two(vk as nat)
    }
}

/// A hotkey as shown to the user, e.g. `"CTRL+SHIFT+T"`: the modifiers in
/// the order CTRL, ALT, SHIFT, WIN, then the key, joined by `+`.
pub open spec fn hotkey_display(hk: HotkeyConfig) -> Seq<char> {
    let m = hk.modifiers;
    joined(
        modifier_names(m & 2 != 0, m & 1 != 0, m & 4 != 0, m & 8 != 0).push(key_name(hk.virtual_key)),
        "+"@,
    )
}

fn hex_char(d: u32) -> (c: char)
    requires
        d < 16,
    ensures
        c == hex_digit(d as nat),
{
    let digits = ['0', '1', '2', '3', '4', '5', '6', '7', '8', '9', 'A', 'B', 'C', 'D', 'E', 'F'];
    assert(digits@ == seq!['0', '1', '2', '3', '4', '5', '6', '7', '8', '9', 'A', 'B', 'C', 'D', 'E', 'F']);
    digits[d as usize]
}

fn push_hex(out: &mut String, n: u32)
    ensures
        final(out)@ == old(out)@ + hex_digits(n as nat),
    decreases n,
{
    if n >= 16 {
        push_hex(out, n / 16);
    }
    push_char(out, hex_char(n % 16));
    assert(out@ =~= old(out)@ + hex_digits(n as nat));
}

fn key_name_chars(vk: u32) -> (r: Vec<char>)
    ensures
        r@ == key_name(vk),
        r@.len() > 0,
{
    proof {
        reveal_strlit("CAPSLOCK");
        reveal_strlit("0x");
    }
    if (0x41 <= vk && vk <= 0x5A) || (0x30 <= vk && vk <= 0x39) {
        let mut r = Vec::new();
        r.push((vk as u8) as char);
        r
    } else if 0x70 <= vk && vk <= 0x78 {
        let mut r = Vec::new();
        r.push('F');
        r.push(hex_char(vk - 0x6F));
        r
    } else if 0x79 <= vk && vk <= 0x7B {
        let mut r = Vec::new();
        r.push('F');
        r.push('1');
        r.push(hex_char(vk - 0x79));
        r
    } else if vk == 0x14 {
        char_vec("CAPSLOCK")
    } else {
        let mut s = String::new();
        push_char(&mut s, '0');
        push_char(&mut s, 'x');
        if vk < 16 {
            push_char(&mut s, '0');
        }
        push_hex(&mut s, vk);
        let r = char_vec(s.as_str());
        assert(r@ =~= key_name(vk));
        r
    }
}

/// Formats a hotkey as a human-readable string (e.g. "CTRL+ALT+A").
pub fn hotkey_display_string(hotkey: &HotkeyConfig) -> (r: String)
    ensures
        r@ == hotkey_display(*hotkey),
{
    proof {
        reveal_strlit("CTRL");
        reveal_strlit("ALT");
        reveal_strlit("SHIFT");
        reveal_strlit("WIN");
    }
    let m = hotkey.modifiers;
    let ghost mut parts: Seq<Seq<char>> = Seq::empty();
    let mut out = String::new();
    if m & 2 != 0 {
        push_joined(&mut out, Ghost(parts), "+", &char_vec("CTRL"));
        proof { parts = parts.push("CTRL"@); }
    }
    if m & 1 != 0 {
        push_joined(&mut out, Ghost(parts), "+", &char_vec("ALT"));
        proof { parts = parts.push("ALT"@); }
    }
    if m & 4 != 0 {
        push_joined(&mut out, Ghost(parts), "+", &char_vec("SHIFT"));
        proof { parts = parts.push("SHIFT"@); }
    }
    if m & 8 != 0 {
        push_joined(&mut out, Ghost(parts), "+", &char_vec("WIN"));
        proof { parts = parts.push("WIN"@); }
    }
    let key = key_name_chars(hotkey.virtual_key);
    push_joined(&mut out, Ghost(parts), "+", &key);
    assert(parts =~= modifier_names(m & 2 != 0, m & 1 != 0, m & 4 != 0, m & 8 != 0));
    out
}

/// Letters are case-insensitive: a lowercase letter gives the same hotkey
/// as its uppercase form.
pub proof fn lemma_letter_case_insensitive(lower: char, upper: char, ctrl: bool, alt: bool, shift: bool, win: bool)
    requires
        'a' <= lower <= 'z',
        upper as u32 == lower as u32 - 0x20,
    ensures
        key_event_hotkey(seq![lower], ctrl, alt, shift, win) == key_event_hotkey(seq![upper], ctrl, alt, shift, win),
        key_event_hotkey(seq![upper], ctrl, alt, shift, win) == Some(
            HotkeyConfig { modifiers: modifier_flags(ctrl, alt, shift, win), virtual_key: upper as u32 },
        ),
{
}

// ---------------------------------------------------------------------------
// Snippet table rows
// ---------------------------------------------------------------------------

/// A row of the snippet table as the settings window edits it.
#[derive(Debug, Clone, PartialEq, Eq)]
pub struct SnippetRow {
    pub trigger: String,
    pub replacement: String,
    pub mode: String,
}

/// The expansion mode a table row names: `"hotkey"` is hotkey mode, any
/// other name immediate mode.
pub open spec fn mode_of_name(name: Seq<char>) -> ExpansionMode {
    if name == "hotkey"@ {
        ExpansionMode::Hotkey
    } else {
        ExpansionMode::Immediate
    }
}

/// The name the snippet table shows for an expansion mode.
pub open spec fn name_of_mode(mode: ExpansionMode) -> Seq<char> {
    match mode {
        ExpansionMode::Immediate => "immediate"@,
        ExpansionMode::Hotkey => "hotkey"@,
    }
}

/// Parses the mode column of a snippet row.
pub fn expansion_mode_from_name(name: &str) -> (r: ExpansionMode)
    ensures
        r == mode_of_name(name@),
{
    if str_eq(name, "hotkey") {
        ExpansionMode::Hotkey
    } else {
        ExpansionMode::Immediate
    }
}

/// The mode column text of a snippet.
pub fn expansion_mode_name(mode: ExpansionMode) -> (r: &'static str)
    ensures
        r@ == name_of_mode(mode),
{
    match mode {
        ExpansionMode::Immediate => "immediate",
        ExpansionMode::Hotkey => "hotkey",
    }
}

/// Whether `rows` is the snippet table showing `snippets`: one row per
/// snippet, in order, with its trigger, its replacement and the name of its
/// mode.
pub open spec fn rows_show_snippets(rows: Seq<SnippetRow>, snippets: Seq<Snippet>) -> bool {
    &&& rows.len() == snippets.len()
    &&& forall|i: int|
        #![trigger rows[i]]
        0 <= i < rows.len() ==> {
            &&& rows[i].trigger == snippets[i].trigger
            &&& rows[i].replacement == snippets[i].replacement
            &&& rows[i].mode@ == name_of_mode(snippets[i].mode)
        }
}

/// The rows of the snippet table for the configured snippets.
pub fn rows_from_snippets(snippets: &Vec<Snippet>) -> (r: Vec<SnippetRow>)
    ensures
        rows_show_snippets(r@, snippets@),
{
    let mut out: Vec<SnippetRow> = Vec::new();
    let mut i: usize = 0;
    while i < snippets.len()
        invariant
            i <= snippets@.len(),
            rows_show_snippets(out@, snippets@.take(i as int)),
        decreases snippets@.len() - i,
    {
        let s = &snippets[i];
        let row = SnippetRow {
            trigger: s.trigger.clone(),
            replacement: s.replacement.clone(),
            mode: expansion_mode_name(s.mode).to_string(),
        };
        out.push(row);
        i = i + 1;
        assert forall|j: int| #![trigger out@[j]] 0 <= j < out@.len() implies {
            &&& out@[j].trigger == snippets@.take(i as int)[j].trigger
            &&& out@[j].replacement == snippets@.take(i as int)[j].replacement
            &&& out@[j].mode@ == name_of_mode(snippets@.take(i as int)[j].mode)
        } by {
            if j + 1 < out@.len() {
                assert(snippets@.take(i as int)[j] == snippets@.take(i - 1)[j]);
            }
        }
    }
    assert(snippets@.take(i as int) =~= snippets@);
    out
}

/// The snippets saved from the first `n` table rows: rows with an empty
/// trigger are skipped.
pub open spec fn snippets_of_rows(rows: Seq<SnippetRow>, n: int) -> Seq<Snippet>
    decreases n,
{
    if n <= 0 {
        Seq::empty()
    } else {
        let prev = snippets_of_rows(rows, n - 1);
        let row = rows[n - 1];
        if row.trigger@.len() == 0 {
            prev
        } else {
            prev.push(Snippet { trigger: row.trigger, replacement: row.replacement, mode: mode_of_name(row.mode@) })
        }
    }
}

/// The snippets to save from the rows of the snippet table, in order,
/// skipping rows whose trigger is empty.
pub fn snippets_from_rows(rows: &Vec<SnippetRow>) -> (r: Vec<Snippet>)
    ensures
        r@ == snippets_of_rows(rows@, rows@.len() as int),
{
    let mut out: Vec<Snippet> = Vec::new();
    let mut i: usize = 0;
    while i < rows.len()
        invariant
            i <= rows@.len(),
            out@ == snippets_of_rows(rows@, i as int),
        decreases rows@.len() - i,
    {
        let row = &rows[i];
        if char_vec(row.trigger.as_str()).len() > 0 {
            out.push(
                Snippet {
                    trigger: row.trigger.clone(),
                    replacement: row.replacement.clone(),
                    mode: expansion_mode_from_name(row.mode.as_str()),
                },
            );
        }
        i = i + 1;
    }
    out
}

/// Reading back the name a mode is shown under gives that mode.
pub proof fn lemma_mode_name_round_trip(mode: ExpansionMode)
    ensures
        mode_of_name(name_of_mode(mode)) == mode,
{
    reveal_strlit("immediate");
    reveal_strlit("hotkey");
    assert("immediate"@.len() != "hotkey"@.len());
}

proof fn lemma_rows_round_trip_upto(rows: Seq<SnippetRow>, snippets: Seq<Snippet>, n: int)
    requires
        rows_show_snippets(rows, snippets),
        forall|i: int| 0 <= i < snippets.len() ==> #[trigger] snippets[i].trigger@.len() > 0,
        0 <= n <= rows.len(),
    ensures
        snippets_of_rows(rows, n) == snippets.take(n),
    decreases n,
{
    if n == 0 {
        assert(snippets.take(0) =~= Seq::<Snippet>::empty());
    } else {
        lemma_rows_round_trip_upto(rows, snippets, n - 1);
        let row = rows[n - 1];
        let s = snippets[n - 1];
        assert(s.trigger@.len() > 0);
        lemma_mode_name_round_trip(s.mode);
        assert(Snippet { trigger: row.trigger, replacement: row.replacement, mode: mode_of_name(row.mode@) } == s);
        assert(snippets.take(n - 1).push(s) =~= snippets.take(n));
    }
}

/// Saving the snippet table as it was filled from the configuration gives
/// back the configured snippets, provided none has an empty trigger (rows
/// with an empty trigger are not saved).
pub proof fn lemma_snippet_table_round_trip(rows: Seq<SnippetRow>, snippets: Seq<Snippet>)
    requires
        rows_show_snippets(rows, snippets),
        forall|i: int| 0 <= i < snippets.len() ==> #[trigger] snippets[i].trigger@.len() > 0,
    ensures
        snippets_of_rows(rows, rows.len() as int) == snippets,
{
    lemma_rows_round_trip_upto(rows, snippets, rows.len() as int);
    assert(snippets.take(snippets.len() as int) =~= snippets);
}

} // verus!

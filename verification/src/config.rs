//! The application configuration: its shape, its defaults, and the pure
//! decisions taken while loading it and locating its directory.

use vstd::prelude::*;

use crate::chars::char_vec;
use crate::unicode::{utf16_lossy, utf16_lossy_of};

verus! {

broadcast use vstd::string::group_string_axioms;

/// Hotkey configuration: Win32 modifier flags and a virtual key code.
#[derive(Debug, Clone, Copy, PartialEq, Eq, Structural)]
pub struct HotkeyConfig {
    /// Win32 modifier flags (`MOD_ALT=1`, `MOD_CONTROL=2`, `MOD_SHIFT=4`, `MOD_WIN=8`).
    pub modifiers: u32,
    /// Win32 virtual key code (e.g., 0x58 for 'X').
    pub virtual_key: u32,
}

/// Defines when a snippet is expanded.
#[derive(Debug, Clone, Copy, PartialEq, Eq, Structural)]
pub enum ExpansionMode {
    /// Expands immediately upon typing the trigger.
    Immediate,
    /// Expands only when the hotkey is pressed.
    Hotkey,
}

/// A snippet: a trigger, its replacement, and when it is expanded.
#[derive(Debug, Clone, PartialEq, Eq)]
pub struct Snippet {
    /// The string that triggers the expansion.
    pub trigger: String,
    /// The replacement string.
    pub replacement: String,
    /// The mode of expansion.
    pub mode: ExpansionMode,
}

/// The main application configuration.
#[derive(Debug, Clone, PartialEq, Eq)]
pub struct AppConfig {
    /// UI language ("en" or "da").
    pub language: String,
    /// Hotkey that expands hotkey-mode snippets.
    pub hotkey: HotkeyConfig,
    /// Size of the typing buffer (clamped to 1..=256 at load time).
    pub buffer_size: usize,
    /// Milliseconds to wait after pasting before the clipboard is restored.
    pub clipboard_restore_delay_ms: u64,
    /// Whether the snippet hotkey triggers expansion.
    pub snippet_hotkey_enabled: bool,
    /// Whether file dialogs follow the last focused Explorer folder.
    pub quick_switch_enabled: bool,
    /// Whether the case changer hotkey shows its menu.
    pub case_changer_enabled: bool,
    /// Hotkey of the case changer menu.
    pub case_changer_hotkey: HotkeyConfig,
    /// User-defined snippets.
    pub snippets: Vec<Snippet>,
}

/// A field default: `true`.
pub fn default_true() -> (r: bool)
    ensures
        r,
{
    true
}

/// The default language code, `"en"`.
pub fn default_language() -> (r: String)
    ensures
        r@ == "en"@,
{
    "en".to_string()
}

/// The default typing-buffer size, 10.
pub fn default_buffer_size() -> (r: usize)
    ensures
        r == 10,
{
    10
}

/// The default clipboard restore delay, 150 ms.
pub fn default_clipboard_restore_delay_ms() -> (r: u64)
    ensures
        r == 150,
{
    150
}

/// The case changer is enabled by default.
pub fn default_case_changer_enabled() -> (r: bool)
    ensures
        r,
{
    true
}

/// The default case changer hotkey: Ctrl (`MOD_CONTROL=2`) + CapsLock (`VK_CAPITAL=0x14`).
pub fn default_case_changer_hotkey() -> (r: HotkeyConfig)
    ensures
        r == (HotkeyConfig { modifiers: 2, virtual_key: 0x14 }),
{
    HotkeyConfig { modifiers: 2, virtual_key: 0x14 }
}

/// Whether a snippet holds the given trigger, replacement and mode.
pub open spec fn snippet_is(s: Snippet, trigger: Seq<char>, replacement: Seq<char>, mode: ExpansionMode) -> bool {
    s.trigger@ == trigger && s.replacement@ == replacement && s.mode == mode
}

/// The default configuration: English, Ctrl+Shift+T as snippet hotkey,
/// a 10-character buffer, 150 ms restore delay, every feature on,
/// Ctrl+CapsLock for the case changer, and three example snippets.
pub open spec fn is_default_config(c: AppConfig) -> bool {
    &&& c.language@ == "en"@
    &&& c.hotkey == (HotkeyConfig { modifiers: 6, virtual_key: 0x54 })
    &&& c.buffer_size == 10
    &&& c.clipboard_restore_delay_ms == 150
    &&& c.quick_switch_enabled
    &&& c.snippet_hotkey_enabled
    &&& c.case_changer_enabled
    &&& c.case_changer_hotkey == (HotkeyConfig { modifiers: 2, virtual_key: 0x14 })
    &&& c.snippets@.len() == 3
    &&& snippet_is(c.snippets@[0], ".sig"@, "Regards,\nJohn Doe"@, ExpansionMode::Immediate)
    &&& snippet_is(c.snippets@[1], ".em"@, "john.doe@example.com"@, ExpansionMode::Immediate)
    &&& snippet_is(
        c.snippets@[2],
        "jd"@,
        "With kind regards and sincerely - John Doe"@,
        ExpansionMode::Hotkey,
    )
}

/// Returns the default application configuration.
pub fn default_config() -> (r: AppConfig)
    ensures
        is_default_config(r),
{
    let mut snippets: Vec<Snippet> = Vec::new();
    snippets.push(
        Snippet {
            trigger: ".sig".to_string(),
            replacement: "Regards,\nJohn Doe".to_string(),
            mode: ExpansionMode::Immediate,
        },
    );
    snippets.push(
        Snippet {
            trigger: ".em".to_string(),
            replacement: "john.doe@example.com".to_string(),
            mode: ExpansionMode::Immediate,
        },
    );
    snippets.push(
        Snippet {
            trigger: "jd".to_string(),
            replacement: "With kind regards and sincerely - John Doe".to_string(),
            mode: ExpansionMode::Hotkey,
        },
    );
    AppConfig {
        language: "en".to_string(),
        hotkey: HotkeyConfig { modifiers: 6, virtual_key: 0x54 },
        buffer_size: 10,
        clipboard_restore_delay_ms: default_clipboard_restore_delay_ms(),
        quick_switch_enabled: true,
        snippet_hotkey_enabled: true,
        case_changer_enabled: true,
        case_changer_hotkey: default_case_changer_hotkey(),
        snippets,
    }
}

/// The buffer size a loaded configuration is held to: `n` clamped to 1..=256.
pub open spec fn clamped_buffer_size(n: usize) -> usize {
    if n < 1 {
        1
    } else if n > 256 {
        256
    } else {
        n
    }
}

/// `c` with its buffer size clamped to 1..=256.
pub open spec fn with_clamped_buffer(c: AppConfig) -> AppConfig {
    AppConfig { buffer_size: clamped_buffer_size(c.buffer_size), ..c }
}

fn clamp_buffer_size(c: AppConfig) -> (r: AppConfig)
    ensures
        r == with_clamped_buffer(c),
{
    let mut c = c;
    c.buffer_size = if c.buffer_size < 1 {
        1
    } else if c.buffer_size > 256 {
        256
    } else {
        c.buffer_size
    };
    c
}

/// The outcome of loading, given the parsed configuration file and, when
/// that could not be parsed and a backup file exists, the parsed backup:
/// the first configuration that parsed, with its buffer size clamped to
/// 1..=256; otherwise the error of the configuration file.
pub fn settle_loaded_config<E, F>(
    primary: Result<AppConfig, E>,
    backup: Option<Result<AppConfig, F>>,
) -> (r: Result<AppConfig, E>)
    ensures
        match primary {
            Ok(c) => r == Ok::<AppConfig, E>(with_clamped_buffer(c)),
            Err(e) => match backup {
                Some(Ok(b)) => r == Ok::<AppConfig, E>(with_clamped_buffer(b)),
                _ => r == Err::<AppConfig, E>(e),
            },
        },
{
    match primary {
        Ok(c) => Ok(clamp_buffer_size(c)),
        Err(e) => match backup {
            Some(Ok(b)) => Ok(clamp_buffer_size(b)),
            _ => Err(e),
        },
    }
}

/// Where the configuration lives, from the result of reading the
/// registered path: a registered path means installed mode; no registered
/// path means portable mode next to the executable; a failed read falls
/// back to the default application-data directory (installed mode).
/// Returns `(directory, is_portable)`.
pub fn choose_config_dir<P>(registry: Result<Option<P>, u32>, exe_dir: P, appdata_dir: P) -> (r: (P, bool))
    ensures
        match registry {
            Ok(Some(d)) => r == (d, false),
            Ok(None) => r == (exe_dir, true),
            Err(_) => r == (appdata_dir, false),
        },
{
    match registry {
        Ok(Some(dir)) => (dir, false),
        Ok(None) => (exe_dir, true),
        Err(_) => (appdata_dir, false),
    }
}

/// The UTF-16 units before the first NUL (all of them when there is none).
pub open spec fn before_nul(units: Seq<u16>) -> Seq<u16>
    decreases units.len(),
{
    if units.len() == 0 || units[0] == 0 {
        Seq::empty()
    } else {
        seq![units[0]] + before_nul(units.drop_first())
    }
}

/// The path a registry string value holds: its text before the first NUL,
/// decoded with replacement characters; none when that text is empty.
pub open spec fn registry_path_of(units: Seq<u16>) -> Option<Seq<char>> {
    let text = utf16_lossy_of(before_nul(units));
    if text.len() == 0 {
        None
    } else {
        Some(text)
    }
}

proof fn lemma_before_nul_at(units: Seq<u16>, k: int)
    requires
        0 <= k <= units.len(),
        forall|j: int| 0 <= j < k ==> #[trigger] units[j] != 0,
        k == units.len() || units[k] == 0,
    ensures
        before_nul(units) == units.take(k),
    decreases k,
{
    if k == 0 {
        assert(units.take(0) =~= Seq::<u16>::empty());
    } else {
        let t = units.drop_first();
        assert forall|j: int| 0 <= j < k - 1 implies #[trigger] t[j] != 0 by {
            assert(t[j] == units[j + 1]);
        }
        lemma_before_nul_at(t, k - 1);
        assert(seq![units[0]] + t.take(k - 1) =~= units.take(k));
    }
}

/// Decodes a registry string value (UTF-16, NUL-terminated) into a path.
pub fn registry_value_path(units: &[u16]) -> (r: Option<String>)
    ensures
        match registry_path_of(units@) {
            Some(p) => r is Some && r->0@ == p,
            None => r is None,
        },
{
    let mut k: usize = 0;
    while k < units.len() && units[k] != 0
        invariant
            k <= units@.len(),
            forall|j: int| 0 <= j < k ==> #[trigger] units@[j] != 0,
        decreases units@.len() - k,
    {
        k = k + 1;
    }
    proof { lemma_before_nul_at(units@, k as int); }
    let mut prefix: Vec<u16> = Vec::new();
    let mut i: usize = 0;
    while i < k
        invariant
            k <= units@.len(),
            i <= k,
            prefix@ == units@.take(i as int),
        decreases k - i,
    {
        prefix.push(units[i]);
        i = i + 1;
        assert(prefix@ =~= units@.take(i as int));
    }
    let s = utf16_lossy(&prefix);
    if char_vec(s.as_str()).len() == 0 {
        None
    } else {
        Some(s)
    }
}

// ---------------------------------------------------------------------------
// Reading, deleting and moving the registered configuration directory
// ---------------------------------------------------------------------------

/// Win32 `ERROR_FILE_NOT_FOUND`.
pub const ERROR_FILE_NOT_FOUND_CODE: u32 = 2;
/// Win32 `ERROR_PATH_NOT_FOUND`.
pub const ERROR_PATH_NOT_FOUND_CODE: u32 = 3;
/// Win32 registry value type `REG_SZ` (a NUL-terminated string).
pub const REG_SZ_TYPE: u32 = 1;
/// The error reported for a registered path that is not a `REG_SZ` value.
pub const UNEXPECTED_VALUE_TYPE: u32 = 0xDEAD_0001;

/// The outcome of opening the registry key, when it ends the read: a key
/// that is absent means no registered path; another failure is reported
/// with its code. `None` when the key was opened (status 0).
pub fn registry_open_outcome(status: u32) -> (r: Option<Result<Option<String>, u32>>)
    ensures
        status == 0 ==> r is None,
        status == ERROR_FILE_NOT_FOUND_CODE || status == ERROR_PATH_NOT_FOUND_CODE ==> r == Some(
            Ok::<Option<String>, u32>(None),
        ),
        status != 0 && status != ERROR_FILE_NOT_FOUND_CODE && status != ERROR_PATH_NOT_FOUND_CODE
            ==> r == Some(Err::<Option<String>, u32>(status)),
{
    if status == 0 {
        None
    } else if status == ERROR_FILE_NOT_FOUND_CODE || status == ERROR_PATH_NOT_FOUND_CODE {
        Some(Ok(None))
    } else {
        Some(Err(status))
    }
}

/// The outcome of asking for the value's size, when it ends the read: a
/// value that is absent means no registered path; another failure is
/// reported with its code. `None` when the size was read (status 0).
pub fn registry_size_outcome(status: u32) -> (r: Option<Result<Option<String>, u32>>)
    ensures
        status == 0 ==> r is None,
        status == ERROR_FILE_NOT_FOUND_CODE ==> r == Some(Ok::<Option<String>, u32>(None)),
        status != 0 && status != ERROR_FILE_NOT_FOUND_CODE ==> r == Some(Err::<Option<String>, u32>(status)),
{
    if status == 0 {
        None
    } else if status == ERROR_FILE_NOT_FOUND_CODE {
        Some(Ok(None))
    } else {
        Some(Err(status))
    }
}

/// The outcome of reading the value itself: a failed read is reported with
/// its code, a value that is not a string with [`UNEXPECTED_VALUE_TYPE`];
/// otherwise the path it holds (see [`registry_value_path`]).
pub fn registry_value_outcome(status: u32, value_type: u32, units: &[u16]) -> (r: Result<Option<String>, u32>)
    ensures
        status != 0 ==> r == Err::<Option<String>, u32>(status),
        status == 0 && value_type != REG_SZ_TYPE ==> r == Err::<Option<String>, u32>(UNEXPECTED_VALUE_TYPE),
        status == 0 && value_type == REG_SZ_TYPE ==> match registry_path_of(units@) {
            Some(p) => r matches Ok(Some(x)) && x@ == p,
            None => r == Ok::<Option<String>, u32>(None),
        },
{
    if status != 0 {
        Err(status)
    } else if value_type != REG_SZ_TYPE {
        Err(UNEXPECTED_VALUE_TYPE)
    } else {
        Ok(registry_value_path(units))
    }
}

/// The outcome of deleting the registry key: success, also when the key
/// was already absent; otherwise the failure code.
pub fn registry_delete_outcome(status: u32) -> (r: Result<(), u32>)
    ensures
        status == 0 || status == ERROR_FILE_NOT_FOUND_CODE ==> r == Ok::<(), u32>(()),
        status != 0 && status != ERROR_FILE_NOT_FOUND_CODE ==> r == Err::<(), u32>(status),
{
    if status != 0 && status != ERROR_FILE_NOT_FOUND_CODE {
        Err(status)
    } else {
        Ok(())
    }
}

/// What uninstalling does to the configuration: `(delete the registry key,
/// remove the directory)`. The key exists only in installed mode; the
/// directory is removed only when it is the default application-data
/// location and exists (a custom or cloud-synced folder is kept).
pub fn uninstall_cleanup(portable: bool, is_default_dir: bool, dir_exists: bool) -> (r: (bool, bool))
    ensures
        r == (!portable, is_default_dir && dir_exists),
{
    (!portable, is_default_dir && dir_exists)
}

/// The copies a configuration move makes, from what exists: whether to copy
/// `config.toml` (only when it exists and the new folder holds none, so an
/// existing one there is kept), the backup, and the debug log (each when it
/// exists, overwriting). `None` when the folder does not change.
pub fn move_copies(same_dir: bool, old_config: bool, new_config: bool, old_backup: bool, old_log: bool) -> (r:
    Option<(bool, bool, bool)>)
    ensures
        same_dir ==> r is None,
        !same_dir ==> r == Some((old_config && !new_config, old_backup, old_log)),
{
    if same_dir {
        None
    } else {
        Some((old_config && !new_config, old_backup, old_log))
    }
}

/// A loaded configuration's buffer size always lies in 1..=256, and sizes
/// already in that range are kept.
pub proof fn lemma_loaded_buffer_size_in_range(c: AppConfig)
    ensures
        1 <= with_clamped_buffer(c).buffer_size <= 256,
        1 <= c.buffer_size <= 256 ==> with_clamped_buffer(c) == c,
{
}

} // verus!

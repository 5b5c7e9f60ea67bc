//! The case and space changer menu: its command identifiers and the
//! transformation each one applies to the selected text.

use vstd::prelude::*;

use crate::text_utils::{
    crlf_normalised, fix_linebreaks, lower_camel_cased, pascal_cased, remove_spaces,
    replace_spaces_with_dash, replace_spaces_with_underscore, sentence_cased, spaces_replaced,
    title_cased, to_lower_camel_case, to_lowercase, to_pascal_case, to_sentence_case,
    to_title_case, to_uppercase, to_windows_filename, windows_filename, without_spaces,
};
use crate::unicode::{lower_of_str, upper_of_str};

verus! {

/// Menu command: UPPERCASE.
pub const IDM_UPPERCASE: u32 = 1;
/// Menu command: lowercase.
pub const IDM_LOWERCASE: u32 = 2;
/// Menu command: Title Case.
pub const IDM_TITLE_CASE: u32 = 3;
/// Menu command: Sentence case.
pub const IDM_SENTENCE_CASE: u32 = 4;
/// Menu command: Fix Linebreaks.
pub const IDM_FIX_LINEBREAKS: u32 = 5;
/// Menu command: Remove spaces.
pub const IDM_REMOVE_SPACES: u32 = 6;
/// Menu command: Replace space with `_`.
pub const IDM_REPLACE_SPACE_UNDERSCORE: u32 = 7;
/// Menu command: Replace space with `-`.
pub const IDM_REPLACE_SPACE_DASH: u32 = 8;
/// Menu command: lowerCamelCase.
pub const IDM_LOWER_CAMEL: u32 = 9;
/// Menu command: PascalCase.
pub const IDM_PASCAL_CASE: u32 = 10;
/// Menu command: Windows filename.
pub const IDM_WINDOWS_FILENAME: u32 = 11;

/// The text a menu command turns `text` into (none for an unknown command).
pub open spec fn case_command_result(cmd: u32, text: Seq<char>, lang: Seq<char>) -> Option<Seq<char>> {
    if cmd == IDM_UPPERCASE {
        Some(upper_of_str(text))
    } else if cmd == IDM_LOWERCASE {
        Some(lower_of_str(text))
    } else if cmd == IDM_TITLE_CASE {
        Some(title_cased(text))
    } else if cmd == IDM_SENTENCE_CASE {
        Some(sentence_cased(text))
    } else if cmd == IDM_FIX_LINEBREAKS {
        Some(crlf_normalised(text))
    } else if cmd == IDM_REMOVE_SPACES {
        Some(without_spaces(text))
    } else if cmd == IDM_REPLACE_SPACE_UNDERSCORE {
        Some(spaces_replaced(text, '_'))
    } else if cmd == IDM_REPLACE_SPACE_DASH {
        Some(spaces_replaced(text, '-'))
    } else if cmd == IDM_LOWER_CAMEL {
        Some(lower_camel_cased(text))
    } else if cmd == IDM_PASCAL_CASE {
        Some(pascal_cased(text))
    } else if cmd == IDM_WINDOWS_FILENAME {
        Some(windows_filename(text, lang))
    } else {
        None
    }
}

/// Applies the transformation of menu command `cmd` to the selected text;
/// `lang` is the interface language (for the file-name fallback text).
/// Returns `None` for a command the menu does not have.
pub fn apply_case_command(cmd: u32, text: &str, lang: &str) -> (r: Option<String>)
    ensures
        match case_command_result(cmd, text@, lang@) {
            Some(t) => r is Some && r->0@ == t,
            None => r is None,
        },
{
    if cmd == IDM_UPPERCASE {
        Some(to_uppercase(text))
    } else if cmd == IDM_LOWERCASE {
        Some(to_lowercase(text))
    } else if cmd == IDM_TITLE_CASE {
        Some(to_title_case(text))
    } else if cmd == IDM_SENTENCE_CASE {
        Some(to_sentence_case(text))
    } else if cmd == IDM_FIX_LINEBREAKS {
        Some(fix_linebreaks(text))
    } else if cmd == IDM_REMOVE_SPACES {
        Some(remove_spaces(text))
    } else if cmd == IDM_REPLACE_SPACE_UNDERSCORE {
        Some(replace_spaces_with_underscore(text))
    } else if cmd == IDM_REPLACE_SPACE_DASH {
        Some(replace_spaces_with_dash(text))
    } else if cmd == IDM_LOWER_CAMEL {
        Some(to_lower_camel_case(text))
    } else if cmd == IDM_PASCAL_CASE {
        Some(to_pascal_case(text))
    } else if cmd == IDM_WINDOWS_FILENAME {
        Some(to_windows_filename(text, lang))
    } else {
        None
    }
}

/// The Spaces submenu item that a typed character selects directly:
/// `_` the second item (replace with underscores), `-` the third (replace
/// with dashes), counting from zero.
pub open spec fn menu_char_item_of(code: u32) -> Option<u32> {
    if code == 0x5F {
        Some(1)
    } else if code == 0x2D {
        Some(2)
    } else {
        None
    }
}

/// The Spaces submenu item a typed character selects (for `WM_MENUCHAR`).
pub fn menu_char_item(code: u32) -> (r: Option<u32>)
    ensures
        r == menu_char_item_of(code),
{
    if code == 0x5F {
        Some(1)
    } else if code == 0x2D {
        Some(2)
    } else {
        None
    }
}

} // verus!

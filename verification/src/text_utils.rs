//! Text transformations offered by the case and space changer.

use vstd::prelude::*;
use vstd::seq_lib::lemma_flatten_concat;

use crate::i18n::{get_strings, strings_for};
use crate::chars::{char_vec, push_char, push_chars, string_from};
use crate::unicode::{
    graphemes, graphemes_of, is_lowercase, is_lowercase_char, is_uppercase, is_uppercase_char,
    is_whitespace, is_whitespace_char, lower_chars, lower_of_char, lower_of_str, lower_str,
    upper_chars, upper_of_char, upper_of_str, upper_str,
};

verus! {

// ---------------------------------------------------------------------------
// Line endings
// ---------------------------------------------------------------------------

/// What position `i` of `s` contributes to the CRLF normalisation: a line
/// feed becomes CR LF, a carriage return that precedes a line feed is
/// absorbed into that pair, and every other character stays.
pub open spec fn crlf_piece(s: Seq<char>, i: int) -> Seq<char> {
    if s[i] == '\n' {
        seq!['\r', '\n']
    } else if s[i] == '\r' && i + 1 < s.len() && s[i + 1] == '\n' {
        Seq::empty()
    } else {
        seq![s[i]]
    }
}

/// The normalisation of the first `n` positions of `s`.
pub open spec fn crlf_upto(s: Seq<char>, n: int) -> Seq<char>
    decreases n,
{
    if n <= 0 {
        Seq::empty()
    } else {
        crlf_upto(s, n - 1) + crlf_piece(s, n - 1)
    }
}

/// `s` with every line ending (CR LF or a lone LF) written as CR LF.
pub open spec fn crlf_normalised(s: Seq<char>) -> Seq<char> {
    crlf_upto(s, s.len() as int)
}

/// Normalises line endings in a string to CRLF (`\r\n`), as required by the
/// Win32 `CF_UNICODETEXT` clipboard format. Existing `\r\n` pairs are kept
/// (not doubled); every lone `\n` becomes `\r\n`.
pub fn normalise_to_crlf(text: &str) -> (r: String)
    ensures
        r@ == crlf_normalised(text@),
{
    let v = char_vec(text);
    let mut out = String::new();
    let mut i: usize = 0;
    while i < v.len()
        invariant
            v@ == text@,
            i <= v@.len(),
            out@ == crlf_upto(v@, i as int),
        decreases v@.len() - i,
    {
        let c = v[i];
        if c == '\n' {
            push_char(&mut out, '\r');
            push_char(&mut out, '\n');
        } else if c == '\r' && i + 1 < v.len() && v[i + 1] == '\n' {
        } else {
            push_char(&mut out, c);
        }
        i = i + 1;
        assert(out@ =~= crlf_upto(v@, i as int));
    }
    out
}

/// Normalises all line endings to CRLF (the case changer's "Fix Linebreaks").
pub fn fix_linebreaks(text: &str) -> (r: String)
    ensures
        r@ == crlf_normalised(text@),
{
    normalise_to_crlf(text)
}

// ---------------------------------------------------------------------------
// Whole-string case
// ---------------------------------------------------------------------------

/// Converts all characters in `text` to uppercase (full Unicode mapping).
pub fn to_uppercase(text: &str) -> (r: String)
    ensures
        r@ == upper_of_str(text@),
{
    upper_str(text)
}

/// Converts all characters in `text` to lowercase (full Unicode mapping).
pub fn to_lowercase(text: &str) -> (r: String)
    ensures
        r@ == lower_of_str(text@),
{
    lower_str(text)
}

// ---------------------------------------------------------------------------
// Spaces
// ---------------------------------------------------------------------------

/// Horizontal whitespace: any white space other than CR and LF.
pub open spec fn is_horizontal_space(c: char) -> bool {
    is_whitespace_char(c) && c != '\r' && c != '\n'
}

/// `s` without its horizontal whitespace, first `n` positions.
pub open spec fn without_spaces_upto(s: Seq<char>, n: int) -> Seq<char>
    decreases n,
{
    if n <= 0 {
        Seq::empty()
    } else if is_horizontal_space(s[n - 1]) {
        without_spaces_upto(s, n - 1)
    } else {
        without_spaces_upto(s, n - 1).push(s[n - 1])
    }
}

/// `s` without its horizontal whitespace; line breaks stay.
pub open spec fn without_spaces(s: Seq<char>) -> Seq<char> {
    without_spaces_upto(s, s.len() as int)
}

/// `s` with each horizontal whitespace character replaced by `r`.
pub open spec fn spaces_replaced(s: Seq<char>, r: char) -> Seq<char> {
    Seq::new(s.len(), |i: int| if is_horizontal_space(s[i]) { r } else { s[i] })
}

fn is_horizontal(c: char) -> (r: bool)
    ensures
        r == is_horizontal_space(c),
{
    is_whitespace(c) && c != '\r' && c != '\n'
}

/// Removes all spaces and horizontal whitespace (spaces, tabs, non-breaking
/// spaces) from `text`, while preserving line breaks.
pub fn remove_spaces(text: &str) -> (r: String)
    ensures
        r@ == without_spaces(text@),
{
    let v = char_vec(text);
    let mut out = String::new();
    let mut i: usize = 0;
    while i < v.len()
        invariant
            v@ == text@,
            i <= v@.len(),
            out@ == without_spaces_upto(v@, i as int),
        decreases v@.len() - i,
    {
        let c = v[i];
        if !is_horizontal(c) {
            push_char(&mut out, c);
        }
        i = i + 1;
    }
    out
}

/// Replaces all horizontal whitespace with `replacement`, keeping line breaks.
fn replace_spaces_with_char(text: &str, replacement: char) -> (r: String)
    ensures
        r@ == spaces_replaced(text@, replacement),
{
    let v = char_vec(text);
    let mut out: Vec<char> = Vec::new();
    let mut i: usize = 0;
    while i < v.len()
        invariant
            v@ == text@,
            i <= v@.len(),
            out@ == spaces_replaced(v@, replacement).take(i as int),
        decreases v@.len() - i,
    {
        let c = v[i];
        if is_horizontal(c) {
            out.push(replacement);
        } else {
            out.push(c);
        }
        i = i + 1;
        assert(out@ =~= spaces_replaced(v@, replacement).take(i as int));
    }
    assert(out@ =~= spaces_replaced(v@, replacement));
    string_from(&out)
}

/// Replaces all horizontal whitespace with `_`, keeping line breaks.
pub fn replace_spaces_with_underscore(text: &str) -> (r: String)
    ensures
        r@ == spaces_replaced(text@, '_'),
{
    replace_spaces_with_char(text, '_')
}

/// Replaces all horizontal whitespace with `-`, keeping line breaks.
pub fn replace_spaces_with_dash(text: &str) -> (r: String)
    ensures
        r@ == spaces_replaced(text@, '-'),
{
    replace_spaces_with_char(text, '-')
}

// ---------------------------------------------------------------------------
// Title and sentence case
// ---------------------------------------------------------------------------

/// Title case at position `i`: the first character of every
/// whitespace-separated word is uppercased; everything else stays.
pub open spec fn title_piece(s: Seq<char>, i: int) -> Seq<char> {
    if !is_whitespace_char(s[i]) && (i == 0 || is_whitespace_char(s[i - 1])) {
        upper_of_char(s[i])
    } else {
        seq![s[i]]
    }
}

/// Title case of the first `n` positions of `s`.
pub open spec fn title_upto(s: Seq<char>, n: int) -> Seq<char>
    decreases n,
{
    if n <= 0 {
        Seq::empty()
    } else {
        title_upto(s, n - 1) + title_piece(s, n - 1)
    }
}

/// `s` in title case.
pub open spec fn title_cased(s: Seq<char>) -> Seq<char> {
    title_upto(s, s.len() as int)
}

/// Capitalises the first letter of every whitespace-separated word.
/// Existing capitalisation inside words is preserved.
pub fn to_title_case(text: &str) -> (r: String)
    ensures
        r@ == title_cased(text@),
{
    let v = char_vec(text);
    let mut out = String::new();
    let mut capitalise_next = true;
    let mut i: usize = 0;
    while i < v.len()
        invariant
            v@ == text@,
            i <= v@.len(),
            capitalise_next == (i == 0 || is_whitespace_char(v@[i - 1])),
            out@ == title_upto(v@, i as int),
        decreases v@.len() - i,
    {
        let ch = v[i];
        if is_whitespace(ch) {
            push_char(&mut out, ch);
            capitalise_next = true;
        } else if capitalise_next {
            let up = upper_chars(ch);
            push_chars(&mut out, &up);
            capitalise_next = false;
        } else {
            push_char(&mut out, ch);
        }
        i = i + 1;
        assert(out@ =~= title_upto(v@, i as int));
    }
    out
}

/// A sentence ends at `.`, `!` or `?`.
pub open spec fn is_terminator(c: char) -> bool {
    c == '.' || c == '!' || c == '?'
}

/// The first character `char::to_lowercase` yields (or `c` itself when it
/// yields none).
pub open spec fn lower_first(c: char) -> char {
    if lower_of_char(c).len() > 0 {
        lower_of_char(c)[0]
    } else {
        c
    }
}

/// A sentence break at position `j` of `s`: white space right after `.`,
/// `!` or `?`.
pub open spec fn is_sentence_break(s: Seq<char>, j: int) -> bool {
    0 < j < s.len() && is_terminator(s[j - 1]) && is_whitespace_char(s[j])
}

/// A character that is neither white space nor a sentence terminator.
pub open spec fn is_ordinary(c: char) -> bool {
    !is_terminator(c) && !is_whitespace_char(c)
}

/// Whether the next ordinary character at or after position `i` starts a
/// sentence: every ordinary character before `i` is followed by a sentence
/// break before `i` (so at the start of the text, and after a break until
/// the first ordinary character).
pub open spec fn awaits_capital(s: Seq<char>, i: int) -> bool {
    forall|k: int|
        #![trigger is_ordinary(s[k])]
        0 <= k < i && is_ordinary(s[k]) ==> exists|j: int| k < j < i && #[trigger] is_sentence_break(s, j)
}

/// Whether the character before position `i` is a sentence terminator.
pub open spec fn follows_terminator(s: Seq<char>, i: int) -> bool {
    i > 0 && is_terminator(s[i - 1])
}

proof fn lemma_awaits_capital_step(s: Seq<char>, n: int)
    requires
        0 <= n < s.len(),
    ensures
        awaits_capital(s, n + 1) == if is_terminator(s[n]) {
            awaits_capital(s, n)
        } else if follows_terminator(s, n) && is_whitespace_char(s[n]) {
            true
        } else if awaits_capital(s, n) && !is_whitespace_char(s[n]) {
            false
        } else {
            awaits_capital(s, n)
        },
{
    let c = s[n];
    if is_terminator(c) || !(follows_terminator(s, n) && is_whitespace_char(c)) && (is_whitespace_char(c)
        || !awaits_capital(s, n)) {
        // No break at `n`; the result follows the state before `n`, or is
        // false because `c` is ordinary and nothing was pending.
        assert(!is_sentence_break(s, n));
        if awaits_capital(s, n + 1) && !is_ordinary(c) {
            assert forall|k: int|
                #![trigger is_ordinary(s[k])]
                0 <= k < n && is_ordinary(s[k]) implies exists|j: int| k < j < n && #[trigger] is_sentence_break(s, j) by {
                let j = choose|j: int| k < j < n + 1 && #[trigger] is_sentence_break(s, j);
                assert(j != n);
            }
        }
        if awaits_capital(s, n) && !is_ordinary(c) {
            assert forall|k: int|
                #![trigger is_ordinary(s[k])]
                0 <= k < n + 1 && is_ordinary(s[k]) implies exists|j: int| k < j < n + 1 && #[trigger] is_sentence_break(s, j) by {
                assert(k < n);
                let j = choose|j: int| k < j < n && #[trigger] is_sentence_break(s, j);
                assert(k < j < n + 1);
            }
        }
        if is_ordinary(c) {
            assert(!awaits_capital(s, n));
            assert(is_ordinary(s[n]));
        }
    } else if follows_terminator(s, n) && is_whitespace_char(c) {
        assert(is_sentence_break(s, n));
        assert forall|k: int|
            #![trigger is_ordinary(s[k])]
            0 <= k < n + 1 && is_ordinary(s[k]) implies exists|j: int| k < j < n + 1 && #[trigger] is_sentence_break(s, j) by {
            assert(k < n + 1 && is_sentence_break(s, n));
        }
    } else {
        assert(is_ordinary(s[n]));
    }
}

/// Sentence case at position `i`: terminators and the whitespace after them
/// stay, the first non-blank character of a sentence is uppercased, every
/// other character is lowercased.
pub open spec fn sentence_piece(s: Seq<char>, i: int) -> Seq<char> {
    let cap = awaits_capital(s, i);
    let prev = follows_terminator(s, i);
    let c = s[i];
    if is_terminator(c) {
        seq![c]
    } else if prev && is_whitespace_char(c) {
        seq![c]
    } else if cap && !is_whitespace_char(c) {
        upper_of_char(c)
    } else {
        seq![lower_first(c)]
    }
}

/// Sentence case of the first `n` positions of `s`.
pub open spec fn sentence_upto(s: Seq<char>, n: int) -> Seq<char>
    decreases n,
{
    if n <= 0 {
        Seq::empty()
    } else {
        sentence_upto(s, n - 1) + sentence_piece(s, n - 1)
    }
}

/// `s` in sentence case.
pub open spec fn sentence_cased(s: Seq<char>) -> Seq<char> {
    sentence_upto(s, s.len() as int)
}

/// Capitalises the first letter of each sentence and lowercases the rest.
/// A sentence starts at the beginning of the text and after `.`, `!` or `?`
/// followed by whitespace.
pub fn to_sentence_case(text: &str) -> (r: String)
    ensures
        r@ == sentence_cased(text@),
{
    let v = char_vec(text);
    let mut out = String::new();
    let mut capitalise_next = true;
    let mut prev_was_terminator = false;
    let mut i: usize = 0;
    while i < v.len()
        invariant
            v@ == text@,
            i <= v@.len(),
            capitalise_next == awaits_capital(v@, i as int),
            prev_was_terminator == follows_terminator(v@, i as int),
            out@ == sentence_upto(v@, i as int),
        decreases v@.len() - i,
    {
        let ch = v[i];
        let ws = is_whitespace(ch);
        proof { lemma_awaits_capital_step(v@, i as int); }
        if ch == '.' || ch == '!' || ch == '?' {
            push_char(&mut out, ch);
            prev_was_terminator = true;
        } else if prev_was_terminator && ws {
            push_char(&mut out, ch);
            capitalise_next = true;
            prev_was_terminator = false;
        } else if capitalise_next && !ws {
            let up = upper_chars(ch);
            push_chars(&mut out, &up);
            capitalise_next = false;
            prev_was_terminator = false;
        } else {
            let low = lower_chars(ch);
            let first = if low.len() > 0 { low[0] } else { ch };
            push_char(&mut out, first);
            prev_was_terminator = false;
        }
        i = i + 1;
        assert(out@ =~= sentence_upto(v@, i as int));
    }
    out
}

// ---------------------------------------------------------------------------
// Windows file names
// ---------------------------------------------------------------------------

/// Characters Windows forbids in a file name: `< > : " / \ | ? *` and the
/// ASCII control characters 0 to 31.
pub open spec fn is_forbidden_in_filename(c: char) -> bool {
    c == '<' || c == '>' || c == ':' || c == '"' || c == '/' || c == '\\' || c == '|' || c == '?'
        || c == '*' || (c as u32) <= 0x1f
}

/// Whether the file-name filter is inside a run of whitespace before
/// position `n` (forbidden characters do not end a run).
pub open spec fn in_whitespace_run(s: Seq<char>, n: int) -> bool
    decreases n,
{
    if n <= 0 {
        false
    } else if is_whitespace_char(s[n - 1]) {
        true
    } else if is_forbidden_in_filename(s[n - 1]) {
        in_whitespace_run(s, n - 1)
    } else {
        false
    }
}

/// The filter at position `i`: a run of whitespace becomes one space,
/// forbidden characters are dropped, everything else stays.
pub open spec fn filename_piece(s: Seq<char>, i: int) -> Seq<char> {
    if is_whitespace_char(s[i]) {
        if in_whitespace_run(s, i) {
            Seq::empty()
        } else {
            seq![' ']
        }
    } else if is_forbidden_in_filename(s[i]) {
        Seq::empty()
    } else {
        seq![s[i]]
    }
}

/// The filter applied to the first `n` positions of `s`.
pub open spec fn filename_filtered_upto(s: Seq<char>, n: int) -> Seq<char>
    decreases n,
{
    if n <= 0 {
        Seq::empty()
    } else {
        filename_filtered_upto(s, n - 1) + filename_piece(s, n - 1)
    }
}

/// `s` with forbidden characters dropped and whitespace runs collapsed.
pub open spec fn filename_filtered(s: Seq<char>) -> Seq<char> {
    filename_filtered_upto(s, s.len() as int)
}

/// Spaces and dots are trimmed from both ends of a file name.
pub open spec fn is_trimmed_char(c: char) -> bool {
    c == ' ' || c == '.'
}

/// `s` without its leading spaces and dots.
pub open spec fn trim_start(s: Seq<char>) -> Seq<char>
    decreases s.len(),
{
    if s.len() > 0 && is_trimmed_char(s[0]) {
        trim_start(s.drop_first())
    } else {
        s
    }
}

/// `s` without its trailing spaces and dots.
pub open spec fn trim_end(s: Seq<char>) -> Seq<char>
    decreases s.len(),
{
    if s.len() > 0 && is_trimmed_char(s.last()) {
        trim_end(s.drop_last())
    } else {
        s
    }
}

/// `s` without leading and trailing spaces and dots.
pub open spec fn trim_both(s: Seq<char>) -> Seq<char> {
    trim_end(trim_start(s))
}

/// The longest a file-name component may be, in characters.
pub open spec fn max_filename_len() -> nat {
    255
}

/// The text that stands in for a file name when nothing valid is left: the
/// localised "all characters are invalid" prefix followed by the input.
pub open spec fn all_invalid_text(text: Seq<char>, lang: Seq<char>) -> Seq<char> {
    strings_for(lang).case_menu_all_chars_invalid@ + text
}

/// The Windows file name made from `text`.
pub open spec fn windows_filename(text: Seq<char>, lang: Seq<char>) -> Seq<char> {
    if text.len() == 0 {
        Seq::empty()
    } else {
        let t = trim_both(filename_filtered(text));
        if t.len() == 0 {
            all_invalid_text(text, lang)
        } else {
            let r = if t.len() > max_filename_len() {
                trim_end(t.take(max_filename_len() as int))
            } else {
                t
            };
            if r.len() == 0 {
                all_invalid_text(text, lang)
            } else {
                r
            }
        }
    }
}

proof fn lemma_trim_start_at(s: Seq<char>, k: int)
    requires
        0 <= k <= s.len(),
        forall|j: int| 0 <= j < k ==> is_trimmed_char(#[trigger] s[j]),
        k == s.len() || !is_trimmed_char(s[k]),
    ensures
        trim_start(s) == s.skip(k),
    decreases k,
{
    if k == 0 {
        assert(s.skip(0) =~= s);
    } else {
        let t = s.drop_first();
        assert forall|j: int| 0 <= j < k - 1 implies is_trimmed_char(#[trigger] t[j]) by {
            assert(t[j] == s[j + 1]);
        }
        lemma_trim_start_at(t, k - 1);
        assert(t.skip(k - 1) =~= s.skip(k));
    }
}

proof fn lemma_trim_end_at(s: Seq<char>, k: int)
    requires
        0 <= k <= s.len(),
        forall|j: int| k <= j < s.len() ==> is_trimmed_char(#[trigger] s[j]),
        k == 0 || !is_trimmed_char(s[k - 1]),
    ensures
        trim_end(s) == s.take(k),
    decreases s.len() - k,
{
    if k == s.len() {
        assert(s.take(k) =~= s);
    } else {
        let t = s.drop_last();
        assert forall|j: int| k <= j < t.len() implies is_trimmed_char(#[trigger] t[j]) by {
            assert(t[j] == s[j]);
        }
        lemma_trim_end_at(t, k);
        assert(t.take(k) =~= s.take(k));
    }
}

fn is_trim(c: char) -> (r: bool)
    ensures
        r == is_trimmed_char(c),
{
    c == ' ' || c == '.'
}

/// The characters of `v` in `lo..hi`.
fn slice_chars(v: &Vec<char>, lo: usize, hi: usize) -> (r: Vec<char>)
    requires
        lo <= hi <= v@.len(),
    ensures
        r@ == v@.subrange(lo as int, hi as int),
{
    let mut r: Vec<char> = Vec::new();
    let mut i = lo;
    while i < hi
        invariant
            lo <= i <= hi,
            hi <= v@.len(),
            r@ == v@.subrange(lo as int, i as int),
        decreases hi - i,
    {
        r.push(v[i]);
        i = i + 1;
        assert(r@ =~= v@.subrange(lo as int, i as int));
    }
    r
}

/// `v` without trailing spaces and dots.
fn trim_end_chars(v: &Vec<char>) -> (r: Vec<char>)
    ensures
        r@ == trim_end(v@),
{
    let mut e = v.len();
    while e > 0 && is_trim(v[e - 1])
        invariant
            e <= v@.len(),
            forall|j: int| e <= j < v@.len() ==> is_trimmed_char(#[trigger] v@[j]),
        decreases e,
    {
        e = e - 1;
    }
    proof { lemma_trim_end_at(v@, e as int); }
    slice_chars(v, 0, e)
}

/// `v` without leading and trailing spaces and dots.
fn trim_chars(v: &Vec<char>) -> (r: Vec<char>)
    ensures
        r@ == trim_both(v@),
{
    let mut f: usize = 0;
    while f < v.len() && is_trim(v[f])
        invariant
            f <= v@.len(),
            forall|j: int| 0 <= j < f ==> is_trimmed_char(#[trigger] v@[j]),
        decreases v@.len() - f,
    {
        f = f + 1;
    }
    proof { lemma_trim_start_at(v@, f as int); }
    let rest = slice_chars(v, f, v.len());
    assert(rest@ =~= v@.skip(f as int));
    trim_end_chars(&rest)
}

fn is_windows_forbidden_char(c: char) -> (r: bool)
    ensures
        r == is_forbidden_in_filename(c),
{
    c == '<' || c == '>' || c == ':' || c == '"' || c == '/' || c == '\\' || c == '|' || c == '?'
        || c == '*' || (c as u32) <= 0x1f
}

fn all_invalid(text: &str, lang: &str) -> (r: String)
    ensures
        r@ == all_invalid_text(text@, lang@),
{
    let prefix = get_strings(lang).case_menu_all_chars_invalid;
    let mut out = String::new();
    push_chars(&mut out, &char_vec(prefix));
    push_chars(&mut out, &char_vec(text));
    out
}

/// Transforms `text` to be safe for use as a Windows file name.
///
/// - Forbidden characters (`< > : " / \ | ? *` and ASCII control characters
///   0 to 31) are removed.
/// - Each run of whitespace (line breaks included) becomes a single space.
/// - Leading and trailing spaces and dots are trimmed; letters, casing and
///   inner dots are preserved.
/// - The result is cut to 255 characters and trailing spaces and dots are
///   trimmed again.
/// - When nothing is left, the result is the localised prefix
///   ("All chars are invalid: " in English) followed by `text`.
/// - The empty text gives the empty string.
pub fn to_windows_filename(text: &str, lang: &str) -> (r: String)
    ensures
        r@ == windows_filename(text@, lang@),
{
    let v = char_vec(text);
    if v.len() == 0 {
        return String::new();
    }
    let mut filtered: Vec<char> = Vec::new();
    let mut in_ws = false;
    let mut i: usize = 0;
    while i < v.len()
        invariant
            v@ == text@,
            i <= v@.len(),
            in_ws == in_whitespace_run(v@, i as int),
            filtered@ == filename_filtered_upto(v@, i as int),
        decreases v@.len() - i,
    {
        let ch = v[i];
        if is_whitespace(ch) {
            if !in_ws {
                filtered.push(' ');
                in_ws = true;
            }
        } else if is_windows_forbidden_char(ch) {
        } else {
            filtered.push(ch);
            in_ws = false;
        }
        i = i + 1;
        assert(filtered@ =~= filename_filtered_upto(v@, i as int));
    }
    let trimmed = trim_chars(&filtered);
    if trimmed.len() == 0 {
        return all_invalid(text, lang);
    }
    let result = if trimmed.len() > 255 {
        let cut = slice_chars(&trimmed, 0, 255);
        assert(cut@ =~= trimmed@.take(255));
        trim_end_chars(&cut)
    } else {
        trimmed
    };
    if result.len() == 0 {
        return all_invalid(text, lang);
    }
    string_from(&result)
}

// ---------------------------------------------------------------------------
// camelCase and PascalCase
// ---------------------------------------------------------------------------

/// The views of a sequence of character vectors.
pub open spec fn seqs_of(v: Seq<Vec<char>>) -> Seq<Seq<char>> {
    v.map_values(|w: Vec<char>| w@)
}

/// Words are separated by whitespace, underscores and hyphens.
pub open spec fn is_word_delimiter(c: char) -> bool {
    is_whitespace_char(c) || c == '_' || c == '-'
}

/// `w` with `x` appended when `x` is not empty.
pub open spec fn push_nonempty(w: Seq<Seq<char>>, x: Seq<char>) -> Seq<Seq<char>> {
    if x.len() > 0 {
        w.push(x)
    } else {
        w
    }
}

/// Splitting the first `n` positions of `s` at delimiters:
/// (the finished chunks, the chunk being read).
pub open spec fn chunks_state(s: Seq<char>, n: int) -> (Seq<Seq<char>>, Seq<char>)
    decreases n,
{
    if n <= 0 {
        (Seq::empty(), Seq::empty())
    } else {
        let (done, cur) = chunks_state(s, n - 1);
        if is_word_delimiter(s[n - 1]) {
            (push_nonempty(done, cur), Seq::empty())
        } else {
            (done, cur.push(s[n - 1]))
        }
    }
}

/// The non-empty pieces of `s` between delimiters, in order.
pub open spec fn delimiter_chunks(s: Seq<char>) -> Seq<Seq<char>> {
    let (done, cur) = chunks_state(s, s.len() as int);
    push_nonempty(done, cur)
}

/// The last character of a grapheme (a space for the empty one).
pub open spec fn last_or_space(g: Seq<char>) -> char {
    if g.len() > 0 {
        g.last()
    } else {
        ' '
    }
}

/// The first character of a grapheme (a space for the empty one).
pub open spec fn first_or_space(g: Seq<char>) -> char {
    if g.len() > 0 {
        g[0]
    } else {
        ' '
    }
}

/// A camelCase boundary lies before grapheme `i` when the previous grapheme
/// ends in a lowercase letter and grapheme `i` starts with an uppercase one.
pub open spec fn is_camel_boundary(g: Seq<Seq<char>>, i: int) -> bool {
    is_lowercase_char(last_or_space(g[i - 1])) && is_uppercase_char(first_or_space(g[i]))
}

/// Splitting graphemes at the boundaries before positions `1..n`:
/// (the finished words, where the current word starts).
pub open spec fn camel_state(g: Seq<Seq<char>>, n: int) -> (Seq<Seq<char>>, int)
    decreases n,
{
    if n <= 1 {
        (Seq::empty(), 0)
    } else {
        let (w, st) = camel_state(g, n - 1);
        if is_camel_boundary(g, n - 1) {
            (push_nonempty(w, g.subrange(st, n - 1).flatten()), n - 1)
        } else {
            (w, st)
        }
    }
}

/// The words of a chunk given as graphemes, split at camelCase boundaries.
pub open spec fn camel_split(g: Seq<Seq<char>>) -> Seq<Seq<char>> {
    let (w, st) = camel_state(g, g.len() as int);
    push_nonempty(w, g.skip(st).flatten())
}

/// The words of the first `k` chunks.
pub open spec fn words_upto(chunks: Seq<Seq<char>>, k: int) -> Seq<Seq<char>>
    decreases k,
{
    if k <= 0 {
        Seq::empty()
    } else {
        words_upto(chunks, k - 1) + camel_split(graphemes_of(chunks[k - 1]))
    }
}

/// The words of `s`: split at whitespace, `_` and `-`, then at
/// lowercase-to-uppercase grapheme transitions.
pub open spec fn words_of(s: Seq<char>) -> Seq<Seq<char>> {
    let chunks = delimiter_chunks(s);
    words_upto(chunks, chunks.len() as int)
}

/// `s` without its word delimiters.
pub open spec fn without_delimiters(s: Seq<char>) -> Seq<char> {
    s.filter(|c: char| !is_word_delimiter(c))
}

/// Every word is non-empty and holds no delimiter.
pub open spec fn words_well_formed(ws: Seq<Seq<char>>) -> bool {
    &&& forall|i: int| 0 <= i < ws.len() ==> #[trigger] ws[i].len() > 0
    &&& forall|i: int, j: int|
        0 <= i < ws.len() && 0 <= j < ws[i].len() ==> !is_word_delimiter(#[trigger] ws[i][j])
}

/// Every element of `ws` is non-empty.
spec fn all_nonempty(ws: Seq<Seq<char>>) -> bool {
    forall|i: int| 0 <= i < ws.len() ==> #[trigger] ws[i].len() > 0
}

proof fn lemma_push_nonempty(w: Seq<Seq<char>>, x: Seq<char>)
    requires
        all_nonempty(w),
    ensures
        push_nonempty(w, x).flatten() == w.flatten() + x,
        all_nonempty(push_nonempty(w, x)),
{
    if x.len() > 0 {
        w.lemma_flatten_push(x);
        assert forall|i: int| 0 <= i < w.push(x).len() implies #[trigger] w.push(x)[i].len() > 0 by {
            if i < w.len() {
                assert(w.push(x)[i] == w[i]);
            }
        }
    } else {
        assert(w.flatten() + x =~= w.flatten());
    }
}

proof fn lemma_chunks_state(s: Seq<char>, n: int)
    requires
        0 <= n <= s.len(),
    ensures
        chunks_state(s, n).0.flatten() + chunks_state(s, n).1 == without_delimiters(s.take(n)),
        all_nonempty(chunks_state(s, n).0),
    decreases n,
{
    if n == 0 {
        assert(s.take(0) =~= Seq::<char>::empty());
        reveal_with_fuel(Seq::filter, 1);
        assert(Seq::<Seq<char>>::empty().flatten() + Seq::<char>::empty() =~= Seq::<char>::empty());
    } else {
        lemma_chunks_state(s, n - 1);
        let (done, cur) = chunks_state(s, n - 1);
        let c = s[n - 1];
        assert(s.take(n) =~= s.take(n - 1).push(c));
        s.take(n - 1).lemma_filter_push(c, |c: char| !is_word_delimiter(c));
        if is_word_delimiter(c) {
            lemma_push_nonempty(done, cur);
            assert(push_nonempty(done, cur).flatten() + Seq::<char>::empty() =~= done.flatten() + cur);
        } else {
            assert(done.flatten() + cur.push(c) =~= (done.flatten() + cur).push(c));
        }
    }
}

proof fn lemma_delimiter_chunks(s: Seq<char>)
    ensures
        delimiter_chunks(s).flatten() == without_delimiters(s),
        all_nonempty(delimiter_chunks(s)),
{
    lemma_chunks_state(s, s.len() as int);
    assert(s.take(s.len() as int) =~= s);
    let (done, cur) = chunks_state(s, s.len() as int);
    lemma_push_nonempty(done, cur);
}

proof fn lemma_camel_state(g: Seq<Seq<char>>, n: int)
    requires
        1 <= n <= g.len(),
    ensures
        0 <= camel_state(g, n).1 < n,
        camel_state(g, n).0.flatten() == g.take(camel_state(g, n).1).flatten(),
        all_nonempty(camel_state(g, n).0),
    decreases n,
{
    if n == 1 {
        assert(g.take(0) =~= Seq::<Seq<char>>::empty());
    } else {
        lemma_camel_state(g, n - 1);
        let (w, st) = camel_state(g, n - 1);
        if is_camel_boundary(g, n - 1) {
            let x = g.subrange(st, n - 1).flatten();
            lemma_push_nonempty(w, x);
            assert(g.take(n - 1) =~= g.take(st) + g.subrange(st, n - 1));
            lemma_flatten_concat(g.take(st), g.subrange(st, n - 1));
        }
    }
}

/// Splitting a chunk at camelCase boundaries loses and adds nothing, and
/// gives non-empty words.
proof fn lemma_camel_split(g: Seq<Seq<char>>)
    ensures
        camel_split(g).flatten() == g.flatten(),
        all_nonempty(camel_split(g)),
{
    if g.len() == 0 {
        assert(g.skip(0) =~= g);
        lemma_push_nonempty(Seq::empty(), g.skip(0).flatten());
        assert(Seq::<Seq<char>>::empty().flatten() + g.flatten() =~= g.flatten());
    } else {
        lemma_camel_state(g, g.len() as int);
        let (w, st) = camel_state(g, g.len() as int);
        lemma_push_nonempty(w, g.skip(st).flatten());
        assert(g =~= g.take(st) + g.skip(st));
        lemma_flatten_concat(g.take(st), g.skip(st));
    }
}

/// A chunk whose grapheme split spells it.
spec fn chunk_spelled(c: Seq<char>) -> bool {
    camel_split(graphemes_of(c)).flatten() == c && all_nonempty(camel_split(graphemes_of(c)))
}

proof fn lemma_words_upto(chunks: Seq<Seq<char>>, k: int)
    requires
        0 <= k <= chunks.len(),
        forall|m: int| 0 <= m < k ==> #[trigger] chunk_spelled(chunks[m]),
    ensures
        words_upto(chunks, k).flatten() == chunks.take(k).flatten(),
        all_nonempty(words_upto(chunks, k)),
    decreases k,
{
    if k == 0 {
        assert(chunks.take(0) =~= Seq::<Seq<char>>::empty());
    } else {
        lemma_words_upto(chunks, k - 1);
        let prev = words_upto(chunks, k - 1);
        let cw = camel_split(graphemes_of(chunks[k - 1]));
        assert(chunk_spelled(chunks[k - 1]));
        lemma_flatten_concat(prev, cw);
        chunks.take(k - 1).lemma_flatten_push(chunks[k - 1]);
        assert(chunks.take(k) =~= chunks.take(k - 1).push(chunks[k - 1]));
        assert forall|i: int| 0 <= i < (prev + cw).len() implies #[trigger] (prev + cw)[i].len() > 0 by {
            if i < prev.len() {
                assert((prev + cw)[i] == prev[i]);
            } else {
                assert((prev + cw)[i] == cw[i - prev.len()]);
            }
        }
    }
}

proof fn lemma_flatten_members(ws: Seq<Seq<char>>)
    requires
        forall|k: int| 0 <= k < ws.flatten().len() ==> !is_word_delimiter(#[trigger] ws.flatten()[k]),
    ensures
        forall|i: int, j: int| 0 <= i < ws.len() && 0 <= j < ws[i].len() ==> !is_word_delimiter(#[trigger] ws[i][j]),
    decreases ws.len(),
{
    if ws.len() > 0 {
        let f = ws.flatten();
        let rest = ws.drop_first();
        assert(f == ws[0] + rest.flatten());
        assert forall|k: int| 0 <= k < rest.flatten().len() implies !is_word_delimiter(#[trigger] rest.flatten()[k]) by {
            assert(rest.flatten()[k] == f[ws[0].len() + k]);
        }
        lemma_flatten_members(rest);
        assert forall|i: int, j: int| 0 <= i < ws.len() && 0 <= j < ws[i].len() implies !is_word_delimiter(#[trigger] ws[i][j]) by {
            if i == 0 {
                assert(ws[0][j] == f[j]);
            } else {
                assert(ws[i] == rest[i - 1]);
            }
        }
    }
}

/// The words of a text spell it without its delimiters, and every word is
/// non-empty and free of delimiters, provided each chunk's graphemes spell it.
proof fn lemma_words_of(s: Seq<char>)
    requires
        forall|m: int| 0 <= m < delimiter_chunks(s).len() ==> #[trigger] chunk_spelled(delimiter_chunks(s)[m]),
    ensures
        words_of(s).flatten() == without_delimiters(s),
        words_well_formed(words_of(s)),
{
    let cs = delimiter_chunks(s);
    lemma_delimiter_chunks(s);
    lemma_words_upto(cs, cs.len() as int);
    assert(cs.take(cs.len() as int) =~= cs);
    let ws = words_of(s);
    assert forall|k: int| 0 <= k < ws.flatten().len() implies !is_word_delimiter(#[trigger] ws.flatten()[k]) by {
        s.lemma_filter_pred(|c: char| !is_word_delimiter(c), k);
    }
    lemma_flatten_members(ws);
}

/// The concatenation of graphemes `lo..hi`.
fn concat_range(g: &Vec<Vec<char>>, lo: usize, hi: usize) -> (r: Vec<char>)
    requires
        lo <= hi <= g@.len(),
    ensures
        r@ == seqs_of(g@).subrange(lo as int, hi as int).flatten(),
{
    let mut r: Vec<char> = Vec::new();
    let mut j = lo;
    while j < hi
        invariant
            lo <= j <= hi,
            hi <= g@.len(),
            r@ == seqs_of(g@).subrange(lo as int, j as int).flatten(),
        decreases hi - j,
    {
        let ghost before = seqs_of(g@).subrange(lo as int, j as int);
        let mut k: usize = 0;
        let ghost base = r@;
        while k < g[j].len()
            invariant
                lo <= j < hi,
                hi <= g@.len(),
                k <= g@[j as int]@.len(),
                r@ == base + g@[j as int]@.take(k as int),
            decreases g@[j as int]@.len() - k,
        {
            r.push(g[j][k]);
            k = k + 1;
            assert(r@ =~= base + g@[j as int]@.take(k as int));
        }
        assert(g@[j as int]@.take(k as int) =~= g@[j as int]@);
        proof {
            assert(seqs_of(g@).subrange(lo as int, j + 1) =~= before.push(g@[j as int]@));
            before.lemma_flatten_push(g@[j as int]@);
        }
        j = j + 1;
    }
    r
}

/// The graphemes of a chunk, each as a vector of characters.
fn grapheme_chars(chunk: &Vec<char>) -> (r: Vec<Vec<char>>)
    ensures
        seqs_of(r@) == graphemes_of(chunk@),
        graphemes_of(chunk@).flatten() == chunk@,
{
    let s = string_from(chunk);
    let gv = graphemes(s.as_str());
    let ghost gs = graphemes_of(chunk@);
    let mut r: Vec<Vec<char>> = Vec::new();
    let mut j: usize = 0;
    while j < gv.len()
        invariant
            gv@.map_values(|g: &str| g@) == gs,
            gs.len() == gv@.len(),
            j <= gv@.len(),
            r@.len() == j,
            seqs_of(r@) == gs.take(j as int),
        decreases gv@.len() - j,
    {
        assert(gs[j as int] == gv@[j as int]@);
        r.push(char_vec(gv[j]));
        j = j + 1;
        assert(seqs_of(r@) =~= gs.take(j as int));
    }
    assert(gs.take(j as int) =~= gs);
    r
}

/// Appends `x` to `words` when it is not empty.
fn push_word(words: &mut Vec<Vec<char>>, x: Vec<char>)
    ensures
        seqs_of(final(words)@) == push_nonempty(seqs_of(old(words)@), x@),
{
    if x.len() > 0 {
        words.push(x);
        assert(seqs_of(words@) =~= seqs_of(old(words)@).push(x@));
    }
}

/// Splits one delimiter-free chunk at camelCase boundaries.
fn camel_words(chunk: &Vec<char>) -> (r: Vec<Vec<char>>)
    ensures
        seqs_of(r@) == camel_split(graphemes_of(chunk@)),
        chunk_spelled(chunk@),
{
    let g = grapheme_chars(chunk);
    let ghost gs = graphemes_of(chunk@);
    let mut words: Vec<Vec<char>> = Vec::new();
    let mut start: usize = 0;
    let mut i: usize = 1;
    while i < g.len()
        invariant
            seqs_of(g@) == gs,
            1 <= i,
            g@.len() >= 1 ==> i <= g@.len(),
            g@.len() == 0 ==> i == 1,
            start < i,
            (seqs_of(words@), start as int) == camel_state(gs, i as int),
        decreases g@.len() - i,
    {
        let prev_len = g[i - 1].len();
        let prev_last = if prev_len > 0 { g[i - 1][prev_len - 1] } else { ' ' };
        let curr_first = if g[i].len() > 0 { g[i][0] } else { ' ' };
        assert(g@[i - 1]@ == gs[i - 1]);
        assert(g@[i as int]@ == gs[i as int]);
        if is_lowercase(prev_last) && is_uppercase(curr_first) {
            let sub = concat_range(&g, start, i);
            push_word(&mut words, sub);
            start = i;
        }
        i = i + 1;
    }
    let ghost n = g@.len() as int;
    if g.len() == 0 {
        assert(camel_state(gs, i as int) == camel_state(gs, n));
    } else {
        assert(i as int == n);
    }
    let rest = concat_range(&g, start, g.len());
    assert(seqs_of(g@).subrange(start as int, n) =~= gs.skip(start as int));
    push_word(&mut words, rest);
    proof { lemma_camel_split(gs); }
    words
}

/// Splits `text` into words by whitespace, underscores, hyphens, and
/// lowercase-to-uppercase transitions between grapheme clusters. The words
/// spell the text without its delimiters; none is empty and none holds a
/// delimiter.
pub fn split_into_words(text: &str) -> (r: Vec<Vec<char>>)
    ensures
        seqs_of(r@) == words_of(text@),
        seqs_of(r@).flatten() == without_delimiters(text@),
        seqs_of(r@).flatten() == text@.filter(|c: char| !(is_whitespace_char(c) || c == '_' || c == '-')),
        words_well_formed(seqs_of(r@)),
{
    let v = char_vec(text);
    let mut chunks: Vec<Vec<char>> = Vec::new();
    let mut cur: Vec<char> = Vec::new();
    let mut i: usize = 0;
    while i < v.len()
        invariant
            v@ == text@,
            i <= v@.len(),
            (seqs_of(chunks@), cur@) == chunks_state(v@, i as int),
        decreases v@.len() - i,
    {
        let c = v[i];
        if is_whitespace(c) || c == '_' || c == '-' {
            push_word(&mut chunks, cur);
            cur = Vec::new();
        } else {
            cur.push(c);
        }
        i = i + 1;
    }
    push_word(&mut chunks, cur);
    let ghost cs = seqs_of(chunks@);
    let mut words: Vec<Vec<char>> = Vec::new();
    let mut k: usize = 0;
    while k < chunks.len()
        invariant
            cs == seqs_of(chunks@),
            cs == delimiter_chunks(text@),
            k <= chunks@.len(),
            seqs_of(words@) == words_upto(cs, k as int),
            forall|m: int| 0 <= m < k ==> #[trigger] chunk_spelled(cs[m]),
        decreases chunks@.len() - k,
    {
        let cw = camel_words(&chunks[k]);
        assert(chunks@[k as int]@ == cs[k as int]);
        let ghost before = seqs_of(words@);
        let mut j: usize = 0;
        while j < cw.len()
            invariant
                j <= cw@.len(),
                words@.len() == before.len() + j,
                seqs_of(words@) == before + seqs_of(cw@).take(j as int),
            decreases cw@.len() - j,
        {
            let w = slice_chars(&cw[j], 0, cw[j].len());
            assert(w@ =~= cw@[j as int]@);
            let ghost old_words = words@;
            words.push(w);
            assert(seqs_of(words@) =~= seqs_of(old_words).push(w@));
            assert(seqs_of(cw@).take(j + 1) =~= seqs_of(cw@).take(j as int).push(w@));
            j = j + 1;
            assert(seqs_of(words@) =~= before + seqs_of(cw@).take(j as int));
        }
        assert(seqs_of(cw@).take(j as int) =~= seqs_of(cw@));
        k = k + 1;
    }
    proof {
        lemma_words_of(text@);
        assert((|c: char| !is_word_delimiter(c)) =~= (|c: char| !(is_whitespace_char(c) || c == '_' || c == '-')));
    }
    words
}

/// A word with its first character uppercased and the rest lowercased.
pub open spec fn capitalised(w: Seq<char>) -> Seq<char> {
    if w.len() == 0 {
        Seq::empty()
    } else {
        upper_of_char(w[0]) + lower_of_str(w.drop_first())
    }
}

/// PascalCase of the first `k` words.
pub open spec fn pascal_upto(words: Seq<Seq<char>>, k: int) -> Seq<char>
    decreases k,
{
    if k <= 0 {
        Seq::empty()
    } else {
        pascal_upto(words, k - 1) + capitalised(words[k - 1])
    }
}

/// `s` in PascalCase.
pub open spec fn pascal_cased(s: Seq<char>) -> Seq<char> {
    pascal_upto(words_of(s), words_of(s).len() as int)
}

/// lowerCamelCase at word `i`: the first word is lowercased, the others
/// are capitalised.
pub open spec fn camel_piece(words: Seq<Seq<char>>, i: int) -> Seq<char> {
    if words[i].len() == 0 {
        Seq::empty()
    } else if i == 0 {
        lower_of_str(words[i])
    } else {
        capitalised(words[i])
    }
}

/// lowerCamelCase of the first `k` words.
pub open spec fn camel_upto(words: Seq<Seq<char>>, k: int) -> Seq<char>
    decreases k,
{
    if k <= 0 {
        Seq::empty()
    } else {
        camel_upto(words, k - 1) + camel_piece(words, k - 1)
    }
}

/// `s` in lowerCamelCase.
pub open spec fn lower_camel_cased(s: Seq<char>) -> Seq<char> {
    camel_upto(words_of(s), words_of(s).len() as int)
}

/// How lowerCamelCase writes its first word: lowercased (nothing for an
/// empty word).
pub open spec fn camel_first(w: Seq<char>) -> Seq<char> {
    if w.len() == 0 {
        Seq::empty()
    } else {
        lower_of_str(w)
    }
}

proof fn lemma_camel_pascal_upto(ws: Seq<Seq<char>>, k: int)
    requires
        1 <= k <= ws.len(),
    ensures
        camel_upto(ws, k) == camel_first(ws[0]) + pascal_upto(ws.drop_first(), k - 1),
        pascal_upto(ws, k) == capitalised(ws[0]) + pascal_upto(ws.drop_first(), k - 1),
    decreases k,
{
    let d = ws.drop_first();
    if k == 1 {
        assert(camel_upto(ws, 0) == Seq::<char>::empty());
        assert(pascal_upto(ws, 0) == Seq::<char>::empty());
        assert(pascal_upto(d, 0) == Seq::<char>::empty());
        assert(camel_upto(ws, 1) =~= camel_first(ws[0]) + pascal_upto(d, 0));
        assert(pascal_upto(ws, 1) =~= capitalised(ws[0]) + pascal_upto(d, 0));
    } else {
        lemma_camel_pascal_upto(ws, k - 1);
        assert(ws[k - 1] == d[k - 2]);
        assert(camel_piece(ws, k - 1) == capitalised(ws[k - 1]));
        assert(camel_upto(ws, k) =~= camel_first(ws[0]) + pascal_upto(d, k - 1));
        assert(pascal_upto(ws, k) =~= capitalised(ws[0]) + pascal_upto(d, k - 1));
    }
}

/// lowerCamelCase and PascalCase differ only in the first word: after it
/// both write the same text, every later word capitalised; lowerCamelCase
/// writes the first word lowercased where PascalCase capitalises it. A text
/// without words gives the empty string in both.
pub proof fn lemma_camel_and_pascal_differ_in_first_word(s: Seq<char>)
    ensures
        words_of(s).len() == 0 ==> lower_camel_cased(s) == Seq::<char>::empty() && pascal_cased(s)
            == Seq::<char>::empty(),
        words_of(s).len() > 0 ==> {
            let ws = words_of(s);
            let rest = pascal_upto(ws.drop_first(), ws.len() - 1);
            &&& lower_camel_cased(s) == camel_first(ws[0]) + rest
            &&& pascal_cased(s) == capitalised(ws[0]) + rest
        },
{
    let ws = words_of(s);
    if ws.len() > 0 {
        lemma_camel_pascal_upto(ws, ws.len() as int);
    }
}

/// Appends the lowercase form of `w` to `out`.
fn push_lowercased(out: &mut String, w: &[char])
    ensures
        final(out)@ == old(out)@ + lower_of_str(w@),
{
    let s = string_from(w);
    let low = lower_str(s.as_str());
    push_chars(out, &char_vec(low.as_str()));
}

/// Appends `w` capitalised to `out`.
fn push_capitalised(out: &mut String, w: &Vec<char>)
    ensures
        final(out)@ == old(out)@ + capitalised(w@),
{
    if w.len() == 0 {
        assert(old(out)@ + capitalised(w@) =~= old(out)@);
        return;
    }
    let ghost base = out@;
    let up = upper_chars(w[0]);
    push_chars(out, &up);
    let rest = slice_chars(w, 1, w.len());
    assert(rest@ =~= w@.drop_first());
    push_lowercased(out, &rest);
    assert(out@ =~= base + capitalised(w@));
}

/// Converts `text` to `lowerCamelCase`: the first word is lowercased, every
/// later word has its first character uppercased and the rest lowercased.
pub fn to_lower_camel_case(text: &str) -> (r: String)
    ensures
        r@ == lower_camel_cased(text@),
{
    let words = split_into_words(text);
    let ghost ws = seqs_of(words@);
    let mut result = String::new();
    let mut i: usize = 0;
    while i < words.len()
        invariant
            ws == seqs_of(words@),
            ws == words_of(text@),
            i <= words@.len(),
            result@ == camel_upto(ws, i as int),
        decreases words@.len() - i,
    {
        assert(words@[i as int]@ == ws[i as int]);
        if words[i].len() == 0 {
        } else if i == 0 {
            push_lowercased(&mut result, &words[i]);
        } else {
            push_capitalised(&mut result, &words[i]);
        }
        i = i + 1;
        assert(result@ =~= camel_upto(ws, i as int));
    }
    result
}

/// Converts `text` to `PascalCase`: every word has its first character
/// uppercased and the rest lowercased.
pub fn to_pascal_case(text: &str) -> (r: String)
    ensures
        r@ == pascal_cased(text@),
{
    let words = split_into_words(text);
    let ghost ws = seqs_of(words@);
    let mut result = String::new();
    let mut i: usize = 0;
    while i < words.len()
        invariant
            ws == seqs_of(words@),
            ws == words_of(text@),
            i <= words@.len(),
            result@ == pascal_upto(ws, i as int),
        decreases words@.len() - i,
    {
        assert(words@[i as int]@ == ws[i as int]);
        push_capitalised(&mut result, &words[i]);
        i = i + 1;
        assert(result@ =~= pascal_upto(ws, i as int));
    }
    result
}

} // verus!

verus! {

// ---------------------------------------------------------------------------
// Laws
// ---------------------------------------------------------------------------

/// Every line feed in `t` directly follows a carriage return.
pub open spec fn no_lone_lf(t: Seq<char>) -> bool {
    forall|k: int| 0 <= k < t.len() && #[trigger] t[k] == '\n' ==> k > 0 && t[k - 1] == '\r'
}

proof fn lemma_no_lone_lf_concat(a: Seq<char>, b: Seq<char>)
    requires
        no_lone_lf(a),
        no_lone_lf(b),
    ensures
        no_lone_lf(a + b),
{
    let ab = a + b;
    assert forall|k: int| 0 <= k < ab.len() && #[trigger] ab[k] == '\n' implies k > 0 && ab[k - 1] == '\r' by {
        if k >= a.len() {
            assert(b[k - a.len()] == '\n');
        }
    }
}

proof fn lemma_crlf_upto_no_lone_lf(s: Seq<char>, n: int)
    requires
        n <= s.len(),
    ensures
        no_lone_lf(crlf_upto(s, n)),
    decreases n,
{
    if n > 0 {
        lemma_crlf_upto_no_lone_lf(s, n - 1);
        let p = crlf_piece(s, n - 1);
        assert(no_lone_lf(p));
        lemma_no_lone_lf_concat(crlf_upto(s, n - 1), p);
    }
}

proof fn lemma_crlf_upto_fixed(t: Seq<char>, n: int)
    requires
        no_lone_lf(t),
        0 <= n <= t.len(),
    ensures
        crlf_upto(t, n) == if n > 0 && n < t.len() && t[n - 1] == '\r' && t[n] == '\n' {
            t.take(n - 1)
        } else {
            t.take(n)
        },
    decreases n,
{
    if n == 0 {
        assert(t.take(0) =~= Seq::<char>::empty());
    } else {
        let i = n - 1;
        lemma_crlf_upto_fixed(t, i);
        if t[i] == '\n' {
            assert(t.take(i - 1) + seq!['\r', '\n'] =~= t.take(n));
        } else if t[i] == '\r' && i + 1 < t.len() && t[i + 1] == '\n' {
        } else {
            assert(t.take(i) + seq![t[i]] =~= t.take(n));
        }
    }
}

/// The line ending normalisation leaves no line feed without its carriage
/// return.
pub proof fn lemma_crlf_no_lone_lf(s: Seq<char>)
    ensures
        no_lone_lf(crlf_normalised(s)),
{
    lemma_crlf_upto_no_lone_lf(s, s.len() as int);
}

/// Normalising line endings twice is normalising them once: existing CR LF
/// pairs are never doubled.
pub proof fn lemma_crlf_idempotent(s: Seq<char>)
    ensures
        crlf_normalised(crlf_normalised(s)) == crlf_normalised(s),
{
    let t = crlf_normalised(s);
    lemma_crlf_no_lone_lf(s);
    lemma_crlf_upto_fixed(t, t.len() as int);
    assert(t.take(t.len() as int) =~= t);
}

/// Text without line feeds or carriage returns is left unchanged by the
/// normalisation.
pub proof fn lemma_crlf_keeps_single_line(s: Seq<char>)
    requires
        forall|k: int| 0 <= k < s.len() ==> s[k] != '\n' && s[k] != '\r',
    ensures
        crlf_normalised(s) == s,
{
    assert(no_lone_lf(s));
    lemma_crlf_upto_fixed(s, s.len() as int);
    assert(s.take(s.len() as int) =~= s);
}

/// `s` with every CR LF pair written as a lone LF: what replacing `"\r\n"`
/// by `"\n"` gives.
pub open spec fn crlf_collapsed(s: Seq<char>) -> Seq<char>
    decreases s.len(),
{
    if s.len() == 0 {
        Seq::empty()
    } else if s[0] == '\r' && s.len() > 1 && s[1] == '\n' {
        crlf_collapsed(s.drop_first())
    } else {
        seq![s[0]] + crlf_collapsed(s.drop_first())
    }
}

/// What one character becomes when line feeds are written as CR LF.
spec fn lf_piece(c: char) -> Seq<char> {
    if c == '\n' {
        seq!['\r', '\n']
    } else {
        seq![c]
    }
}

/// `t` with every line feed written as CR LF.
spec fn lf_expanded(t: Seq<char>) -> Seq<char>
    decreases t.len(),
{
    if t.len() == 0 {
        Seq::empty()
    } else {
        lf_piece(t[0]) + lf_expanded(t.drop_first())
    }
}

proof fn lemma_crlf_upto_front(s: Seq<char>, n: int)
    requires
        1 <= n <= s.len(),
    ensures
        crlf_upto(s, n) == crlf_piece(s, 0) + crlf_upto(s.drop_first(), n - 1),
    decreases n,
{
    let d = s.drop_first();
    if n == 1 {
        assert(crlf_upto(s, 0) == Seq::<char>::empty());
        assert(crlf_upto(d, 0) == Seq::<char>::empty());
        assert(crlf_upto(s, 1) =~= crlf_piece(s, 0) + crlf_upto(d, 0));
    } else {
        lemma_crlf_upto_front(s, n - 1);
        assert(d[n - 2] == s[n - 1]);
        if n < s.len() {
            assert(d[n - 1] == s[n]);
        }
        assert(crlf_piece(s, n - 1) == crlf_piece(d, n - 2));
        assert(crlf_upto(s, n) =~= crlf_piece(s, 0) + crlf_upto(d, n - 1));
    }
}

proof fn lemma_expand_cons(c: char, t: Seq<char>)
    ensures
        lf_expanded(seq![c] + t) == lf_piece(c) + lf_expanded(t),
{
    let u = seq![c] + t;
    assert(u.drop_first() =~= t);
    assert(u[0] == c);
}

proof fn lemma_expand_head(t: Seq<char>)
    ensures
        lf_expanded(t).len() == 0 <==> t.len() == 0,
        lf_expanded(t).len() > 0 ==> lf_expanded(t)[0] != '\n',
{
    if t.len() > 0 {
        let e = lf_expanded(t);
        assert(e == lf_piece(t[0]) + lf_expanded(t.drop_first()));
        assert(e[0] == lf_piece(t[0])[0]);
    }
}

proof fn lemma_normalised_is_expanded_collapse(s: Seq<char>)
    ensures
        crlf_normalised(s) == lf_expanded(crlf_collapsed(s)),
    decreases s.len(),
{
    if s.len() == 0 {
        assert(crlf_normalised(s) =~= Seq::<char>::empty());
    } else {
        let d = s.drop_first();
        lemma_crlf_upto_front(s, s.len() as int);
        lemma_normalised_is_expanded_collapse(d);
        if s[0] == '\r' && s.len() > 1 && s[1] == '\n' {
            assert(d[0] == '\n');
            assert(crlf_normalised(s) =~= crlf_normalised(d));
        } else {
            lemma_expand_cons(s[0], crlf_collapsed(d));
            assert(crlf_piece(s, 0) == lf_piece(s[0]));
        }
    }
}

proof fn lemma_collapse_expanded(t: Seq<char>)
    ensures
        crlf_collapsed(lf_expanded(t)) == t,
    decreases t.len(),
{
    if t.len() == 0 {
        assert(lf_expanded(t) =~= Seq::<char>::empty());
    } else {
        let r = t.drop_first();
        let e_rest = lf_expanded(r);
        lemma_collapse_expanded(r);
        lemma_expand_head(r);
        let e = lf_expanded(t);
        assert(e == lf_piece(t[0]) + e_rest);
        if t[0] == '\n' {
            let tail = seq!['\n'] + e_rest;
            assert(e.drop_first() =~= tail);
            assert(tail.drop_first() =~= e_rest);
            assert(crlf_collapsed(tail) == seq!['\n'] + crlf_collapsed(e_rest));
            assert(crlf_collapsed(e) == crlf_collapsed(tail));
            assert(seq!['\n'] + r =~= t);
        } else {
            assert(e.drop_first() =~= e_rest);
            if e_rest.len() > 0 {
                assert(e[1] == e_rest[0]);
            }
            assert(crlf_collapsed(e) == seq![t[0]] + crlf_collapsed(e_rest));
            assert(seq![t[0]] + r =~= t);
        }
    }
}

/// The line ending normalisation changes nothing but line endings: writing
/// every CR LF as a lone LF gives the same text before and after it.
pub proof fn lemma_crlf_changes_only_line_endings(s: Seq<char>)
    ensures
        crlf_collapsed(crlf_normalised(s)) == crlf_collapsed(s),
{
    lemma_normalised_is_expanded_collapse(s);
    lemma_collapse_expanded(crlf_collapsed(s));
}

proof fn lemma_without_spaces_upto(s: Seq<char>, n: int)
    requires
        n <= s.len(),
    ensures
        forall|k: int| 0 <= k < without_spaces_upto(s, n).len() ==> !is_horizontal_space(#[trigger] without_spaces_upto(s, n)[k]),
    decreases n,
{
    if n > 0 {
        lemma_without_spaces_upto(s, n - 1);
        let prev = without_spaces_upto(s, n - 1);
        let cur = without_spaces_upto(s, n);
        assert forall|k: int| 0 <= k < cur.len() implies !is_horizontal_space(#[trigger] cur[k]) by {
            if k < prev.len() {
                assert(cur[k] == prev[k]);
            }
        }
    }
}

/// After removing spaces no horizontal whitespace is left.
pub proof fn lemma_no_spaces_left(s: Seq<char>)
    ensures
        forall|k: int| 0 <= k < without_spaces(s).len() ==> !is_horizontal_space(#[trigger] without_spaces(s)[k]),
{
    lemma_without_spaces_upto(s, s.len() as int);
}

proof fn lemma_without_spaces_keeps_breaks(s: Seq<char>, n: int)
    requires
        0 <= n <= s.len(),
    ensures
        without_spaces_upto(s, n).filter(|c: char| c == '\r' || c == '\n') == s.take(n).filter(
            |c: char| c == '\r' || c == '\n',
        ),
    decreases n,
{
    let p = |c: char| c == '\r' || c == '\n';
    if n == 0 {
        assert(s.take(0) =~= Seq::<char>::empty());
        reveal_with_fuel(Seq::filter, 1);
    } else {
        lemma_without_spaces_keeps_breaks(s, n - 1);
        assert(s.take(n) =~= s.take(n - 1).push(s[n - 1]));
        s.take(n - 1).lemma_filter_push(s[n - 1], p);
        if !is_horizontal_space(s[n - 1]) {
            without_spaces_upto(s, n - 1).lemma_filter_push(s[n - 1], p);
        }
    }
}

/// Removing spaces keeps every line break, in order.
pub proof fn lemma_remove_spaces_keeps_line_breaks(s: Seq<char>)
    ensures
        without_spaces(s).filter(|c: char| c == '\r' || c == '\n') == s.filter(|c: char| c == '\r' || c == '\n'),
{
    lemma_without_spaces_keeps_breaks(s, s.len() as int);
    assert(s.take(s.len() as int) =~= s);
}

/// A character that may stand in a file name as this library writes them:
/// not forbidden, and no whitespace other than the plain space.
pub open spec fn is_filename_char(c: char) -> bool {
    !is_forbidden_in_filename(c) && (is_whitespace_char(c) ==> c == ' ')
}

/// No two neighbouring characters of `r` are both whitespace.
pub open spec fn no_adjacent_whitespace(r: Seq<char>) -> bool {
    forall|k: int|
        #![trigger r[k]]
        0 <= k && k + 1 < r.len() ==> !(is_whitespace_char(r[k]) && is_whitespace_char(r[k + 1]))
}

/// A file name as this library writes them: 1 to 255 characters, none
/// forbidden, plain spaces as the only whitespace and never two of them in a
/// row, and neither starting nor ending with a space or a dot.
pub open spec fn is_clean_filename(r: Seq<char>) -> bool {
    &&& 0 < r.len() <= max_filename_len()
    &&& forall|k: int| 0 <= k < r.len() ==> is_filename_char(#[trigger] r[k])
    &&& no_adjacent_whitespace(r)
    &&& !is_trimmed_char(r[0])
    &&& !is_trimmed_char(r.last())
}

proof fn lemma_filtered_no_adjacent_whitespace(s: Seq<char>, n: int)
    requires
        0 <= n <= s.len(),
    ensures
        no_adjacent_whitespace(filename_filtered_upto(s, n)),
        filename_filtered_upto(s, n).len() > 0 && is_whitespace_char(filename_filtered_upto(s, n).last())
            ==> in_whitespace_run(s, n),
    decreases n,
{
    if n > 0 {
        lemma_filtered_no_adjacent_whitespace(s, n - 1);
        let prev = filename_filtered_upto(s, n - 1);
        let p = filename_piece(s, n - 1);
        let cur = filename_filtered_upto(s, n);
        assert(cur == prev + p);
        assert forall|k: int|
            #![trigger cur[k]]
            0 <= k && k + 1 < cur.len() implies !(is_whitespace_char(cur[k]) && is_whitespace_char(
                cur[k + 1],
            )) by {
            if k + 1 < prev.len() {
                assert(cur[k] == prev[k]);
                assert(cur[k + 1] == prev[k + 1]);
            } else {
                assert(k + 1 == prev.len());
                assert(cur[k] == prev.last());
                assert(cur[k + 1] == p[0]);
            }
        }
    }
}

proof fn lemma_no_adjacent_whitespace_subrange(r: Seq<char>, lo: int, hi: int)
    requires
        no_adjacent_whitespace(r),
        0 <= lo <= hi <= r.len(),
    ensures
        no_adjacent_whitespace(r.subrange(lo, hi)),
{
    let t = r.subrange(lo, hi);
    assert forall|k: int|
        #![trigger t[k]]
        0 <= k && k + 1 < t.len() implies !(is_whitespace_char(t[k]) && is_whitespace_char(t[k + 1])) by {
        assert(t[k] == r[lo + k]);
        assert(t[k + 1] == r[lo + k + 1]);
    }
}

proof fn lemma_filtered_chars(s: Seq<char>, n: int)
    requires
        n <= s.len(),
    ensures
        forall|k: int| 0 <= k < filename_filtered_upto(s, n).len() ==> is_filename_char(#[trigger] filename_filtered_upto(s, n)[k]),
    decreases n,
{
    if n > 0 {
        lemma_filtered_chars(s, n - 1);
        let prev = filename_filtered_upto(s, n - 1);
        let cur = filename_filtered_upto(s, n);
        assert forall|k: int| 0 <= k < cur.len() implies is_filename_char(#[trigger] cur[k]) by {
            if k < prev.len() {
                assert(cur[k] == prev[k]);
            }
        }
    }
}

proof fn lemma_trim_start_shape(s: Seq<char>)
    ensures
        trim_start(s).len() <= s.len(),
        trim_start(s) == s.skip(s.len() - trim_start(s).len()),
        trim_start(s).len() > 0 ==> !is_trimmed_char(trim_start(s)[0]),
    decreases s.len(),
{
    if s.len() > 0 && is_trimmed_char(s[0]) {
        lemma_trim_start_shape(s.drop_first());
        let t = trim_start(s.drop_first());
        assert(s.drop_first().skip(s.drop_first().len() - t.len()) =~= s.skip(s.len() - t.len()));
    } else {
        assert(s.skip(0) =~= s);
    }
}

proof fn lemma_trim_end_shape(s: Seq<char>)
    ensures
        trim_end(s).len() <= s.len(),
        trim_end(s) == s.take(trim_end(s).len() as int),
        trim_end(s).len() > 0 ==> !is_trimmed_char(trim_end(s).last()),
        s.len() > 0 && !is_trimmed_char(s[0]) ==> trim_end(s).len() > 0,
    decreases s.len(),
{
    if s.len() > 0 && is_trimmed_char(s.last()) {
        lemma_trim_end_shape(s.drop_last());
        let t = trim_end(s.drop_last());
        assert(s.drop_last().take(t.len() as int) =~= s.take(t.len() as int));
        if s.len() > 0 && !is_trimmed_char(s[0]) {
            assert(s.drop_last().len() > 0);
            assert(s.drop_last()[0] == s[0]);
        }
    } else {
        assert(s.take(s.len() as int) =~= s);
    }
}

/// The Windows file name of a non-empty text is the localised
/// "all characters are invalid" text exactly when no valid character
/// remains after filtering and trimming; otherwise it is a clean file name.
pub proof fn lemma_windows_filename_clean(text: Seq<char>, lang: Seq<char>)
    requires
        text.len() > 0,
    ensures
        trim_both(filename_filtered(text)).len() == 0 ==> windows_filename(text, lang) == all_invalid_text(text, lang),
        trim_both(filename_filtered(text)).len() > 0 ==> is_clean_filename(windows_filename(text, lang)),
{
    let f = filename_filtered(text);
    lemma_filtered_chars(text, text.len() as int);
    lemma_trim_start_shape(f);
    let a = trim_start(f);
    lemma_trim_end_shape(a);
    let t = trim_end(a);
    assert forall|k: int| 0 <= k < t.len() implies is_filename_char(#[trigger] t[k]) by {
        assert(t[k] == a[k]);
        assert(a[k] == f[f.len() - a.len() + k]);
    }
    lemma_filtered_no_adjacent_whitespace(text, text.len() as int);
    lemma_no_adjacent_whitespace_subrange(f, f.len() - a.len(), f.len() as int);
    assert(a == f.subrange(f.len() - a.len(), f.len() as int));
    lemma_no_adjacent_whitespace_subrange(a, 0, t.len() as int);
    assert(t == a.subrange(0, t.len() as int));
    if t.len() > 0 {
        assert(t[0] == a[0]);
        if t.len() > max_filename_len() {
            let u = t.take(max_filename_len() as int);
            lemma_trim_end_shape(u);
            let r = trim_end(u);
            assert(u[0] == t[0]);
            assert forall|k: int| 0 <= k < r.len() implies is_filename_char(#[trigger] r[k]) by {
                assert(r[k] == u[k]);
                assert(u[k] == t[k]);
            }
            lemma_no_adjacent_whitespace_subrange(t, 0, r.len() as int);
            assert(r == t.subrange(0, r.len() as int));
            assert(r[0] == u[0]);
        }
    }
}

// ---------------------------------------------------------------------------
// Laws stated in the characters themselves
// ---------------------------------------------------------------------------

proof fn lemma_title_prefix(x: Seq<char>, y: Seq<char>, k: int)
    requires
        0 <= k <= x.len(),
    ensures
        title_upto(x + y, k) == title_upto(x, k),
    decreases k,
{
    if k > 0 {
        lemma_title_prefix(x, y, k - 1);
        assert((x + y)[k - 1] == x[k - 1]);
        if k >= 2 {
            assert((x + y)[k - 2] == x[k - 2]);
        }
        assert(title_piece(x + y, k - 1) == title_piece(x, k - 1));
    }
}

proof fn lemma_title_suffix(p: Seq<char>, b: Seq<char>, m: int)
    requires
        p.len() > 0,
        is_whitespace_char(p.last()),
        0 <= m <= b.len(),
    ensures
        title_upto(p + b, p.len() + m) == title_upto(p, p.len() as int) + title_upto(b, m),
    decreases m,
{
    if m == 0 {
        lemma_title_prefix(p, b, p.len() as int);
        assert(title_upto(p, p.len() as int) + title_upto(b, 0) =~= title_upto(p, p.len() as int));
    } else {
        lemma_title_suffix(p, b, m - 1);
        let i = p.len() + m - 1;
        assert((p + b)[i] == b[m - 1]);
        if m >= 2 {
            assert((p + b)[i - 1] == b[m - 2]);
        } else {
            assert((p + b)[i - 1] == p.last());
        }
        assert(title_piece(p + b, i) == title_piece(b, m - 1));
        assert(title_upto(p + b, p.len() + m) =~= title_upto(p, p.len() as int) + title_upto(b, m));
    }
}

/// Title case treats every white-space character (space, tab, line feed,
/// carriage return, ...) as the end of a word: title-casing two texts joined
/// by a white-space character is title-casing each of them on its own, so
/// the first character after the white space is capitalised like the first
/// character of a text.
pub proof fn lemma_title_case_splits_at_whitespace(a: Seq<char>, w: char, b: Seq<char>)
    requires
        is_whitespace_char(w),
    ensures
        title_cased(a + seq![w] + b) == title_cased(a) + seq![w] + title_cased(b),
{
    let p = a + seq![w];
    lemma_title_prefix(a, seq![w], a.len() as int);
    assert(p[a.len() as int] == w);
    assert(title_piece(p, a.len() as int) == seq![w]);
    assert(title_upto(p, p.len() as int) == title_cased(a) + seq![w]);
    lemma_title_suffix(p, b, b.len() as int);
}

/// A text without `.`, `!` or `?` that starts with a non-blank character
/// is one sentence: sentence case uppercases its first character and writes
/// every other character (commas, colons and the letters after them
/// included) in lowercase.
pub proof fn lemma_sentence_case_single_sentence(s: Seq<char>)
    requires
        s.len() > 0,
        !is_whitespace_char(s[0]),
        forall|k: int| 0 <= k < s.len() ==> #[trigger] s[k] != '.' && s[k] != '!' && s[k] != '?',
    ensures
        sentence_cased(s) == upper_of_char(s[0]) + s.drop_first().map_values(|c: char| lower_first(c)),
{
    assert forall|j: int| !(#[trigger] is_sentence_break(s, j)) by {
        if 0 < j < s.len() {
            assert(s[j - 1] != '.' && s[j - 1] != '!' && s[j - 1] != '?');
        }
    }
    assert(is_ordinary(s[0]));
    assert forall|n: int| 1 <= n <= s.len() implies #[trigger] sentence_upto(s, n) == upper_of_char(s[0])
        + s.subrange(1, n).map_values(|c: char| lower_first(c)) by {
        lemma_sentence_upto_single(s, n);
    }
    assert(s.subrange(1, s.len() as int) =~= s.drop_first());
}

proof fn lemma_sentence_upto_single(s: Seq<char>, n: int)
    requires
        1 <= n <= s.len(),
        !is_whitespace_char(s[0]),
        forall|k: int| 0 <= k < s.len() ==> #[trigger] s[k] != '.' && s[k] != '!' && s[k] != '?',
        forall|j: int| !(#[trigger] is_sentence_break(s, j)),
        is_ordinary(s[0]),
    ensures
        sentence_upto(s, n) == upper_of_char(s[0]) + s.subrange(1, n).map_values(|c: char| lower_first(c)),
    decreases n,
{
    let f = |c: char| lower_first(c);
    if n == 1 {
        assert(awaits_capital(s, 0));
        assert(!follows_terminator(s, 0));
        assert(s[0] != '.' && s[0] != '!' && s[0] != '?');
        assert(sentence_piece(s, 0) == upper_of_char(s[0]));
        assert(sentence_upto(s, 0) == Seq::<char>::empty());
        assert(sentence_upto(s, 1) =~= upper_of_char(s[0]) + s.subrange(1, 1).map_values(f));
    } else {
        lemma_sentence_upto_single(s, n - 1);
        let i = n - 1;
        assert(s[i] != '.' && s[i] != '!' && s[i] != '?');
        assert(s[i - 1] != '.' && s[i - 1] != '!' && s[i - 1] != '?');
        assert(!follows_terminator(s, i));
        assert(!awaits_capital(s, i)) by {
            assert(0 <= 0 < i && is_ordinary(s[0]));
        }
        assert(sentence_piece(s, i) == seq![lower_first(s[i])]);
        assert(s.subrange(1, n).map_values(f) =~= s.subrange(1, i).map_values(f).push(lower_first(s[i])));
        assert(sentence_upto(s, n) =~= upper_of_char(s[0]) + s.subrange(1, n).map_values(f));
    }
}

/// The characters Windows forbids in file names: `< > : " / \ | ? *` and
/// U+0000 to U+001F, and nothing else.
proof fn lemma_forbidden_chars(c: char)
    ensures
        is_forbidden_in_filename(c) == (c == '<' || c == '>' || c == ':' || c == '"' || c == '/' || c
            == '\\' || c == '|' || c == '?' || c == '*' || (c as u32) <= 0x1f),
{
}

proof fn lemma_filtered_identity(s: Seq<char>, n: int)
    requires
        0 <= n <= s.len(),
        forall|k: int|
            0 <= k < s.len() ==> !(#[trigger] s[k] == '<' || s[k] == '>' || s[k] == ':' || s[k] == '"' || s[k]
                == '/' || s[k] == '\\' || s[k] == '|' || s[k] == '?' || s[k] == '*' || (s[k] as u32) <= 0x1f),
        forall|k: int|
            0 <= k < s.len() && is_whitespace_char(#[trigger] s[k]) ==> s[k] == ' ' && 0 < k && !is_whitespace_char(
                s[k - 1],
            ),
    ensures
        filename_filtered_upto(s, n) == s.take(n),
        n > 0 ==> in_whitespace_run(s, n) == is_whitespace_char(s[n - 1]),
    decreases n,
{
    if n == 0 {
        assert(s.take(0) =~= Seq::<char>::empty());
    } else {
        lemma_filtered_identity(s, n - 1);
        let c = s[n - 1];
        lemma_forbidden_chars(c);
        assert(!(c == '<' || c == '>' || c == ':' || c == '"' || c == '/' || c == '\\' || c == '|' || c
            == '?' || c == '*' || (c as u32) <= 0x1f));
        if is_whitespace_char(c) {
            assert(c == ' ' && n - 1 > 0 && !is_whitespace_char(s[n - 2]));
        }
        assert(filename_piece(s, n - 1) == seq![c]);
        assert(s.take(n) =~= s.take(n - 1) + seq![c]);
    }
}

/// A text that already is a valid Windows file name is kept as it is: no
/// character of `< > : " / \ | ? *` or U+0000 to U+001F, plain single
/// spaces as its only white space and never at either end, no dot at either
/// end, and at most 255 characters. Every other character (apostrophes,
/// parentheses, letters of any script) is valid.
pub proof fn lemma_valid_filename_unchanged(text: Seq<char>, lang: Seq<char>)
    requires
        0 < text.len() <= 255,
        forall|k: int|
            0 <= k < text.len() ==> !(#[trigger] text[k] == '<' || text[k] == '>' || text[k] == ':' || text[k]
                == '"' || text[k] == '/' || text[k] == '\\' || text[k] == '|' || text[k] == '?' || text[k] == '*'
                || (text[k] as u32) <= 0x1f),
        forall|k: int|
            0 <= k < text.len() && is_whitespace_char(#[trigger] text[k]) ==> text[k] == ' ' && 0 < k < text.len()
                - 1 && !is_whitespace_char(text[k - 1]),
        text[0] != '.',
        text.last() != '.',
    ensures
        windows_filename(text, lang) == text,
{
    lemma_filtered_identity(text, text.len() as int);
    assert(text.take(text.len() as int) =~= text);
    let last = text.len() - 1;
    assert(text.last() == text[last]);
    assert(!is_trimmed_char(text[0]));
    assert(!is_trimmed_char(text.last()));
    assert(trim_start(text) == text);
    assert(trim_end(text) == text);
}

/// The word chunks spell the text without exactly its white space, `_` and
/// `-`: every other character, digits included, is kept, in order.
pub proof fn lemma_chunks_spell_text(s: Seq<char>)
    ensures
        delimiter_chunks(s).flatten() == s.filter(|c: char| !(is_whitespace_char(c) || c == '_' || c == '-')),
{
    lemma_delimiter_chunks(s);
    assert((|c: char| !is_word_delimiter(c)) =~= (|c: char| !(is_whitespace_char(c) || c == '_' || c == '-')));
}

} // verus!

//! Character classes, case mappings and UTF-16 decoding, and grapheme
//! clusters from `unicode-segmentation`.
//!
//! White space, control characters and UTF-16 decoding are short fixed
//! rules and are decided here; the letter cases, case mappings and grapheme
//! boundaries follow large Unicode tables, are taken from the standard
//! library and `unicode-segmentation`, and are named, not written out.

use unicode_segmentation::UnicodeSegmentation;
use vstd::prelude::*;

use crate::chars::push_char;

verus! {

/// Whether a character has the Unicode `White_Space` property: U+0009 to
/// U+000D, U+0020, U+0085, U+00A0, U+1680, U+2000 to U+200A, U+2028,
/// U+2029, U+202F, U+205F and U+3000.
pub open spec fn is_whitespace_char(c: char) -> bool {
    let u = c as u32;
    ||| 0x09 <= u <= 0x0D
    ||| u == 0x20
    ||| u == 0x85
    ||| u == 0xA0
    ||| u == 0x1680
    ||| 0x2000 <= u <= 0x200A
    ||| u == 0x2028
    ||| u == 0x2029
    ||| u == 0x202F
    ||| u == 0x205F
    ||| u == 0x3000
}

/// Whether a character has the Unicode `Lowercase` property.
pub uninterp spec fn is_lowercase_char(c: char) -> bool;

/// Whether a character has the Unicode `Uppercase` property.
pub uninterp spec fn is_uppercase_char(c: char) -> bool;

/// Whether a character is in the general category `Cc` (control codes):
/// U+0000 to U+001F and U+007F to U+009F.
pub open spec fn is_control_char(c: char) -> bool {
    let u = c as u32;
    u <= 0x1F || (0x7F <= u <= 0x9F)
}

/// The characters that `char::to_uppercase` yields for a character.
pub uninterp spec fn upper_of_char(c: char) -> Seq<char>;

/// The characters that `char::to_lowercase` yields for a character.
pub uninterp spec fn lower_of_char(c: char) -> Seq<char>;

/// The uppercase equivalent of a string (`str::to_uppercase`).
pub uninterp spec fn upper_of_str(s: Seq<char>) -> Seq<char>;

/// The lowercase equivalent of a string (`str::to_lowercase`).
pub uninterp spec fn lower_of_str(s: Seq<char>) -> Seq<char>;

/// The extended grapheme clusters of a string, in order.
pub uninterp spec fn graphemes_of(s: Seq<char>) -> Seq<Seq<char>>;

/// UTF-16 decoding with replacement: a high surrogate (U+D800 to U+DBFF)
/// followed by a low one (U+DC00 to U+DFFF) is one supplementary character;
/// any other surrogate becomes U+FFFD on its own; every other unit is the
/// character of that value.
pub open spec fn utf16_lossy_of(units: Seq<u16>) -> Seq<char>
    decreases units.len(),
{
    if units.len() == 0 {
        Seq::empty()
    } else {
        let u = units[0];
        if 0xD800 <= u <= 0xDBFF && units.len() > 1 && 0xDC00 <= units[1] <= 0xDFFF {
            seq![(0x10000 + (u - 0xD800) * 0x400 + (units[1] - 0xDC00)) as char] + utf16_lossy_of(
                units.subrange(2, units.len() as int),
            )
        } else if 0xD800 <= u <= 0xDFFF {
            seq!['\u{FFFD}'] + utf16_lossy_of(units.drop_first())
        } else {
            seq![u as char] + utf16_lossy_of(units.drop_first())
        }
    }
}

/// `char::from_u32`: the character with code point `u`; none for a
/// surrogate or a value above U+10FFFF.
#[verifier::external_body]
fn char_from_u32(u: u32) -> (r: Option<char>)
    ensures
        u < 0xD800 || (0xE000 <= u && u <= 0x10FFFF) ==> r == Some(u as char),
        !(u < 0xD800 || (0xE000 <= u && u <= 0x10FFFF)) ==> r is None,
{
    char::from_u32(u)
}

/// Decodes UTF-16, replacing each unpaired surrogate with U+FFFD (as
/// `String::from_utf16_lossy`).
pub fn utf16_lossy(units: &[u16]) -> (r: String)
    ensures
        r@ == utf16_lossy_of(units@),
{
    let mut out = String::new();
    let ghost n = units@.len() as int;
    let mut i: usize = 0;
    assert(units@.subrange(0, n) =~= units@);
    assert(out@ + utf16_lossy_of(units@) =~= utf16_lossy_of(units@));
    while i < units.len()
        invariant
            n == units@.len(),
            i <= n,
            out@ + utf16_lossy_of(units@.subrange(i as int, n)) == utf16_lossy_of(units@),
        decreases n - i,
    {
        let ghost rest = units@.subrange(i as int, n);
        let ghost before = out@;
        let u = units[i];
        assert(rest[0] == u);
        if 0xD800 <= u && u <= 0xDBFF && i + 1 < units.len() && 0xDC00 <= units[i + 1] && units[i + 1] <= 0xDFFF {
            let l = units[i + 1];
            assert(rest[1] == l);
            let cp: u32 = 0x10000 + ((u as u32) - 0xD800) * 0x400 + ((l as u32) - 0xDC00);
            let c = match char_from_u32(cp) {
                Some(c) => c,
                None => '\u{FFFD}',
            };
            push_char(&mut out, c);
            assert(rest.subrange(2, rest.len() as int) =~= units@.subrange(i + 2, n));
            assert(before.push(c) + utf16_lossy_of(units@.subrange(i + 2, n)) =~= before + (seq![c]
                + utf16_lossy_of(units@.subrange(i + 2, n))));
            i = i + 2;
        } else if 0xD800 <= u && u <= 0xDFFF {
            push_char(&mut out, '\u{FFFD}');
            assert(rest.drop_first() =~= units@.subrange(i + 1, n));
            assert(before.push('\u{FFFD}') + utf16_lossy_of(units@.subrange(i + 1, n)) =~= before + (
            seq!['\u{FFFD}'] + utf16_lossy_of(units@.subrange(i + 1, n))));
            i = i + 1;
        } else {
            let c = match char_from_u32(u as u32) {
                Some(c) => c,
                None => '\u{FFFD}',
            };
            push_char(&mut out, c);
            assert(rest.drop_first() =~= units@.subrange(i + 1, n));
            assert(before.push(c) + utf16_lossy_of(units@.subrange(i + 1, n)) =~= before + (seq![c]
                + utf16_lossy_of(units@.subrange(i + 1, n))));
            i = i + 1;
        }
    }
    assert(units@.subrange(i as int, n) =~= Seq::<u16>::empty());
    assert(out@ + Seq::<char>::empty() =~= out@);
    out
}

/// Whether `c` has the `White_Space` property (as `char::is_whitespace`).
pub fn is_whitespace(c: char) -> (r: bool)
    ensures
        r == is_whitespace_char(c),
{
    let u = c as u32;
    (0x09 <= u && u <= 0x0D) || u == 0x20 || u == 0x85 || u == 0xA0 || u == 0x1680 || (0x2000 <= u
        && u <= 0x200A) || u == 0x2028 || u == 0x2029 || u == 0x202F || u == 0x205F || u == 0x3000
}

/// `char::is_lowercase`: whether `c` has the `Lowercase` property.
#[verifier::external_body]
pub(crate) fn is_lowercase(c: char) -> (r: bool)
    ensures
        r == is_lowercase_char(c),
{
    c.is_lowercase()
}

/// `char::is_uppercase`: whether `c` has the `Uppercase` property.
#[verifier::external_body]
pub(crate) fn is_uppercase(c: char) -> (r: bool)
    ensures
        r == is_uppercase_char(c),
{
    c.is_uppercase()
}

/// Whether `c` is in the general category `Cc` (as `char::is_control`).
pub fn is_control(c: char) -> (r: bool)
    ensures
        r == is_control_char(c),
{
    let u = c as u32;
    u <= 0x1F || (0x7F <= u && u <= 0x9F)
}

/// `char::to_uppercase`, collected: the characters `c` maps to.
#[verifier::external_body]
pub(crate) fn upper_chars(c: char) -> (v: Vec<char>)
    ensures
        v@ == upper_of_char(c),
{
    c.to_uppercase().collect()
}

/// `char::to_lowercase`, collected: the characters `c` maps to.
#[verifier::external_body]
pub(crate) fn lower_chars(c: char) -> (v: Vec<char>)
    ensures
        v@ == lower_of_char(c),
{
    c.to_lowercase().collect()
}

/// `str::to_uppercase`.
#[verifier::external_body]
pub(crate) fn upper_str(s: &str) -> (r: String)
    ensures
        r@ == upper_of_str(s@),
{
    s.to_uppercase()
}

/// `str::to_lowercase`.
#[verifier::external_body]
pub(crate) fn lower_str(s: &str) -> (r: String)
    ensures
        r@ == lower_of_str(s@),
{
    s.to_lowercase()
}

/// `UnicodeSegmentation::graphemes(s, true)`, collected: the extended
/// grapheme clusters of `s`. The iterator hands out consecutive slices of
/// `s` from its start to its end, so together they spell `s`.
#[verifier::external_body]
pub(crate) fn graphemes(s: &str) -> (v: Vec<&str>)
    ensures
        v@.map_values(|g: &str| g@) == graphemes_of(s@),
        v@.map_values(|g: &str| g@).flatten() == s@,
{
    s.graphemes(true).collect()
}

} // verus!

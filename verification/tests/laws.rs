use rust_expander::buffer::KeyBuffer;
use rust_expander::text_utils::{
    fix_linebreaks, normalise_to_crlf, remove_spaces, replace_spaces_with_dash,
    replace_spaces_with_underscore, split_into_words, to_lower_camel_case, to_pascal_case,
    to_windows_filename,
};
use rust_expander::ui::parse_key_event;

#[test]
fn crlf_normalisation_is_idempotent() {
    for s in ["a\r\r\nb\n\r\nc", "\n\n", "\r", "x\ry\n", ""] {
        let once = normalise_to_crlf(s);
        assert_eq!(normalise_to_crlf(&once), once);
        assert_eq!(fix_linebreaks(s), once);
    }
}

#[test]
fn crlf_normalisation_leaves_no_lone_lf() {
    let out: Vec<char> = normalise_to_crlf("a\nb\r\nc\r\rd\n").chars().collect();
    for (k, c) in out.iter().enumerate() {
        if *c == '\n' {
            assert!(k > 0 && out[k - 1] == '\r');
        }
    }
    assert_eq!(normalise_to_crlf("a\nb\r\nc\r\rd\n"), "a\r\nb\r\nc\r\rd\r\n");
}

#[test]
fn single_line_text_is_unchanged_by_crlf() {
    assert_eq!(normalise_to_crlf("no breaks here"), "no breaks here");
}

#[test]
fn remove_spaces_keeps_line_breaks() {
    let s = " a \t\r\n b\u{a0}c \n\r d ";
    let breaks = |t: &str| t.chars().filter(|c| *c == '\r' || *c == '\n').collect::<String>();
    let out = remove_spaces(s);
    assert_eq!(breaks(&out), breaks(s));
    assert!(!out.chars().any(|c| c.is_whitespace() && c != '\r' && c != '\n'));
    assert_eq!(out, "a\r\nbc\n\rd");
}

#[test]
fn replacing_spaces_keeps_length_and_breaks() {
    let s = "a b\tc\r\nd\u{a0}e";
    assert_eq!(replace_spaces_with_underscore(s), "a_b_c\r\nd_e");
    assert_eq!(replace_spaces_with_dash(s), "a-b-c\r\nd-e");
    assert_eq!(replace_spaces_with_dash(s).chars().count(), s.chars().count());
}

fn is_clean(r: &str) -> bool {
    let chars: Vec<char> = r.chars().collect();
    !chars.is_empty()
        && chars.len() <= 255
        && chars.iter().all(|c| {
            !matches!(*c, '<' | '>' | ':' | '"' | '/' | '\\' | '|' | '?' | '*' | '\0'..='\x1f')
                && (!c.is_whitespace() || *c == ' ')
        })
        && chars.windows(2).all(|w| !(w[0].is_whitespace() && w[1].is_whitespace()))
        && !matches!(chars[0], ' ' | '.')
        && !matches!(chars[chars.len() - 1], ' ' | '.')
}

#[test]
fn windows_filename_is_clean_or_fallback() {
    for s in [" .a\u{3000}b\t<c>. ", "x", "..a..", "\u{1}\u{2}z", "a\r\n\r\nb", "a \t<> \n b"] {
        assert!(is_clean(&to_windows_filename(s, "en")), "{s:?}");
    }
    let long = format!("{}{}", " ".repeat(3), "b".repeat(400));
    let r = to_windows_filename(&long, "da");
    assert!(is_clean(&r));
    assert_eq!(r.chars().count(), 255);
    assert_eq!(to_windows_filename(" . ", "da"), "Alle tegn er ugyldige:  . ");
    assert_eq!(to_windows_filename("<>", "xx"), "All chars are invalid: <>");
}

#[test]
fn push_then_pop_restores_buffer() {
    let mut buf = KeyBuffer::new(4);
    buf.push('a');
    buf.push('b');
    buf.push('c');
    buf.push('x');
    assert_eq!(buf.pop(), Some('x'));
    assert_eq!(buf.content(), "abc");
}

#[test]
fn typed_trigger_is_recognised() {
    for cap in [3usize, 4, 10] {
        let mut buf = KeyBuffer::new(cap);
        for c in "zzzzzzz.em".chars() {
            buf.push(c);
            assert!(buf.len() <= buf.capacity());
        }
        assert!(buf.ends_with(".em"));
    }
    let mut small = KeyBuffer::new(2);
    for c in ".em".chars() {
        small.push(c);
    }
    assert!(!small.ends_with(".em"));
}

#[test]
fn letters_are_case_insensitive_hotkeys() {
    for (l, u) in ('a'..='z').zip('A'..='Z') {
        let ls = l.to_string();
        let us = u.to_string();
        assert_eq!(parse_key_event(&ls, true, false, false, false), parse_key_event(&us, true, false, false, false));
    }
}

#[test]
fn windows_filename_collapses_whitespace_runs() {
    assert_eq!(to_windows_filename("a \t<> \n b", "en"), "a b");
    assert_eq!(to_windows_filename("a\u{3000}\u{a0}b", "en"), "a b");
}

#[test]
fn crlf_normalisation_changes_only_line_endings() {
    for s in ["a\r\r\nb\n\r\nc", "\n\n", "\r", "x\ry\n", "", "\r\n\r"] {
        let r = normalise_to_crlf(s);
        assert_eq!(r.replace("\r\n", "\n"), s.replace("\r\n", "\n"), "{s:?}");
    }
}

#[test]
fn words_spell_text_without_delimiters() {
    let to_strings = |ws: Vec<Vec<char>>| ws.into_iter().map(|w| w.into_iter().collect::<String>()).collect::<Vec<_>>();
    assert_eq!(to_strings(split_into_words("hello world_user-name")), vec!["hello", "world", "user", "name"]);
    assert_eq!(to_strings(split_into_words("PascalCaseInput")), vec!["Pascal", "Case", "Input"]);
    assert_eq!(to_strings(split_into_words("  __--  ")), Vec::<String>::new());
    let text = " lowerCamel\tand_snake-kebab ";
    let words = split_into_words(text);
    let spelled: String = words.iter().flatten().collect();
    let expected: String = text.chars().filter(|c| !(c.is_whitespace() || *c == '_' || *c == '-')).collect();
    assert_eq!(spelled, expected);
    assert!(words.iter().all(|w| !w.is_empty()));
}

#[test]
fn camel_and_pascal_differ_only_in_first_word() {
    for (text, first_camel, first_pascal) in [
        ("hello world_user-name", "hello", "Hello"),
        ("PascalCaseInput", "pascal", "Pascal"),
        ("ÆBLE grød", "æble", "Æble"),
    ] {
        let c = to_lower_camel_case(text);
        let p = to_pascal_case(text);
        assert!(c.starts_with(first_camel) && p.starts_with(first_pascal), "{text:?}");
        assert_eq!(&c[first_camel.len()..], &p[first_pascal.len()..]);
    }
    assert_eq!(to_lower_camel_case(" _- "), "");
    assert_eq!(to_pascal_case(" _- "), "");
}

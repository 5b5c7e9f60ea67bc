use rust_expander::text_utils::{
    fix_linebreaks, normalise_to_crlf, remove_spaces, replace_spaces_with_dash,
    replace_spaces_with_underscore, to_lower_camel_case, to_lowercase, to_pascal_case,
    to_sentence_case, to_title_case, to_uppercase, to_windows_filename,
};

// -------------------------------------------------------------------------
// normalise_to_crlf
// -------------------------------------------------------------------------

#[test]
fn test_lf_converted_to_crlf() {
    assert_eq!(normalise_to_crlf("hello\nworld"), "hello\r\nworld");
}

#[test]
fn test_crlf_unchanged() {
    assert_eq!(normalise_to_crlf("hello\r\nworld"), "hello\r\nworld");
}

#[test]
fn test_mixed_endings_normalised() {
    assert_eq!(
        normalise_to_crlf("a\r\nb\nc"),
        "a\r\nb\r\nc"
    );
}

#[test]
fn test_no_newlines_unchanged() {
    assert_eq!(normalise_to_crlf("hello world"), "hello world");
}

#[test]
fn test_empty_string() {
    assert_eq!(normalise_to_crlf(""), "");
}

// -------------------------------------------------------------------------
// to_uppercase
// -------------------------------------------------------------------------

#[test]
fn test_uppercase_basic() {
    assert_eq!(to_uppercase("hello world"), "HELLO WORLD");
}

#[test]
fn test_uppercase_already_upper() {
    assert_eq!(to_uppercase("HELLO"), "HELLO");
}

#[test]
fn test_uppercase_empty() {
    assert_eq!(to_uppercase(""), "");
}

#[test]
fn test_uppercase_danish() {
    assert_eq!(to_uppercase("æøå"), "ÆØÅ");
}

#[test]
fn test_uppercase_mixed() {
    assert_eq!(to_uppercase("Hello World THIS IS a TEST"), "HELLO WORLD THIS IS A TEST");
}

// -------------------------------------------------------------------------
// to_lowercase
// -------------------------------------------------------------------------

#[test]
fn test_lowercase_basic() {
    assert_eq!(to_lowercase("HELLO WORLD"), "hello world");
}

#[test]
fn test_lowercase_already_lower() {
    assert_eq!(to_lowercase("hello"), "hello");
}

#[test]
fn test_lowercase_empty() {
    assert_eq!(to_lowercase(""), "");
}

#[test]
fn test_lowercase_danish() {
    assert_eq!(to_lowercase("ÆØÅ"), "æøå");
}

#[test]
fn test_lowercase_mixed() {
    assert_eq!(to_lowercase("Hello World THIS IS a TEST"), "hello world this is a test");
}

// -------------------------------------------------------------------------
// to_title_case
// -------------------------------------------------------------------------

#[test]
fn test_title_case_basic() {
    assert_eq!(to_title_case("hello world"), "Hello World");
}

#[test]
fn test_title_case_already_title() {
    assert_eq!(to_title_case("Hello World"), "Hello World");
}

#[test]
fn test_title_case_empty() {
    assert_eq!(to_title_case(""), "");
}

#[test]
fn test_title_case_single_char() {
    assert_eq!(to_title_case("h"), "H");
}

#[test]
fn test_title_case_danish() {
    assert_eq!(to_title_case("hej verden"), "Hej Verden");
}

#[test]
fn test_title_case_all_caps() {
    // Only first letter of each word changes; rest preserved as-is
    assert_eq!(to_title_case("HELLO WORLD"), "HELLO WORLD");
}

// -------------------------------------------------------------------------
// to_sentence_case
// -------------------------------------------------------------------------

#[test]
fn test_sentence_case_basic() {
    assert_eq!(to_sentence_case("hello world"), "Hello world");
}

#[test]
fn test_sentence_case_multiple_sentences() {
    assert_eq!(
        to_sentence_case("hello world. this is a test! another sentence? yes."),
        "Hello world. This is a test! Another sentence? Yes."
    );
}

#[test]
fn test_sentence_case_empty() {
    assert_eq!(to_sentence_case(""), "");
}

#[test]
fn test_sentence_case_already_correct() {
    assert_eq!(to_sentence_case("Hello world."), "Hello world.");
}

#[test]
fn test_sentence_case_all_caps() {
    assert_eq!(to_sentence_case("HELLO WORLD"), "Hello world");
}

#[test]
fn test_sentence_case_danish() {
    assert_eq!(to_sentence_case("hej verden"), "Hej verden");
}

// -------------------------------------------------------------------------
// fix_linebreaks
// -------------------------------------------------------------------------

#[test]
fn test_fix_linebreaks_lf_to_crlf() {
    assert_eq!(fix_linebreaks("hello\nworld"), "hello\r\nworld");
}

#[test]
fn test_fix_linebreaks_crlf_unchanged() {
    assert_eq!(fix_linebreaks("hello\r\nworld"), "hello\r\nworld");
}

#[test]
fn test_fix_linebreaks_empty() {
    assert_eq!(fix_linebreaks(""), "");
}

// -------------------------------------------------------------------------
// remove_spaces
// -------------------------------------------------------------------------

#[test]
fn test_remove_spaces_basic() {
    assert_eq!(remove_spaces("hello world"), "helloworld");
}

#[test]
fn test_remove_spaces_multiple_runs() {
    assert_eq!(remove_spaces("a   b   c"), "abc");
}

#[test]
fn test_remove_spaces_trim_ends() {
    assert_eq!(remove_spaces("  hello  "), "hello");
}

#[test]
fn test_remove_spaces_single_word() {
    assert_eq!(remove_spaces("hello"), "hello");
}

#[test]
fn test_remove_spaces_empty() {
    assert_eq!(remove_spaces(""), "");
}

#[test]
fn test_remove_spaces_tabs() {
    assert_eq!(remove_spaces("hello\t\tworld"), "helloworld");
}

#[test]
fn test_remove_spaces_preserves_linebreaks() {
    assert_eq!(remove_spaces("hello world\r\nfoo bar"), "helloworld\r\nfoobar");
}

#[test]
fn test_remove_spaces_danish() {
    assert_eq!(remove_spaces("dette er en test"), "detteerentest");
}

// -------------------------------------------------------------------------
// replace_spaces_with_underscore
// -------------------------------------------------------------------------

#[test]
fn test_replace_spaces_with_underscore_basic() {
    assert_eq!(replace_spaces_with_underscore("hello world"), "hello_world");
}

#[test]
fn test_replace_spaces_with_underscore_multiple() {
    assert_eq!(replace_spaces_with_underscore("a   b   c"), "a___b___c");
}

#[test]
fn test_replace_spaces_with_underscore_tabs() {
    assert_eq!(replace_spaces_with_underscore("hello\tworld"), "hello_world");
}

#[test]
fn test_replace_spaces_with_underscore_preserves_linebreaks() {
    assert_eq!(
        replace_spaces_with_underscore("hello world\r\nfoo bar"),
        "hello_world\r\nfoo_bar"
    );
}

#[test]
fn test_replace_spaces_with_underscore_empty() {
    assert_eq!(replace_spaces_with_underscore(""), "");
}

#[test]
fn test_replace_spaces_with_underscore_danish() {
    assert_eq!(replace_spaces_with_underscore("dette er en test"), "dette_er_en_test");
}

// -------------------------------------------------------------------------
// replace_spaces_with_dash
// -------------------------------------------------------------------------

#[test]
fn test_replace_spaces_with_dash_basic() {
    assert_eq!(replace_spaces_with_dash("hello world"), "hello-world");
}

#[test]
fn test_replace_spaces_with_dash_multiple() {
    assert_eq!(replace_spaces_with_dash("a   b   c"), "a---b---c");
}

#[test]
fn test_replace_spaces_with_dash_tabs() {
    assert_eq!(replace_spaces_with_dash("hello\tworld"), "hello-world");
}

#[test]
fn test_replace_spaces_with_dash_preserves_linebreaks() {
    assert_eq!(
        replace_spaces_with_dash("hello world\r\nfoo bar"),
        "hello-world\r\nfoo-bar"
    );
}

#[test]
fn test_replace_spaces_with_dash_empty() {
    assert_eq!(replace_spaces_with_dash(""), "");
}

#[test]
fn test_replace_spaces_with_dash_danish() {
    assert_eq!(replace_spaces_with_dash("dette er en test"), "dette-er-en-test");
}

// -------------------------------------------------------------------------
// to_lower_camel_case
// -------------------------------------------------------------------------

#[test]
fn test_lower_camel_basic() {
    assert_eq!(to_lower_camel_case("hello world"), "helloWorld");
}

#[test]
fn test_lower_camel_single_word() {
    assert_eq!(to_lower_camel_case("hello"), "hello");
}

#[test]
fn test_lower_camel_empty() {
    assert_eq!(to_lower_camel_case(""), "");
}

#[test]
fn test_lower_camel_from_pascal() {
    // "HelloWorld" → ["Hello", "World"] → "helloWorld"
    assert_eq!(to_lower_camel_case("HelloWorld"), "helloWorld");
}

#[test]
fn test_lower_camel_from_snake() {
    assert_eq!(to_lower_camel_case("hello_world"), "helloWorld");
}

#[test]
fn test_lower_camel_from_kebab() {
    assert_eq!(to_lower_camel_case("hello-world"), "helloWorld");
}

#[test]
fn test_lower_camel_multi_word() {
    assert_eq!(to_lower_camel_case("hello world this is a test"), "helloWorldThisIsATest");
}

#[test]
fn test_lower_camel_all_caps_words() {
    assert_eq!(to_lower_camel_case("HELLO WORLD"), "helloWorld");
}

// -------------------------------------------------------------------------
// to_pascal_case
// -------------------------------------------------------------------------

#[test]
fn test_pascal_basic() {
    assert_eq!(to_pascal_case("hello world"), "HelloWorld");
}

#[test]
fn test_pascal_single_word() {
    assert_eq!(to_pascal_case("hello"), "Hello");
}

#[test]
fn test_pascal_empty() {
    assert_eq!(to_pascal_case(""), "");
}

#[test]
fn test_pascal_from_camel() {
    // "helloWorld" → ["hello", "World"] → "HelloWorld"
    assert_eq!(to_pascal_case("helloWorld"), "HelloWorld");
}

#[test]
fn test_pascal_from_snake() {
    assert_eq!(to_pascal_case("hello_world"), "HelloWorld");
}

#[test]
fn test_pascal_from_kebab() {
    assert_eq!(to_pascal_case("hello-world"), "HelloWorld");
}

#[test]
fn test_pascal_multi_word() {
    assert_eq!(to_pascal_case("hello world this is a test"), "HelloWorldThisIsATest");
}

#[test]
fn test_pascal_all_caps_words() {
    assert_eq!(to_pascal_case("HELLO WORLD"), "HelloWorld");
}

// -------------------------------------------------------------------------
// to_windows_filename
// -------------------------------------------------------------------------

#[test]
fn test_windows_filename_basic() {
    assert_eq!(to_windows_filename("hello world", "en"), "hello world");
}

#[test]
fn test_windows_filename_strips_forbidden_chars() {
    assert_eq!(
        to_windows_filename("Report: 2026/Q1 *Final* <draft>? | \\ \"", "en"),
        "Report 2026Q1 Final draft"
    );
}

#[test]
fn test_windows_filename_strips_control_chars() {
    assert_eq!(
        to_windows_filename("hello\x01\x1fworld", "en"),
        "helloworld"
    );
}

#[test]
fn test_windows_filename_collapses_whitespace_and_newlines() {
    assert_eq!(
        to_windows_filename("hello \r\n\t  world\nfoo", "en"),
        "hello world foo"
    );
}

#[test]
fn test_windows_filename_trims_leading_trailing_spaces_and_dots() {
    assert_eq!(
        to_windows_filename("  ...hello world...  ", "en"),
        "hello world"
    );
}

#[test]
fn test_windows_filename_preserves_internal_dots() {
    assert_eq!(
        to_windows_filename("archive.tar.gz", "en"),
        "archive.tar.gz"
    );
}

#[test]
fn test_windows_filename_preserves_danish_and_international() {
    assert_eq!(
        to_windows_filename("Danish æ, ø og å - Ä, ö, ü & 日本語", "en"),
        "Danish æ, ø og å - Ä, ö, ü & 日本語"
    );
}

#[test]
fn test_windows_filename_preserves_casing() {
    assert_eq!(
        to_windows_filename("MyCamelCaseDocument", "en"),
        "MyCamelCaseDocument"
    );
}

#[test]
fn test_windows_filename_all_invalid_en() {
    assert_eq!(
        to_windows_filename(":::*?<>", "en"),
        "All chars are invalid: :::*?<>"
    );
}

#[test]
fn test_windows_filename_all_invalid_da() {
    assert_eq!(
        to_windows_filename(":::*?<>", "da"),
        "Alle tegn er ugyldige: :::*?<>"
    );
}

#[test]
fn test_windows_filename_empty() {
    assert_eq!(to_windows_filename("", "en"), "");
}

#[test]
fn test_windows_filename_truncates_to_255() {
    let long_name = "a".repeat(300);
    let result = to_windows_filename(&long_name, "en");
    assert_eq!(result.chars().count(), 255);
    assert_eq!(result, "a".repeat(255));
}

#[test]
fn test_windows_filename_truncation_re_trims_dots_and_spaces() {
    let long_name = format!("{}. ...", "a".repeat(254));
    let result = to_windows_filename(&long_name, "en");
    assert_eq!(result, "a".repeat(254));
}

use live_transcribe::text_diff::{compute_append, compute_text_diff};

#[test]
fn test_no_change() {
    let diff = compute_text_diff("hello", "hello");
    assert_eq!(diff.common_prefix_bytes, 5);
    assert_eq!(diff.chars_to_delete, 0);
    assert_eq!(diff.suffix_to_type, "");
}

#[test]
fn test_complete_replacement() {
    let diff = compute_text_diff("hello", "world");
    assert_eq!(diff.common_prefix_bytes, 0);
    assert_eq!(diff.chars_to_delete, 5);
    assert_eq!(diff.suffix_to_type, "world");
}

#[test]
fn test_partial_change() {
    let diff = compute_text_diff("Hello world", "Hello there");
    assert_eq!(diff.common_prefix_bytes, 6);
    assert_eq!(diff.chars_to_delete, 5);
    assert_eq!(diff.suffix_to_type, "there");
}

#[test]
fn test_append_only() {
    let diff = compute_text_diff("Hello", "Hello world");
    assert_eq!(diff.common_prefix_bytes, 5);
    assert_eq!(diff.chars_to_delete, 0);
    assert_eq!(diff.suffix_to_type, " world");
}

#[test]
fn test_delete_only() {
    let diff = compute_text_diff("Hello world", "Hello");
    assert_eq!(diff.common_prefix_bytes, 5);
    assert_eq!(diff.chars_to_delete, 6);
    assert_eq!(diff.suffix_to_type, "");
}

#[test]
fn test_unicode_characters() {
    let diff = compute_text_diff("Hello 😀", "Hello 👋");
    assert_eq!(diff.common_prefix_bytes, 6);
    assert_eq!(diff.chars_to_delete, 1);
    assert_eq!(diff.suffix_to_type, "👋");
}

#[test]
fn test_unicode_common_prefix() {
    let diff = compute_text_diff("café blue", "café green");
    assert_eq!(diff.common_prefix_bytes, 6);
    assert_eq!(diff.chars_to_delete, 4);
    assert_eq!(diff.suffix_to_type, "green");
}

#[test]
fn test_empty_old_text() {
    let diff = compute_text_diff("", "hello");
    assert_eq!(diff.common_prefix_bytes, 0);
    assert_eq!(diff.chars_to_delete, 0);
    assert_eq!(diff.suffix_to_type, "hello");
}

#[test]
fn test_empty_new_text() {
    let diff = compute_text_diff("hello", "");
    assert_eq!(diff.common_prefix_bytes, 0);
    assert_eq!(diff.chars_to_delete, 5);
    assert_eq!(diff.suffix_to_type, "");
}

#[test]
fn test_both_empty() {
    let diff = compute_text_diff("", "");
    assert_eq!(diff.common_prefix_bytes, 0);
    assert_eq!(diff.chars_to_delete, 0);
    assert_eq!(diff.suffix_to_type, "");
}

#[test]
fn test_compute_append_with_suffix() {
    let suffix = compute_append("Hello", "Hello world");
    assert_eq!(suffix, Some(" world".to_string()));
}

#[test]
fn test_compute_append_no_change() {
    let suffix = compute_append("Hello", "Hello");
    assert_eq!(suffix, None);
}

#[test]
fn test_compute_append_diverged() {
    let suffix = compute_append("Hello world", "Hello there");
    assert_eq!(suffix, None);
}

#[test]
fn test_compute_append_empty_old() {
    let suffix = compute_append("", "Hello");
    assert_eq!(suffix, Some("Hello".to_string()));
}

#[test]
fn diff_of_identical_multibyte_text_is_empty() {
    for text in ["", "a", "café ☕ 😀 naïve", "日本語のテキスト"] {
        let diff = compute_text_diff(text, text);
        assert_eq!(diff.chars_to_delete, 0);
        assert_eq!(diff.suffix_to_type, "");
        assert_eq!(diff.common_prefix_bytes, text.len());
    }
}

#[test]
fn diff_never_splits_a_multibyte_character() {
    // "é" and "è" share their first UTF-8 byte but are different characters.
    let diff = compute_text_diff("caf\u{e9}", "caf\u{e8}s");
    assert_eq!(diff.common_prefix_bytes, 3);
    assert_eq!(diff.chars_to_delete, 1);
    assert_eq!(diff.suffix_to_type, "\u{e8}s");
}

#[test]
fn compute_append_multibyte_suffix() {
    assert_eq!(compute_append("naïve", "naïve café"), Some(" café".to_string()));
    assert_eq!(compute_append("naïve café", "naïve"), None);
}

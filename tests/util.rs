use zeroclaw::util::truncate_with_ellipsis;

#[test]
fn ascii_no_truncation() {
    assert_eq!(truncate_with_ellipsis("hello", 10), "hello");
}

#[test]
fn ascii_exact_boundary() {
    assert_eq!(truncate_with_ellipsis("hello", 5), "hello");
}

#[test]
fn ascii_truncated() {
    assert_eq!(truncate_with_ellipsis("hello world", 5), "hello...");
}

#[test]
fn empty_string() {
    assert_eq!(truncate_with_ellipsis("", 10), "");
}

#[test]
fn emoji_safe_truncation() {
    // Each emoji is 4 bytes; byte-index slicing would panic
    let s = "\u{1F600}\u{1F601}\u{1F602}\u{1F603}\u{1F604}"; // 5 emoji
    let result = truncate_with_ellipsis(s, 3);
    assert_eq!(result, "\u{1F600}\u{1F601}\u{1F602}...");
}

#[test]
fn cjk_safe_truncation() {
    // Each CJK character is 3 bytes
    let s = "\u{4F60}\u{597D}\u{4E16}\u{754C}"; // 4 chars
    let result = truncate_with_ellipsis(s, 2);
    assert_eq!(result, "\u{4F60}\u{597D}...");
}

#[test]
fn mixed_ascii_and_multibyte() {
    let s = "hi \u{1F600} world";
    let result = truncate_with_ellipsis(s, 4);
    assert_eq!(result, "hi \u{1F600}...");
}

#[test]
fn zero_max_chars() {
    assert_eq!(truncate_with_ellipsis("hello", 0), "...");
}

#[test]
fn truncation_one_past_length_keeps_whole_text() {
    assert_eq!(truncate_with_ellipsis("abc", 4), "abc");
    assert_eq!(truncate_with_ellipsis("abcd", 3), "abc...");
}

use tutorial_core::text::{first_word, longest};

#[test]
fn first_word_stops_at_the_first_space() {
    assert_eq!(first_word("Page not found:("), "Page");
}

#[test]
fn first_word_without_spaces_is_the_whole_text() {
    assert_eq!(first_word("NoSpacesHere"), "NoSpacesHere");
}

#[test]
fn first_word_of_empty_text_is_empty() {
    assert_eq!(first_word(""), "");
}

#[test]
fn first_word_of_leading_space_is_empty() {
    assert_eq!(first_word(" trailing"), "");
}

#[test]
fn first_word_respects_multi_byte_characters() {
    assert_eq!(first_word("贵樣 ok"), "贵樣");
    assert_eq!(first_word("नमस्ते"), "नमस्ते");
}

#[test]
fn longest_picks_the_longer_text() {
    assert_eq!(longest("abcd", "xyz"), "abcd");
    assert_eq!(longest("xy", "xyz"), "xyz");
}

#[test]
fn longest_tie_returns_the_first_argument() {
    assert_eq!(longest("abc", "abc"), "abc");
    assert_eq!(longest("abc", "xyz"), "abc");
}

#[test]
fn longest_counts_code_points_not_bytes() {
    // Three code points on each side, though the left takes nine bytes.
    assert_eq!(longest("日本語", "abc"), "日本語");
    // Four code points beat three, though fewer bytes than the right.
    assert_eq!(longest("wxyz", "日本語"), "wxyz");
}

use toss::lines::{split_lines, trim};

#[test]
fn trimming_uses_unicode_white_space() {
    assert_eq!(trim("\u{3000}\t a b \u{85}\u{2028}"), "a b");
    assert_eq!(trim("\u{200b}x"), "\u{200b}x");
    assert_eq!(trim("   "), "");
}

#[test]
fn lines_split_at_line_feeds() {
    assert_eq!(split_lines("a\r\nb\n\nc"), vec!["a", "b", "", "c"]);
}

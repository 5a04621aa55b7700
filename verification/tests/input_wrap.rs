//! Wrapping of the input text.

use sven_tui::input_wrap::{adjust_scroll, byte_offset_at_row_col, wrap_content};

// ── Empty / trivial ───────────────────────────────────────────────────────

#[test]
fn empty_string_one_empty_line_cursor_at_origin() {
    let s = wrap_content("", 10, 0);
    assert_eq!(s.lines, vec!["".to_string()]);
    assert_eq!(s.cursor_row, 0);
    assert_eq!(s.cursor_col, 0);
}

#[test]
fn single_char_cursor_at_start() {
    let s = wrap_content("x", 10, 0);
    assert_eq!(s.cursor_row, 0);
    assert_eq!(s.cursor_col, 0);
}

#[test]
fn single_char_cursor_at_end() {
    let s = wrap_content("x", 10, 1);
    assert_eq!(s.cursor_row, 0);
    assert_eq!(s.cursor_col, 1);
}

// ── ASCII soft-wrapping ───────────────────────────────────────────────────

#[test]
fn no_wrap_when_content_fits() {
    let s = wrap_content("hello", 10, 5);
    assert_eq!(s.lines, vec!["hello".to_string()]);
    assert_eq!(s.cursor_row, 0);
    assert_eq!(s.cursor_col, 5);
}

#[test]
fn soft_wrap_splits_at_width() {
    // width=3: "abc" fills the line; "de" starts on the next
    let s = wrap_content("abcde", 3, 0);
    assert_eq!(s.lines, vec!["abc".to_string(), "de".to_string()]);
}

#[test]
fn cursor_before_first_char_of_wrapped_line() {
    // "abcde", width=3 → ["abc", "de"]
    // cursor at byte 3 (before 'd') → row 1, col 0
    let s = wrap_content("abcde", 3, 3);
    assert_eq!(s.cursor_row, 1);
    assert_eq!(s.cursor_col, 0);
}

#[test]
fn cursor_within_first_wrapped_segment() {
    // cursor at byte 2 (before 'c') → row 0, col 2
    let s = wrap_content("abcde", 3, 2);
    assert_eq!(s.cursor_row, 0);
    assert_eq!(s.cursor_col, 2);
}

#[test]
fn cursor_within_second_wrapped_segment() {
    // cursor at byte 4 (before 'e') → row 1, col 1
    let s = wrap_content("abcde", 3, 4);
    assert_eq!(s.cursor_row, 1);
    assert_eq!(s.cursor_col, 1);
}

#[test]
fn cursor_at_end_of_exactly_full_line_wraps_to_next_row() {
    // "abc" exactly fills width=3; cursor at end (byte 3) → row 1, col 0
    let s = wrap_content("abc", 3, 3);
    assert_eq!(s.cursor_row, 1);
    assert_eq!(s.cursor_col, 0);
}

#[test]
fn cursor_at_end_of_short_line_stays_on_same_row() {
    // "ab" is shorter than width=3; cursor at end (byte 2) → row 0, col 2
    let s = wrap_content("ab", 3, 2);
    assert_eq!(s.cursor_row, 0);
    assert_eq!(s.cursor_col, 2);
}

// ── Newline handling ──────────────────────────────────────────────────────

#[test]
fn explicit_newline_splits_lines() {
    let s = wrap_content("a\nb", 10, 0);
    assert_eq!(s.lines, vec!["a".to_string(), "b".to_string()]);
}

#[test]
fn cursor_before_newline_stays_on_first_row() {
    // "a\nb", cursor at byte 1 (before '\n') → row 0, col 1
    let s = wrap_content("a\nb", 10, 1);
    assert_eq!(s.cursor_row, 0);
    assert_eq!(s.cursor_col, 1);
}

#[test]
fn cursor_after_newline_is_on_second_row() {
    // "a\nb", cursor at byte 2 (after '\n', before 'b') → row 1, col 0
    let s = wrap_content("a\nb", 10, 2);
    assert_eq!(s.cursor_row, 1);
    assert_eq!(s.cursor_col, 0);
}

#[test]
fn trailing_newline_creates_empty_last_line() {
    let s = wrap_content("a\n", 10, 2);
    assert_eq!(s.lines, vec!["a".to_string(), "".to_string()]);
    // Cursor at byte 2 (end, after '\n') → row 1, col 0
    assert_eq!(s.cursor_row, 1);
    assert_eq!(s.cursor_col, 0);
}

#[test]
fn three_lines_separated_by_newlines() {
    let s = wrap_content("a\nb\nc", 10, 0);
    assert_eq!(s.lines, vec!["a".to_string(), "b".to_string(), "c".to_string()]);
    // cursor at 'b' → byte 2 → row 1, col 0
    let s2 = wrap_content("a\nb\nc", 10, 2);
    assert_eq!(s2.cursor_row, 1);
    assert_eq!(s2.cursor_col, 0);
}

// ── Soft-wrap + newline combined ──────────────────────────────────────────

#[test]
fn newline_resets_column_counter_for_following_text() {
    // "ab\ncde" in width=3: "ab" on line 0; after '\n' the col counter
    // resets so "cde" (exactly 3 cols) fits entirely on line 1 —
    // no soft wrap because it doesn't *exceed* the width limit.
    // "ab\ncdef" (width=3): "cde"=3 fits, then 'f' overflows → ["ab","cde","f"].
    let s = wrap_content("ab\ncdef", 3, 0);
    assert_eq!(s.lines, vec!["ab".to_string(), "cde".to_string(), "f".to_string()]);
}

#[test]
fn newline_followed_by_exactly_fitting_text_no_extra_wrap() {
    // "ab\ncde" in width=3: "cde" is exactly 3 cols, fits without wrapping.
    let s = wrap_content("ab\ncde", 3, 0);
    assert_eq!(s.lines, vec!["ab".to_string(), "cde".to_string()]);
}

#[test]
fn cursor_after_newline_before_soft_wrapped_content() {
    // "ab\ncdef", width=3 → ["ab","cde","f"]
    // cursor at byte 3 (after '\n', before 'c') → row 1, col 0
    let s = wrap_content("ab\ncdef", 3, 3);
    assert_eq!(s.cursor_row, 1);
    assert_eq!(s.cursor_col, 0);
}

#[test]
fn cursor_on_third_wrapped_line() {
    // "ab\ncdef", width=3 → ["ab","cde","f"]
    // cursor at byte 6 (before 'f') → row 2, col 0
    let s = wrap_content("ab\ncdef", 3, 6);
    assert_eq!(s.cursor_row, 2);
    assert_eq!(s.cursor_col, 0);
}

// ── Unicode / wide characters ─────────────────────────────────────────────

#[test]
fn wide_chars_counted_as_two_columns() {
    // '中' is 2 display columns; width=4 fits 2 ideographs, then wraps
    let s = wrap_content("中中中", 4, 0);
    assert_eq!(s.lines, vec!["中中".to_string(), "中".to_string()]);
}

#[test]
fn cursor_after_wide_char_at_correct_column() {
    // '中' (3 bytes, 2 cols), cursor at byte 3 → row 0, col 2
    let s = wrap_content("中X", 10, 3);
    assert_eq!(s.cursor_row, 0);
    assert_eq!(s.cursor_col, 2);
}

#[test]
fn multibyte_ascii_equivalent_cursor() {
    // ASCII 'é' (2 bytes in UTF-8), cursor at end (byte 2) → col 1
    let s = wrap_content("é", 10, "é".len());
    assert_eq!(s.cursor_row, 0);
    assert_eq!(s.cursor_col, 1);
}

// ── Zero-width disables soft-wrap ─────────────────────────────────────────

#[test]
fn zero_width_never_soft_wraps() {
    let s = wrap_content("a very long string indeed", 0, 0);
    assert_eq!(s.lines.len(), 1);
}

// ── Out-of-range cursor clamping ──────────────────────────────────────────

#[test]
fn cursor_beyond_end_is_clamped() {
    let s = wrap_content("abc", 10, 999);
    // After clamping to len=3, cursor is at the end
    assert_eq!(s.cursor_row, 0);
    assert_eq!(s.cursor_col, 3);
}

// ── adjust_scroll ─────────────────────────────────────────────────────────

#[test]
fn adjust_scroll_noop_when_cursor_in_visible_window() {
    let mut off: usize = 2;
    adjust_scroll(3, 5, &mut off); // cursor row 3 is inside rows 2..7
    assert_eq!(off, 2);
}

#[test]
fn adjust_scroll_scrolls_up_when_cursor_above_window() {
    let mut off: usize = 5;
    adjust_scroll(2, 3, &mut off); // cursor at row 2, window 5..8 → scroll to 2
    assert_eq!(off, 2);
}

#[test]
fn adjust_scroll_scrolls_down_when_cursor_below_window() {
    let mut off: usize = 0;
    adjust_scroll(5, 3, &mut off); // cursor at row 5, window 0..3 → scroll to 3
    assert_eq!(off, 3);
}

#[test]
fn adjust_scroll_cursor_exactly_at_bottom_of_window_is_noop() {
    let mut off: usize = 0;
    adjust_scroll(2, 3, &mut off); // cursor at row 2, window 0..3 (last visible row)
    assert_eq!(off, 0);
}

#[test]
fn adjust_scroll_zero_visible_height_is_noop() {
    let mut off: usize = 0;
    adjust_scroll(100, 0, &mut off);
    assert_eq!(off, 0);
}

#[test]
fn adjust_scroll_already_at_top_stays_zero() {
    let mut off: usize = 0;
    adjust_scroll(0, 3, &mut off);
    assert_eq!(off, 0);
}

#[test]
fn the_text_before_the_cursor_is_above_and_left_of_it() {
    let text = "héllo wörld\n你好吗 ok\n\nend";
    for width in [0, 1, 2, 5, 80] {
        for at in (0..=text.len() + 3).filter(|b| *b > text.len() || text.is_char_boundary(*b)) {
            let s = wrap_content(text, width, at);
            let c = at.min(text.len());
            let before: String = text[..c].chars().filter(|c| *c != '\n').collect();
            let above: String = s.lines[..s.cursor_row].concat();
            let own = before.strip_prefix(above.as_str()).unwrap();
            assert!(s.lines[s.cursor_row].starts_with(own));
            let cols: usize =
                own.chars().map(|c| unicode_width::UnicodeWidthChar::width(c).unwrap_or(1)).sum();
            assert_eq!(s.cursor_col, cols);
            assert_eq!(s, wrap_content(text, width, c));
        }
    }
}

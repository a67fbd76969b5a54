use termchat::text::{
    char_byte_len, char_width, chars_of, cursor_line_col, split_input_lines, split_spans,
    wrap_with_prefixes, LineSpan,
};

fn strings(v: &[&str]) -> Vec<String> {
    v.iter().map(|s| s.to_string()).collect()
}

#[test]
fn char_width_ascii_wide_and_control() {
    assert_eq!(char_width('a'), 1);
    assert_eq!(char_width('中'), 2);
    assert_eq!(char_width('\n'), 0);
    assert_eq!(char_width('\u{7f}'), 0);
}

#[test]
fn char_byte_len_matches_utf8() {
    for c in ['a', 'é', '中', '🗿'] {
        assert_eq!(char_byte_len(c), c.len_utf8());
    }
}

#[test]
fn chars_of_keeps_order() {
    assert_eq!(chars_of("añ中"), vec!['a', 'ñ', '中']);
    assert!(chars_of("").is_empty());
}

#[test]
fn split_plain_text_by_width() {
    assert_eq!(split_input_lines("abcdef", 4), strings(&["abcd", "ef"]));
    assert_eq!(split_input_lines("abcd", 4), strings(&["abcd"]));
}

#[test]
fn split_empty_input_gives_one_empty_line() {
    assert_eq!(split_input_lines("", 10), strings(&[""]));
}

#[test]
fn split_consumes_newlines() {
    assert_eq!(split_input_lines("ab\ncd", 10), strings(&["ab", "cd"]));
    assert_eq!(split_input_lines("a\n\nb", 10), strings(&["a", "", "b"]));
}

#[test]
fn split_drops_line_opened_by_final_newline() {
    assert_eq!(split_input_lines("ab\n", 10), strings(&["ab"]));
}

#[test]
fn wide_glyph_alone_on_its_own_line() {
    // A two-column glyph at a budget of one column is never split.
    let lines = split_input_lines("中", 1);
    assert_eq!(lines, strings(&["", "中"]));
    let lines = split_input_lines("a中b", 2);
    assert_eq!(lines, strings(&["a", "中", "b"]));
}

#[test]
fn wide_glyphs_fill_lines_by_columns() {
    assert_eq!(split_input_lines("中文字", 4), strings(&["中文", "字"]));
}

#[test]
fn spans_mark_newline_breaks() {
    let text: Vec<char> = "ab\ncd".chars().collect();
    let spans = split_spans(&text, 10);
    assert_eq!(
        spans,
        vec![
            LineSpan { start: 0, end: 2, newline: true },
            LineSpan { start: 3, end: 5, newline: false },
        ]
    );
}

#[test]
fn spans_rejoin_to_the_text() {
    for (s, w) in [("hello world\nfoo", 4usize), ("中文 text\n\nx", 3), ("", 5), ("a\n", 1)] {
        let text: Vec<char> = s.chars().collect();
        let spans = split_spans(&text, w);
        let mut joined = String::new();
        for sp in &spans {
            joined.extend(&text[sp.start..sp.end]);
            if sp.newline {
                joined.push('\n');
            }
        }
        assert_eq!(joined, s);
    }
}

#[test]
fn every_line_fits_the_width() {
    let s = "the quick brown 狐狸 jumps over\nthe lazy dog";
    for w in 2..12usize {
        for line in split_input_lines(s, w) {
            let cols: usize = line.chars().map(char_width).sum();
            assert!(cols <= w, "line {:?} at width {}", line, w);
        }
    }
}

#[test]
fn cursor_line_col_finds_line_and_column() {
    assert_eq!(cursor_line_col(0, "abcdef", 4), (0, 0));
    assert_eq!(cursor_line_col(2, "abcdef", 4), (0, 2));
    assert_eq!(cursor_line_col(4, "abcdef", 4), (0, 4));
    assert_eq!(cursor_line_col(5, "abcdef", 4), (1, 1));
}

#[test]
fn cursor_line_col_counts_newline_bytes() {
    // Lines "a", "b", "c"; byte 3 is the end of the second line.
    assert_eq!(cursor_line_col(3, "a\nb\nc", 10), (1, 1));
    assert_eq!(cursor_line_col(2, "a\nb\nc", 10), (1, 0));
    assert_eq!(cursor_line_col(4, "a\nb\nc", 10), (2, 0));
    assert_eq!(cursor_line_col(5, "a\nb\nc", 10), (2, 1));
}

#[test]
fn cursor_line_col_measures_wide_glyphs() {
    assert_eq!(cursor_line_col(3, "中文x", 4), (0, 2));
    assert_eq!(cursor_line_col(6, "中文x", 4), (0, 4));
    assert_eq!(cursor_line_col(7, "中文x", 4), (1, 1));
}

#[test]
fn cursor_line_col_clamps_past_the_end() {
    assert_eq!(cursor_line_col(100, "ab\ncde", 10), (1, 3));
    assert_eq!(cursor_line_col(3, "", 10), (0, 0));
    // After a final newline there is no line to hold the cursor.
    assert_eq!(cursor_line_col(3, "ab\n", 10), (0, 2));
}

#[test]
fn prefixed_wrap_of_empty_content_is_bare_prefix() {
    assert_eq!(wrap_with_prefixes("", 20, "│ "), strings(&["│ "]));
}

#[test]
fn prefixed_wrap_splits_at_width_less_prefix() {
    assert_eq!(
        wrap_with_prefixes("abcdef", 6, "│ "),
        strings(&["│ abcd", "│ ef"])
    );
    assert_eq!(
        wrap_with_prefixes("ab\ncd", 20, "> "),
        strings(&["> ab", "> cd"])
    );
}

#[test]
fn prefixed_wrap_matches_split_after_final_newline() {
    assert_eq!(wrap_with_prefixes("a\n", 20, "> "), strings(&["> a"]));
    assert_eq!(split_input_lines("a\n", 18), strings(&["a"]));
}

#[test]
fn input_lines_rejoin_with_their_newlines() {
    for s in ["ab\ncd", "a\n\nb\n", "x", "\n"] {
        let lines = split_input_lines(s, 10);
        assert!(lines.iter().all(|l| !l.contains('\n')));
        let newlines = s.matches('\n').count();
        let joined = lines.join("\n") + if s.ends_with('\n') { "\n" } else { "" };
        assert_eq!(joined, s);
        assert_eq!(lines.len(), newlines + if s.ends_with('\n') { 0 } else { 1 });
    }
}

#[test]
fn printable_ascii_is_one_column() {
    for c in ' '..='~' {
        assert_eq!(char_width(c), 1);
    }
}

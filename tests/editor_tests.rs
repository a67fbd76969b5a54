use termchat::editor::InputEditor;

fn typed(s: &str) -> InputEditor {
    let mut e = InputEditor::new();
    for c in s.chars() {
        if c == '\n' {
            e.insert_newline();
        } else {
            e.insert_char(c);
        }
    }
    e
}

fn on_boundary(e: &InputEditor) -> bool {
    let v = e.value();
    e.cursor() <= v.len() && v.is_char_boundary(e.cursor())
}

#[test]
fn new_editor_is_empty() {
    let e = InputEditor::new();
    assert_eq!(e.value(), "");
    assert_eq!(e.cursor(), 0);
}

#[test]
fn insert_advances_cursor_by_bytes() {
    let e = typed("a中");
    assert_eq!(e.value(), "a中");
    assert_eq!(e.cursor(), 4);
}

#[test]
fn insert_in_the_middle() {
    let mut e = typed("ac");
    e.move_left();
    e.insert_char('b');
    assert_eq!(e.value(), "abc");
    assert_eq!(e.cursor(), 2);
}

#[test]
fn delete_backward_removes_whole_glyph() {
    let mut e = typed("x中");
    e.delete_backward();
    assert_eq!(e.value(), "x");
    assert_eq!(e.cursor(), 1);
}

#[test]
fn delete_backward_at_start_does_nothing() {
    let mut e = typed("ab");
    e.move_left();
    e.move_left();
    e.delete_backward();
    assert_eq!(e.value(), "ab");
    assert_eq!(e.cursor(), 0);
}

#[test]
fn delete_forward_removes_glyph_at_cursor() {
    let mut e = typed("中x");
    e.move_left();
    e.move_left();
    e.delete_forward();
    assert_eq!(e.value(), "x");
    assert_eq!(e.cursor(), 0);
    e.move_right();
    e.delete_forward();
    assert_eq!(e.value(), "x");
}

#[test]
fn moves_stop_at_the_ends() {
    let mut e = typed("é");
    e.move_right();
    assert_eq!(e.cursor(), 2);
    e.move_left();
    e.move_left();
    assert_eq!(e.cursor(), 0);
}

#[test]
fn home_and_end_follow_display_lines() {
    let mut e = typed("abcdef");
    e.move_home(4);
    assert_eq!(e.cursor(), 4);
    // Offset 4 closes the first display line as well as opening the second;
    // it counts as the end of the first.
    assert_eq!(e.line_col(4), (0, 4));
    e.move_end(4);
    assert_eq!(e.cursor(), 4);
    e.move_right();
    e.move_end(4);
    assert_eq!(e.cursor(), 6);
    e.move_left();
    e.move_left();
    e.move_left();
    e.move_home(4);
    assert_eq!(e.cursor(), 0);
    e.move_end(4);
    assert_eq!(e.cursor(), 4);
}

#[test]
fn end_stops_before_the_newline() {
    let mut e = typed("ab\ncd");
    e.move_up(10);
    e.move_home(10);
    assert_eq!(e.cursor(), 0);
    e.move_end(10);
    assert_eq!(e.cursor(), 2);
}

#[test]
fn up_and_down_keep_the_column() {
    let mut e = typed("abc\nxy");
    assert_eq!(e.line_col(10), (1, 2));
    e.move_up(10);
    assert_eq!(e.cursor(), 2);
    assert_eq!(e.line_col(10), (0, 2));
    e.move_right();
    e.move_down(10);
    // "xy" is shorter: the cursor goes to its end.
    assert_eq!(e.cursor(), 6);
}

#[test]
fn up_on_first_line_and_down_on_last_do_nothing() {
    let mut e = typed("ab");
    e.move_up(10);
    assert_eq!(e.cursor(), 2);
    e.move_down(10);
    assert_eq!(e.cursor(), 2);
}

#[test]
fn up_and_down_across_wrapped_lines_with_wide_glyphs() {
    let mut e = typed("中文ab");
    // width 4: lines "中文" and "ab"; cursor at end of "ab", column 2.
    e.move_up(4);
    assert_eq!(e.cursor(), 3);
    e.move_down(4);
    assert_eq!(e.cursor(), 8);
}

#[test]
fn clear_empties_buffer() {
    let mut e = typed("hello");
    e.clear();
    assert_eq!(e.value(), "");
    assert_eq!(e.cursor(), 0);
}

#[test]
fn cursor_stays_on_char_boundaries() {
    let mut e = InputEditor::new();
    let steps: Vec<u8> = vec![0, 0, 1, 2, 0, 3, 4, 0, 5, 6, 7, 8, 2, 2, 9, 0, 1, 4, 4, 3, 6, 7];
    let glyphs = ['中', 'a', 'é', '🗿', '\n'];
    for (i, s) in steps.iter().enumerate() {
        match s {
            0 => e.insert_char(glyphs[i % glyphs.len()]),
            1 => e.delete_backward(),
            2 => e.move_left(),
            3 => e.move_right(),
            4 => e.delete_forward(),
            5 => e.move_home(3),
            6 => e.move_end(3),
            7 => e.move_up(3),
            8 => e.move_down(3),
            _ => e.insert_newline(),
        }
        assert!(on_boundary(&e), "after step {}", i);
    }
}

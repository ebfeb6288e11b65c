use kilo::editor::Editor;
use kilo::input::{Key, Mode};
use kilo::model::{PromptStep, Snapshot, Step};
use kilo::syntax::{Syntax, SyntaxRe};

fn plain() -> SyntaxRe {
    SyntaxRe::new(&Syntax::new()).unwrap()
}

fn editor() -> Editor {
    Editor::new(80, 24, plain())
}

fn editor_with(lines: &[&str]) -> Editor {
    let mut editor = editor();
    let lines = lines.iter().map(|line| line.to_string()).collect();
    editor.read_file("test.txt", Syntax::new(), plain(), Some(lines), 0);
    editor
}

fn rows(editor: &Editor) -> Vec<String> {
    (0..editor.row_count()).map(|i| editor.row(i).unwrap().chars()).collect()
}

fn type_text(editor: &mut Editor, text: &str) {
    for c in text.chars() {
        assert_eq!(editor.process_keypress(Key::Char(c), 0), Step::Continue);
    }
}

fn press(editor: &mut Editor, keys: &[Key]) {
    for key in keys {
        editor.process_keypress(*key, 0);
    }
}

fn cursor_is_in_bounds(editor: &Editor) -> bool {
    let (cx, cy) = editor.cursor();
    cy <= editor.row_count() && (cy == editor.row_count() || cx <= editor.row(cy).unwrap().len())
}

#[test]
fn new_editor_is_empty() {
    let editor = Editor::new(80, 24, plain());
    assert_eq!(editor.cursor(), (0, 0));
    assert_eq!(editor.offsets(), (0, 0));
    assert_eq!(editor.rx(), 0);
    assert_eq!(editor.row_count(), 0);
    assert!(editor.row(0).is_none());
    assert!(!editor.is_dirty());
    assert_eq!(editor.quit_times(), 2);
    assert_eq!(editor.mode(), Mode::Insert);
    assert_eq!(editor.filename(), None);
    assert_eq!(editor.status_message(), None);
    assert_eq!(editor.rows_to_string(), "");
}

#[test]
fn read_file_takes_the_lines() {
    let editor = editor_with(&["one", "two\tx", ""]);
    assert_eq!(rows(&editor), vec!["one", "two\tx", ""]);
    assert_eq!(editor.filename(), Some("test.txt".to_string()));
    assert_eq!(editor.status_message(), None);
    assert!(!editor.is_dirty());
    assert_eq!(editor.cursor(), (0, 0));
    assert_eq!(editor.row(1).unwrap().render(), "two     x");
}

#[test]
fn read_file_appends_and_reclassifies() {
    let mut editor = editor_with(&["let a"]);
    let mut syntax = Syntax::new();
    syntax.filetype = "rust".to_string();
    syntax.keywords = vec!["let".to_string()];
    let profile = SyntaxRe::new(&syntax).unwrap();
    editor.read_file("more.rs", syntax, profile, Some(vec!["let b".to_string()]), 3);
    assert_eq!(rows(&editor), vec!["let a", "let b"]);
    assert_eq!(editor.filename(), Some("more.rs".to_string()));
    for i in 0..2 {
        let row = editor.row(i).unwrap();
        assert_eq!(row.highlight()[0], kilo::highlight::Highlight::Keyword);
        assert_eq!(row.syntax().patterns().2, Some("\\b(let)\\b".to_string()));
    }
}

#[test]
fn missing_file_is_reported_and_starts_empty() {
    let mut editor = editor();
    editor.read_file("new.txt", Syntax::new(), plain(), None, 17);
    assert_eq!(editor.row_count(), 0);
    assert_eq!(editor.filename(), Some("new.txt".to_string()));
    assert_eq!(editor.status_message(), Some(("new.txt [New file]".to_string(), 17)));
    assert!(!editor.is_dirty());
}

#[test]
fn rows_to_string_ends_every_row_with_a_line_feed() {
    assert_eq!(editor_with(&["one", "", "three"]).rows_to_string(), "one\n\nthree\n");
    assert_eq!(editor_with(&["a\tb"]).rows_to_string(), "a\tb\n");
    assert_eq!(editor_with(&[]).rows_to_string(), "");
}

#[test]
fn typing_inserts_at_the_cursor() {
    let mut editor = editor();
    type_text(&mut editor, "hello");
    assert_eq!(rows(&editor), vec!["hello"]);
    assert_eq!(editor.cursor(), (5, 0));
    assert!(editor.is_dirty());
    press(&mut editor, &[Key::Left, Key::Left]);
    type_text(&mut editor, "XY");
    assert_eq!(rows(&editor), vec!["helXYlo"]);
    assert_eq!(editor.cursor(), (5, 0));
}

#[test]
fn typing_past_the_last_line_appends_a_row() {
    let mut editor = editor_with(&["hello"]);
    press(&mut editor, &[Key::Right, Key::Right, Key::Right, Key::Down]);
    assert_eq!(editor.cursor(), (3, 1));
    editor.insert_char('x');
    assert_eq!(rows(&editor), vec!["hello", "x"]);
    assert_eq!(editor.cursor(), (1, 1));
    assert!(cursor_is_in_bounds(&editor));
}

#[test]
fn tab_key_types_four_spaces() {
    let mut editor = editor();
    editor.process_keypress(Key::Char('\t'), 0);
    assert_eq!(rows(&editor), vec!["    "]);
    assert_eq!(editor.cursor(), (4, 0));
    editor.process_keypress(Key::Backspace, 0);
    assert_eq!(rows(&editor), vec![""]);
    assert_eq!(editor.cursor(), (0, 0));
}

#[test]
fn backspace_at_origin_is_a_no_op() {
    let mut editor = editor_with(&["abc", "def"]);
    editor.delete_char();
    assert_eq!(rows(&editor), vec!["abc", "def"]);
    assert_eq!(editor.cursor(), (0, 0));
    assert!(!editor.is_dirty());
    editor.process_keypress(Key::Backspace, 0);
    assert_eq!(rows(&editor), vec!["abc", "def"]);
    assert_eq!(editor.cursor(), (0, 0));
    assert!(!editor.is_dirty());
}

#[test]
fn backspace_at_row_start_joins_rows() {
    let mut editor = editor_with(&["abc", "def", "ghi"]);
    press(&mut editor, &[Key::Down, Key::Down]);
    assert_eq!(editor.cursor(), (0, 2));
    editor.delete_char();
    assert_eq!(rows(&editor), vec!["abc", "defghi"]);
    assert_eq!(editor.cursor(), (3, 1));
    assert!(editor.is_dirty());
    press(&mut editor, &[Key::Left, Key::Left, Key::Left]);
    editor.delete_char();
    assert_eq!(rows(&editor), vec!["abcdefghi"]);
    assert_eq!(editor.cursor(), (3, 0));
}

#[test]
fn backspace_past_the_last_line_is_a_no_op() {
    let mut editor = editor_with(&["abc"]);
    press(&mut editor, &[Key::Down]);
    assert_eq!(editor.cursor(), (0, 1));
    editor.delete_char();
    assert_eq!(rows(&editor), vec!["abc"]);
    assert_eq!(editor.cursor(), (0, 1));
    assert!(!editor.is_dirty());
}

#[test]
fn backspace_moves_left_by_what_was_removed() {
    let mut editor = editor_with(&["ab    cd"]);
    press(&mut editor, &[Key::Right; 6]);
    editor.delete_char();
    assert_eq!(rows(&editor), vec!["abcd"]);
    assert_eq!(editor.cursor(), (2, 0));
    editor.delete_char();
    assert_eq!(rows(&editor), vec!["acd"]);
    assert_eq!(editor.cursor(), (1, 0));
}

#[test]
fn insert_then_backspace_restores_the_buffer() {
    for column in 0..=3 {
        let mut editor = editor_with(&["abc", "x"]);
        for _ in 0..column {
            editor.move_cursor(Key::Right);
        }
        editor.insert_char('q');
        assert_eq!(editor.cursor(), (column + 1, 0));
        editor.delete_char();
        assert_eq!(rows(&editor), vec!["abc", "x"]);
        assert_eq!(editor.cursor(), (column, 0));
    }
}

#[test]
fn delete_key_erases_under_the_cursor() {
    let mut editor = editor_with(&["abc"]);
    editor.process_keypress(Key::Delete, 0);
    assert_eq!(rows(&editor), vec!["bc"]);
    assert_eq!(editor.cursor(), (0, 0));
    press(&mut editor, &[Key::Right, Key::Right]);
    editor.process_keypress(Key::Delete, 0);
    assert_eq!(rows(&editor), vec!["b"]);
    assert_eq!(editor.cursor(), (1, 0));
}

#[test]
fn control_h_is_backspace() {
    let mut editor = editor_with(&["abc"]);
    press(&mut editor, &[Key::Right, Key::Right, Key::Ctrl('h')]);
    assert_eq!(rows(&editor), vec!["ac"]);
    assert_eq!(editor.cursor(), (1, 0));
}

#[test]
fn newline_splits_the_row() {
    let mut editor = editor_with(&["hello world"]);
    press(&mut editor, &[Key::Right; 5]);
    editor.insert_newline();
    assert_eq!(rows(&editor), vec!["hello", " world"]);
    assert_eq!(editor.cursor(), (0, 1));
    assert!(editor.is_dirty());
}

#[test]
fn newline_at_row_start_inserts_an_empty_row_above() {
    let mut editor = editor_with(&["one", "two"]);
    press(&mut editor, &[Key::Down, Key::Char('\n')]);
    assert_eq!(rows(&editor), vec!["one", "", "two"]);
    assert_eq!(editor.cursor(), (0, 2));
}

#[test]
fn newline_at_row_end_opens_an_empty_row() {
    let mut editor = editor_with(&["one"]);
    press(&mut editor, &[Key::Right, Key::Right, Key::Right, Key::Char('\n')]);
    assert_eq!(rows(&editor), vec!["one", ""]);
    assert_eq!(editor.cursor(), (0, 1));
}

#[test]
fn newline_past_the_last_line_appends_an_empty_row() {
    let mut editor = editor_with(&["hello"]);
    press(&mut editor, &[Key::Right, Key::Right, Key::Down]);
    assert_eq!(editor.cursor(), (2, 1));
    editor.insert_newline();
    assert_eq!(rows(&editor), vec!["hello", ""]);
    assert_eq!(editor.cursor(), (0, 2));
    let mut empty = editor_with(&[]);
    empty.insert_newline();
    assert_eq!(rows(&empty), vec![""]);
    assert_eq!(empty.cursor(), (0, 1));
}

#[test]
fn left_and_right_stay_inside_the_row() {
    let mut editor = editor_with(&["ab", ""]);
    editor.move_cursor(Key::Left);
    assert_eq!(editor.cursor(), (0, 0));
    press(&mut editor, &[Key::Right, Key::Right, Key::Right, Key::Right]);
    assert_eq!(editor.cursor(), (2, 0));
    editor.move_cursor(Key::Down);
    assert_eq!(editor.cursor(), (0, 1));
    editor.move_cursor(Key::Right);
    assert_eq!(editor.cursor(), (0, 1));
}

#[test]
fn up_and_down_clamp_the_column() {
    let mut editor = editor_with(&["a long line", "ab", "another long one"]);
    press(&mut editor, &[Key::Right; 8]);
    assert_eq!(editor.cursor(), (8, 0));
    editor.move_cursor(Key::Up);
    assert_eq!(editor.cursor(), (8, 0));
    editor.move_cursor(Key::Down);
    assert_eq!(editor.cursor(), (2, 1));
    editor.move_cursor(Key::Down);
    assert_eq!(editor.cursor(), (2, 2));
    editor.move_cursor(Key::Down);
    assert_eq!(editor.cursor(), (2, 3));
    editor.move_cursor(Key::Down);
    assert_eq!(editor.cursor(), (2, 3));
    editor.move_cursor(Key::Up);
    assert_eq!(editor.cursor(), (2, 2));
}

#[test]
fn cursor_stays_within_its_row() {
    let mut editor = editor_with(&["first line", "", "x", "\tindented"]);
    let keys = [
        Key::Right, Key::Right, Key::Down, Key::Char('a'), Key::Down, Key::Right, Key::Right, Key::Up,
        Key::Backspace, Key::Backspace, Key::Down, Key::Down, Key::Down, Key::Down, Key::Char('z'),
        Key::Char('\n'), Key::Up, Key::Up, Key::Delete, Key::Left, Key::Char('\t'), Key::Ctrl('h'),
        Key::Up, Key::Up, Key::Up, Key::Up, Key::Up, Key::Backspace, Key::Other, Key::Esc, Key::Ctrl('x'),
    ];
    for key in keys {
        editor.process_keypress(key, 0);
        assert!(cursor_is_in_bounds(&editor));
        editor.scroll_cursor();
        assert!(cursor_is_in_bounds(&editor));
    }
}

#[test]
fn row_cx_to_rx_expands_tabs() {
    let editor = editor_with(&["a\tb", "\t\tx"]);
    assert_eq!(editor.row_cx_to_rx(0, 0), 0);
    assert_eq!(editor.row_cx_to_rx(0, 1), 1);
    assert_eq!(editor.row_cx_to_rx(0, 2), 8);
    assert_eq!(editor.row_cx_to_rx(0, 3), 9);
    assert_eq!(editor.row_cx_to_rx(1, 2), 16);
}

#[test]
fn scroll_moves_the_viewport_just_enough() {
    let lines: Vec<String> = (0..100).map(|i| format!("line {}", i)).collect();
    let mut editor = Editor::new(10, 7, plain());
    editor.read_file("long.txt", Syntax::new(), plain(), Some(lines), 0);
    editor.scroll_cursor();
    assert_eq!(editor.offsets(), (0, 0));
    for _ in 0..4 {
        editor.move_cursor(Key::Down);
    }
    editor.scroll_cursor();
    assert_eq!(editor.offsets(), (0, 0));
    editor.move_cursor(Key::Down);
    editor.scroll_cursor();
    assert_eq!(editor.cursor(), (0, 5));
    assert_eq!(editor.offsets(), (1, 0));
    for _ in 0..10 {
        editor.move_cursor(Key::Down);
    }
    editor.scroll_cursor();
    assert_eq!(editor.offsets(), (11, 0));
    for _ in 0..3 {
        editor.move_cursor(Key::Up);
    }
    editor.scroll_cursor();
    assert_eq!(editor.offsets(), (11, 0));
    for _ in 0..3 {
        editor.move_cursor(Key::Up);
    }
    editor.scroll_cursor();
    assert_eq!(editor.cursor(), (0, 9));
    assert_eq!(editor.offsets(), (9, 0));
}

#[test]
fn scroll_follows_the_render_column() {
    let mut editor = Editor::new(10, 7, plain());
    editor.read_file("wide.txt", Syntax::new(), plain(), Some(vec!["\tab\tcdefghijklmnop".to_string()]), 0);
    editor.move_cursor(Key::Right);
    editor.scroll_cursor();
    assert_eq!(editor.rx(), 8);
    assert_eq!(editor.offsets(), (0, 0));
    press(&mut editor, &[Key::Right, Key::Right]);
    editor.scroll_cursor();
    assert_eq!(editor.rx(), 10);
    assert_eq!(editor.offsets(), (0, 1));
    editor.move_cursor(Key::Right);
    editor.scroll_cursor();
    assert_eq!(editor.rx(), 16);
    assert_eq!(editor.offsets(), (0, 7));
    press(&mut editor, &[Key::Left; 4]);
    editor.scroll_cursor();
    assert_eq!(editor.rx(), 0);
    assert_eq!(editor.offsets(), (0, 0));
}

#[test]
fn viewport_holds_the_cursor_after_scrolling() {
    let lines: Vec<String> = (0..40).map(|i| "x".repeat(i * 3)).collect();
    let mut editor = Editor::new(12, 6, plain());
    editor.read_file("t.txt", Syntax::new(), plain(), Some(lines), 0);
    let mut keys = vec![Key::Down; 30];
    keys.extend(vec![Key::Right; 50]);
    keys.extend(vec![Key::Up; 12]);
    keys.extend(vec![Key::Left; 20]);
    keys.extend(vec![Key::Down; 40]);
    for key in keys {
        editor.move_cursor(key);
        editor.scroll_cursor();
        let (_, cy) = editor.cursor();
        let (rowoff, coloff) = editor.offsets();
        assert!(rowoff <= cy && cy < rowoff + 4);
        assert!(coloff <= editor.rx() && editor.rx() < coloff + 12);
    }
}

#[test]
fn forward_search_finds_the_next_row() {
    let mut editor = editor_with(&["xfoo", "bar", "foobaz"]);
    let hit = editor.find_callback("foo", Key::Char('o'));
    assert_eq!(hit, Some((2, 0)));
    assert_eq!(editor.cursor(), (0, 2));
    assert_eq!(editor.offsets().0, 3);
    let hit = editor.find_callback("foo", Key::Down);
    assert_eq!(hit, Some((0, 1)));
    assert_eq!(editor.cursor(), (1, 0));
    let hit = editor.find_callback("foo", Key::Down);
    assert_eq!(hit, Some((2, 0)));
}

#[test]
fn search_wraps_round_to_the_cursor_row() {
    let mut editor = editor_with(&["only foo here", "bar", "baz"]);
    assert_eq!(editor.find_callback("foo", Key::Char('o')), Some((0, 5)));
    assert_eq!(editor.cursor(), (5, 0));
}

#[test]
fn backward_search_goes_up() {
    let mut editor = editor_with(&["a foo", "bar", "foo b", "baz"]);
    assert_eq!(editor.find_callback("foo", Key::Up), Some((2, 0)));
    assert_eq!(editor.find_callback("foo", Key::Up), Some((0, 2)));
    assert_eq!(editor.find_callback("foo", Key::Up), Some((2, 0)));
    assert_eq!(editor.find_callback("foo", Key::Down), Some((0, 2)));
}

#[test]
fn search_from_past_the_last_line() {
    let mut editor = editor_with(&["foo", "bar"]);
    press(&mut editor, &[Key::Down, Key::Down]);
    assert_eq!(editor.cursor(), (0, 2));
    assert_eq!(editor.find_callback("bar", Key::Char('r')), Some((1, 0)));
    press(&mut editor, &[Key::Down]);
    assert_eq!(editor.cursor(), (0, 2));
    assert_eq!(editor.find_callback("o", Key::Up), Some((0, 1)));
}

#[test]
fn search_without_a_hit_changes_nothing() {
    let mut editor = editor_with(&["xfoo", "bar", "foobaz"]);
    press(&mut editor, &[Key::Down, Key::Right]);
    assert_eq!(editor.find_callback("nothing", Key::Char('g')), None);
    assert_eq!(editor.cursor(), (1, 1));
    assert_eq!(editor.offsets(), (0, 0));
}

#[test]
fn search_ignores_closing_keys_and_empty_queries() {
    let mut editor = editor_with(&["xfoo", "bar", "foobaz"]);
    assert_eq!(editor.find_callback("foo", Key::Char('\n')), None);
    assert_eq!(editor.find_callback("foo", Key::Esc), None);
    assert_eq!(editor.find_callback("", Key::Char('x')), None);
    assert_eq!(editor.cursor(), (0, 0));
    assert_eq!(editor.offsets(), (0, 0));
}

#[test]
fn search_over_an_empty_buffer_changes_nothing() {
    let mut editor = editor();
    for key in [Key::Char('f'), Key::Up, Key::Down, Key::Esc, Key::Char('\n')] {
        assert_eq!(editor.find_callback("foo", key), None);
        assert_eq!(editor.cursor(), (0, 0));
        assert_eq!(editor.offsets(), (0, 0));
        assert_eq!(editor.row_count(), 0);
    }
}

#[test]
fn abandoned_search_goes_back() {
    let mut editor = editor_with(&["xfoo", "bar", "foobaz"]);
    press(&mut editor, &[Key::Down, Key::Right]);
    let saved = editor.find_begin();
    editor.find_callback("foo", Key::Char('o'));
    assert_eq!(editor.cursor(), (0, 2));
    editor.find_end(saved, false);
    assert_eq!(editor.cursor(), (1, 1));
    assert_eq!(editor.offsets(), (0, 0));
}

#[test]
fn accepted_search_stays() {
    let mut editor = editor_with(&["xfoo", "bar", "foobaz"]);
    let saved = editor.find_begin();
    editor.find_callback("baz", Key::Char('z'));
    editor.find_end(saved, true);
    assert_eq!(editor.cursor(), (3, 2));
    assert_eq!(editor.offsets(), (3, 0));
}

#[test]
fn find_end_ignores_a_position_outside_the_buffer() {
    let mut editor = editor_with(&["ab"]);
    editor.find_end(Snapshot { cx: 9, cy: 0, coloff: 4, rowoff: 4 }, false);
    assert_eq!(editor.cursor(), (0, 0));
    assert_eq!(editor.offsets(), (0, 0));
    editor.find_end(Snapshot { cx: 0, cy: 2, coloff: 4, rowoff: 4 }, false);
    assert_eq!(editor.cursor(), (0, 0));
    editor.find_end(Snapshot { cx: 2, cy: 0, coloff: 1, rowoff: 0 }, false);
    assert_eq!(editor.cursor(), (2, 0));
    assert_eq!(editor.offsets(), (0, 1));
}

#[test]
fn prompt_collects_input() {
    let mut editor = editor();
    let mut input = Vec::new();
    editor.prompt_message("Save as: ", &input, 5);
    assert_eq!(editor.status_message(), Some(("Save as: ".to_string(), 5)));
    assert_eq!(editor.prompt(&mut input, Key::Char('a'), false, 5), PromptStep::Continue);
    assert_eq!(editor.prompt(&mut input, Key::Char('b'), false, 5), PromptStep::Continue);
    assert_eq!(editor.prompt(&mut input, Key::Char('c'), false, 5), PromptStep::Continue);
    assert_eq!(editor.prompt(&mut input, Key::Backspace, false, 5), PromptStep::Continue);
    assert_eq!(editor.prompt(&mut input, Key::Up, false, 5), PromptStep::Continue);
    assert_eq!(input, vec!['a', 'b']);
    editor.prompt_message("Save as: ", &input, 6);
    assert_eq!(editor.status_message(), Some(("Save as: ab".to_string(), 6)));
    assert_eq!(editor.prompt(&mut input, Key::Char('\n'), false, 7), PromptStep::Accept);
    assert_eq!(input, vec!['a', 'b']);
    assert_eq!(editor.status_message(), Some(("".to_string(), 7)));
}

#[test]
fn prompt_does_not_accept_an_empty_input() {
    let mut editor = editor();
    let mut input = Vec::new();
    editor.prompt_message("Search: ", &input, 1);
    assert_eq!(editor.prompt(&mut input, Key::Char('\n'), false, 2), PromptStep::Continue);
    assert_eq!(editor.prompt(&mut input, Key::Delete, false, 2), PromptStep::Continue);
    assert!(input.is_empty());
    assert_eq!(editor.status_message(), Some(("Search: ".to_string(), 1)));
    assert_eq!(editor.prompt(&mut input, Key::Esc, false, 3), PromptStep::Cancel);
    assert_eq!(editor.status_message(), Some(("".to_string(), 3)));
}

#[test]
fn search_prompt_searches_as_the_query_grows() {
    let mut editor = editor_with(&["alpha", "beta", "gamma", "beth"]);
    let mut input = Vec::new();
    assert_eq!(editor.prompt(&mut input, Key::Char('b'), true, 0), PromptStep::Continue);
    assert_eq!(editor.cursor(), (0, 1));
    assert_eq!(editor.prompt(&mut input, Key::Char('e'), true, 0), PromptStep::Continue);
    assert_eq!(editor.cursor(), (0, 3));
    assert_eq!(editor.prompt(&mut input, Key::Char('t'), true, 0), PromptStep::Continue);
    assert_eq!(editor.cursor(), (0, 1));
    assert_eq!(editor.prompt(&mut input, Key::Char('h'), true, 0), PromptStep::Continue);
    assert_eq!(editor.cursor(), (0, 3));
    assert_eq!(editor.prompt(&mut input, Key::Backspace, true, 0), PromptStep::Continue);
    assert_eq!(editor.cursor(), (0, 1));
    assert_eq!(editor.prompt(&mut input, Key::Up, true, 0), PromptStep::Continue);
    assert_eq!(editor.cursor(), (0, 3));
    assert_eq!(editor.prompt(&mut input, Key::Char('\n'), true, 0), PromptStep::Accept);
    assert_eq!(editor.cursor(), (0, 3));
    assert_eq!(input, vec!['b', 'e', 't']);
}

#[test]
fn other_prompts_leave_the_cursor_alone() {
    let mut editor = editor_with(&["alpha", "beta"]);
    let mut input = Vec::new();
    editor.prompt(&mut input, Key::Char('b'), false, 0);
    assert_eq!(editor.cursor(), (0, 0));
}

#[test]
fn quitting_a_clean_buffer_is_immediate() {
    let mut editor = editor_with(&["abc"]);
    assert_eq!(editor.process_keypress(Key::Ctrl('q'), 0), Step::Quit);
    assert_eq!(editor.status_message(), None);
}

#[test]
fn quitting_with_unsaved_changes_takes_two_presses() {
    let mut editor = editor();
    type_text(&mut editor, "x");
    assert_eq!(editor.quit_times(), 2);
    assert_eq!(editor.process_keypress(Key::Ctrl('q'), 9), Step::Continue);
    assert_eq!(
        editor.status_message(),
        Some(("WARNING!!! file has unsaved changes. Press Ctrl-Q 1 more times to quit".to_string(), 9))
    );
    assert_eq!(editor.quit_times(), 1);
    assert!(editor.is_dirty());
    assert_eq!(editor.process_keypress(Key::Ctrl('q'), 10), Step::Quit);
    // the press that leaves changes nothing
    assert_eq!(
        editor.status_message(),
        Some(("WARNING!!! file has unsaved changes. Press Ctrl-Q 1 more times to quit".to_string(), 9))
    );
    assert_eq!(rows(&editor), vec!["x"]);
}

#[test]
fn another_key_resets_the_quit_counter() {
    let mut editor = editor();
    type_text(&mut editor, "x");
    assert_eq!(editor.process_keypress(Key::Ctrl('q'), 0), Step::Continue);
    assert_eq!(editor.quit_times(), 1);
    assert_eq!(editor.process_keypress(Key::Left, 0), Step::Continue);
    assert_eq!(editor.quit_times(), 2);
    assert_eq!(editor.process_keypress(Key::Ctrl('q'), 0), Step::Continue);
    assert_eq!(editor.quit_times(), 1);
    assert_eq!(editor.process_keypress(Key::Other, 0), Step::Continue);
    assert_eq!(editor.quit_times(), 2);
    assert_eq!(editor.process_keypress(Key::Ctrl('q'), 0), Step::Continue);
    assert_eq!(editor.process_keypress(Key::Ctrl('q'), 0), Step::Quit);
}

#[test]
fn quitting_after_a_save_is_immediate() {
    let mut editor = editor_with(&["abc"]);
    type_text(&mut editor, "x");
    assert_eq!(editor.process_keypress(Key::Ctrl('q'), 0), Step::Continue);
    assert_eq!(editor.process_keypress(Key::Ctrl('s'), 0), Step::Save);
    editor.save(Some(5), 1);
    assert_eq!(editor.process_keypress(Key::Ctrl('q'), 2), Step::Quit);
}

#[test]
fn save_and_find_keys_are_handed_to_the_loop() {
    let mut editor = editor_with(&["abc"]);
    assert_eq!(editor.process_keypress(Key::Ctrl('s'), 0), Step::Save);
    assert_eq!(editor.process_keypress(Key::Ctrl('f'), 0), Step::Find);
    assert_eq!(editor.process_keypress(Key::Ctrl('x'), 0), Step::Continue);
    assert_eq!(editor.process_keypress(Key::Esc, 0), Step::Continue);
    assert_eq!(rows(&editor), vec!["abc"]);
    assert_eq!(editor.cursor(), (0, 0));
    assert!(!editor.is_dirty());
}

#[test]
fn successful_save_clears_the_dirty_flag() {
    let mut editor = editor_with(&["abc"]);
    type_text(&mut editor, "x");
    assert!(editor.is_dirty());
    assert!(!editor.needs_filename(false));
    assert!(editor.needs_filename(true));
    let text = editor.rows_to_string();
    assert_eq!(text, "xabc\n");
    editor.save(Some(text.len()), 21);
    assert!(!editor.is_dirty());
    assert_eq!(editor.status_message(), Some(("5 bytes written in \"test.txt\"".to_string(), 21)));
}

#[test]
fn failed_save_keeps_the_dirty_flag() {
    let mut editor = editor_with(&["abc"]);
    type_text(&mut editor, "x");
    editor.save(None, 4);
    assert!(editor.is_dirty());
    assert_eq!(editor.status_message(), Some(("Can't save, I/O error".to_string(), 4)));
}

#[test]
fn save_without_a_name_is_not_done() {
    let mut editor = editor();
    type_text(&mut editor, "x");
    assert!(editor.needs_filename(false));
    editor.set_filename(None);
    editor.save(Some(2), 8);
    assert!(editor.is_dirty());
    assert_eq!(editor.status_message(), Some(("Not saved :(".to_string(), 8)));
    editor.set_filename(Some("out.txt".to_string()));
    assert_eq!(editor.filename(), Some("out.txt".to_string()));
    assert!(!editor.needs_filename(false));
    editor.save(Some(2), 9);
    assert!(!editor.is_dirty());
    assert_eq!(editor.status_message(), Some(("2 bytes written in \"out.txt\"".to_string(), 9)));
}

#[test]
fn mode_handlers_change_nothing() {
    let mut editor = editor_with(&["abc"]);
    for mut mode in [Mode::Normal, Mode::Insert, Mode::Visual] {
        let before = mode;
        for key in [Key::Char('i'), Key::Esc, Key::Ctrl('q'), Key::Char('\n'), Key::Backspace, Key::Up] {
            mode.process_keypress(&mut editor, key);
            assert_eq!(mode, before);
            assert_eq!(rows(&editor), vec!["abc"]);
            assert_eq!(editor.cursor(), (0, 0));
            assert!(!editor.is_dirty());
        }
    }
}

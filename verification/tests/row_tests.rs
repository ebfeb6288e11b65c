use kilo::highlight::Highlight;
use kilo::input::Mode;
use kilo::row::{expand_tabs, Row};
use kilo::syntax::{Syntax, SyntaxRe};
use std::rc::Rc;
use termion::color;

fn profile() -> Rc<SyntaxRe> {
    let mut syntax = Syntax::new();
    syntax.keywords = vec!["fn".to_string(), "let".to_string()];
    syntax.numbers = "\\b([0-9]+)\\b".to_string();
    Rc::new(SyntaxRe::new(&syntax).unwrap())
}

fn plain() -> Rc<SyntaxRe> {
    Rc::new(SyntaxRe::new(&Syntax::new()).unwrap())
}

fn row(text: &str) -> Row {
    Row::new(text, plain())
}

fn render(text: &str) -> String {
    expand_tabs(&text.chars().collect()).into_iter().collect()
}

#[test]
fn tab_expands_to_the_next_tab_stop() {
    let row = row("a\tb");
    assert_eq!(row.render(), "a       b");
    assert_eq!(row.render_len(), 9);
    assert_eq!(row.chars(), "a\tb");
    assert_eq!(row.len(), 3);
}

#[test]
fn tab_expansion_by_column() {
    assert_eq!(render(""), "");
    assert_eq!(render("\t"), "        ");
    assert_eq!(render("\t\t"), "                ");
    assert_eq!(render("1234567\t"), "1234567 ");
    assert_eq!(render("12345678\t"), "12345678        ");
    assert_eq!(render("ab\tcd\te"), "ab      cd      e");
    assert_eq!(render("no tabs at all"), "no tabs at all");
    assert_eq!(render("é\tx"), "é       x");
}

#[test]
fn render_has_no_tabs_and_is_no_shorter() {
    for text in ["", "a", "\t", "a\tb", "\t\t\t", "1234567\t", "x\ty\tz", "    indented\t!"] {
        let row = row(text);
        assert!(!row.render().contains('\t'));
        assert!(row.render_len() >= row.len());
        if !text.contains('\t') {
            assert_eq!(row.render(), text);
        }
    }
    // a tab in the last column before a tab stop takes one column only
    assert_eq!(row("1234567\t").render_len(), row("1234567\t").len());
    assert!(row("123456\t").render_len() > row("123456\t").len());
}

#[test]
fn highlight_is_as_long_as_render() {
    let mut row = Row::new("let\tx = 1;", profile());
    assert_eq!(row.highlight().len(), row.render_len());
    row.insert_char(0, '\t');
    assert_eq!(row.highlight().len(), row.render_len());
    row.append_string("\tfn f(a: u8)");
    assert_eq!(row.highlight().len(), row.render_len());
    row.delete_char(0);
    assert_eq!(row.highlight().len(), row.render_len());
    let tail = row.split_off(4);
    assert_eq!(row.highlight().len(), row.render_len());
    row.append_chars(&tail);
    assert_eq!(row.highlight().len(), row.render_len());
    row.update();
    assert_eq!(row.highlight().len(), row.render_len());
    row.update_syntax();
    assert_eq!(row.highlight().len(), row.render_len());
    row.add_syntax(plain());
    assert_eq!(row.highlight().len(), row.render_len());
}

#[test]
fn highlight_follows_every_change() {
    let mut row = Row::new("le x", profile());
    assert_eq!(row.highlight(), &vec![Highlight::Normal; 4]);
    row.insert_char(2, 't');
    assert_eq!(row.chars(), "let x");
    assert_eq!(
        row.highlight(),
        &vec![Highlight::Keyword, Highlight::Keyword, Highlight::Keyword, Highlight::Normal, Highlight::Normal]
    );
    row.append_string(" 7");
    assert_eq!(row.highlight()[6], Highlight::Number);
    row.delete_char(0);
    assert_eq!(row.chars(), "et x 7");
    assert_eq!(row.highlight()[0], Highlight::Normal);
    assert_eq!(row.highlight()[5], Highlight::Number);
    row.add_syntax(plain());
    assert_eq!(row.highlight(), &vec![Highlight::Normal; 6]);
}

#[test]
fn insert_abc_then_delete_at_two() {
    let mut row = row("");
    row.insert_char(0, 'a');
    row.insert_char(1, 'b');
    row.insert_char(2, 'c');
    assert_eq!(row.chars(), "abc");
    assert_eq!(row.delete_char(2), 1);
    assert_eq!(row.chars(), "ab");
}

#[test]
fn append_abc_then_delete_at_two() {
    let mut row = row("");
    row.append_string("abc");
    assert_eq!(row.chars(), "abc");
    assert_eq!(row.delete_char(2), 1);
    assert_eq!(row.chars(), "ab");
}

#[test]
fn insert_clamps_the_position() {
    let mut row = row("ab");
    row.insert_char(100, 'c');
    assert_eq!(row.chars(), "abc");
    row.insert_char(0, 'x');
    assert_eq!(row.chars(), "xabc");
    row.insert_char(4, 'y');
    assert_eq!(row.chars(), "xabcy");
    row.insert_char(usize::MAX, 'z');
    assert_eq!(row.chars(), "xabcyz");
}

#[test]
fn insert_then_delete_restores_the_row() {
    for text in ["", "abc", "a b", "\t\tx", "   "] {
        for at in 0..=text.len() + 1 {
            let mut row = row(text);
            row.insert_char(at, 'q');
            let landed = at.min(text.len());
            assert_eq!(row.delete_char(landed), 1);
            assert_eq!(row.chars(), text);
        }
    }
}

#[test]
fn delete_past_the_end_does_nothing() {
    let mut row = row("abc");
    assert_eq!(row.delete_char(3), 0);
    assert_eq!(row.delete_char(100), 0);
    assert_eq!(row.chars(), "abc");
    let mut empty = Row::new("", plain());
    assert_eq!(empty.delete_char(0), 0);
    assert_eq!(empty.chars(), "");
}

#[test]
fn delete_removes_a_whole_indentation_step() {
    let mut row = row("    x");
    assert_eq!(row.delete_char(3), 4);
    assert_eq!(row.chars(), "x");
    let mut row = row_of("ab    cd");
    assert_eq!(row.delete_char(5), 4);
    assert_eq!(row.chars(), "abcd");
    let mut row = row_of("        ");
    assert_eq!(row.delete_char(7), 4);
    assert_eq!(row.chars(), "    ");
    let mut row = row_of("      x");
    assert_eq!(row.delete_char(4), 4);
    assert_eq!(row.chars(), "  x");
}

fn row_of(text: &str) -> Row {
    Row::new(text, plain())
}

#[test]
fn delete_removes_one_character_otherwise() {
    let mut row = row_of("   x");
    assert_eq!(row.delete_char(2), 1);
    assert_eq!(row.chars(), "  x");
    let mut row = row_of("    x");
    assert_eq!(row.delete_char(4), 1);
    assert_eq!(row.chars(), "    ");
    let mut row = row_of("a   b");
    assert_eq!(row.delete_char(3), 1);
    assert_eq!(row.chars(), "a  b");
    let mut row = row_of("  \t b");
    assert_eq!(row.delete_char(3), 1);
    assert_eq!(row.chars(), "  \tb");
    let mut row = row_of("    ");
    assert_eq!(row.delete_char(2), 1);
    assert_eq!(row.chars(), "   ");
}

#[test]
fn split_off_cuts_the_row() {
    let mut row = row_of("hello world");
    let tail = row.split_off(5);
    assert_eq!(row.chars(), "hello");
    assert_eq!(tail.iter().collect::<String>(), " world");
    let tail = row.split_off(5);
    assert_eq!(row.chars(), "hello");
    assert!(tail.is_empty());
    let tail = row.split_off(0);
    assert_eq!(row.chars(), "");
    assert_eq!(tail.iter().collect::<String>(), "hello");
}

#[test]
fn cx_to_rx_counts_rendered_columns() {
    let row = row_of("a\tb\tc");
    assert_eq!(row.cx_to_rx(0), 0);
    assert_eq!(row.cx_to_rx(1), 1);
    assert_eq!(row.cx_to_rx(2), 8);
    assert_eq!(row.cx_to_rx(3), 9);
    assert_eq!(row.cx_to_rx(4), 16);
    assert_eq!(row.cx_to_rx(5), 17);
    assert_eq!(row.cx_to_rx(6), 17);
    assert_eq!(row.cx_to_rx(usize::MAX), 17);
    assert_eq!(row_of("").cx_to_rx(3), 0);
}

#[test]
fn draw_colours_each_run() {
    let row = Row::new("let x = 42;", profile());
    let mut buffer: Vec<char> = "> ".chars().collect();
    row.draw(&mut buffer, 0, 11);
    let text: String = buffer.into_iter().collect();
    assert_eq!(
        text,
        "> \x1b[38;5;5m\x1b[49mlet\x1b[39m\x1b[49m x = \x1b[38;5;1m\x1b[49m42\x1b[39m\x1b[49m;\x1b[39m\x1b[49m"
    );
}

#[test]
fn draw_clips_to_the_window() {
    let row = Row::new("let x = 42;", profile());
    let mut buffer = Vec::new();
    row.draw(&mut buffer, 2, 5);
    assert_eq!(buffer.into_iter().collect::<String>(), "\x1b[38;5;5m\x1b[49mt\x1b[39m\x1b[49m x =\x1b[39m\x1b[49m");
    let mut buffer = Vec::new();
    row.draw(&mut buffer, 9, 100);
    assert_eq!(buffer.into_iter().collect::<String>(), "\x1b[38;5;1m\x1b[49m2\x1b[39m\x1b[49m;\x1b[39m\x1b[49m");
    let mut buffer = Vec::new();
    row.draw(&mut buffer, 11, 5);
    assert_eq!(buffer.into_iter().collect::<String>(), "\x1b[39m\x1b[49m");
    let mut buffer = Vec::new();
    row.draw(&mut buffer, 50, usize::MAX);
    assert_eq!(buffer.into_iter().collect::<String>(), "\x1b[39m\x1b[49m");
    let mut buffer = Vec::new();
    row.draw(&mut buffer, 4, 0);
    assert_eq!(buffer.into_iter().collect::<String>(), "\x1b[39m\x1b[49m");
}

#[test]
fn colours_are_those_of_the_terminal_library() {
    assert_eq!(Highlight::Normal.to_color(), format!("{}", color::Fg(color::Reset)));
    assert_eq!(Highlight::Number.to_color(), format!("{}", color::Fg(color::Red)));
    assert_eq!(Highlight::Type.to_color(), format!("{}", color::Fg(color::Yellow)));
    assert_eq!(Highlight::Keyword.to_color(), format!("{}", color::Fg(color::Magenta)));
    assert_eq!(Highlight::Match.to_color(), format!("{}", color::Fg(color::Black)));
    assert_eq!(Highlight::Normal.to_background(), format!("{}", color::Bg(color::Reset)));
    assert_eq!(Highlight::Number.to_background(), format!("{}", color::Bg(color::Reset)));
    assert_eq!(Highlight::Type.to_background(), format!("{}", color::Bg(color::Reset)));
    assert_eq!(Highlight::Keyword.to_background(), format!("{}", color::Bg(color::Reset)));
    assert_eq!(Highlight::Match.to_background(), format!("{}", color::Bg(color::Yellow)));
}

#[test]
fn colours_have_their_escape_sequences() {
    assert_eq!(Highlight::Normal.to_color(), "\x1b[39m");
    assert_eq!(Highlight::Number.to_color(), "\x1b[38;5;1m");
    assert_eq!(Highlight::Type.to_color(), "\x1b[38;5;3m");
    assert_eq!(Highlight::Keyword.to_color(), "\x1b[38;5;5m");
    assert_eq!(Highlight::Match.to_color(), "\x1b[38;5;0m");
    assert_eq!(Highlight::Normal.to_background(), "\x1b[49m");
    assert_eq!(Highlight::Match.to_background(), "\x1b[48;5;3m");
}

#[test]
fn mode_labels_are_coloured_names() {
    assert_eq!(Mode::Normal.label(), format!("{}Normal {}", color::Fg(color::Yellow), color::Fg(color::Reset)));
    assert_eq!(Mode::Insert.label(), format!("{}Insert {}", color::Fg(color::Blue), color::Fg(color::Reset)));
    assert_eq!(Mode::Visual.label(), format!("{}Visual {}", color::Fg(color::Red), color::Fg(color::Reset)));
    assert_eq!(Mode::Insert.label(), "\x1b[38;5;4mInsert \x1b[39m");
}

#[test]
fn row_hands_out_its_own_profile() {
    let shared = profile();
    let row = Row::new("x", Rc::clone(&shared));
    assert!(Rc::ptr_eq(&row.syntax(), &shared));
    assert_eq!(row.syntax().patterns().2, Some("\\b(fn|let)\\b".to_string()));
    assert_eq!(Rc::strong_count(&shared), 2);
}

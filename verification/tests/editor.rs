use calc_client::editor::App;
use calc_client::keys::{Key, Step};

fn app_with(text: &str, cursor: usize) -> App {
    let mut app = App::new();
    app.input = text.to_string();
    app.cursor_pos = cursor;
    app
}

#[test]
fn new_app_is_empty() {
    let app = App::new();
    assert_eq!(app.input, "");
    assert_eq!(app.cursor_pos, 0);
    assert_eq!(app.tick, 0);
    assert!(!app.show_help);
    assert_eq!(app.history.len(), 0);
}

#[test]
fn insert_char_ascii_moves_cursor_by_one() {
    let mut app = App::new();
    app.insert_char('2');
    app.insert_char('+');
    app.insert_char('2');
    assert_eq!(app.input, "2+2");
    assert_eq!(app.cursor_pos, 3);
}

#[test]
fn insert_char_in_the_middle() {
    let mut app = app_with("24", 1);
    app.insert_char('+');
    assert_eq!(app.input, "2+4");
    assert_eq!(app.cursor_pos, 2);
}

#[test]
fn insert_char_multibyte_moves_cursor_by_its_width() {
    let mut app = App::new();
    app.insert_char('÷');
    assert_eq!(app.cursor_pos, 2);
    app.insert_char('€');
    assert_eq!(app.cursor_pos, 5);
    app.insert_char('😀');
    assert_eq!(app.cursor_pos, 9);
    assert_eq!(app.input, "÷€😀");
}

#[test]
fn delete_char_before_at_start_does_nothing() {
    let mut app = app_with("12", 0);
    app.delete_char_before();
    assert_eq!(app.input, "12");
    assert_eq!(app.cursor_pos, 0);
}

#[test]
fn delete_char_before_removes_whole_multibyte_char() {
    let mut app = app_with("3×4", 3);
    app.delete_char_before();
    assert_eq!(app.input, "34");
    assert_eq!(app.cursor_pos, 1);
}

#[test]
fn delete_char_before_at_end() {
    let mut app = app_with("2^8", 3);
    app.delete_char_before();
    assert_eq!(app.input, "2^");
    assert_eq!(app.cursor_pos, 2);
}

#[test]
fn delete_char_after_at_end_does_nothing() {
    let mut app = app_with("7", 1);
    app.delete_char_after();
    assert_eq!(app.input, "7");
    assert_eq!(app.cursor_pos, 1);
}

#[test]
fn delete_char_after_beyond_end_does_nothing() {
    let mut app = app_with("7", 5);
    app.delete_char_after();
    assert_eq!(app.input, "7");
    assert_eq!(app.cursor_pos, 5);
}

#[test]
fn delete_char_after_removes_whole_multibyte_char() {
    let mut app = app_with("1÷2", 1);
    app.delete_char_after();
    assert_eq!(app.input, "12");
    assert_eq!(app.cursor_pos, 1);
}

#[test]
fn move_left_and_right_step_over_characters() {
    let mut app = app_with("a€b", 5);
    app.move_left();
    assert_eq!(app.cursor_pos, 4);
    app.move_left();
    assert_eq!(app.cursor_pos, 1);
    app.move_left();
    assert_eq!(app.cursor_pos, 0);
    app.move_left();
    assert_eq!(app.cursor_pos, 0);
    app.move_right();
    assert_eq!(app.cursor_pos, 1);
    app.move_right();
    assert_eq!(app.cursor_pos, 4);
    app.move_right();
    assert_eq!(app.cursor_pos, 5);
    app.move_right();
    assert_eq!(app.cursor_pos, 5);
    assert_eq!(app.input, "a€b");
}

#[test]
fn move_left_from_inside_a_character_reaches_its_start() {
    let mut app = app_with("a€b", 3);
    app.move_left();
    assert_eq!(app.cursor_pos, 1);
}

#[test]
fn move_left_from_beyond_the_end_reaches_the_end() {
    let mut app = app_with("ab", 7);
    app.move_left();
    assert_eq!(app.cursor_pos, 2);
}

#[test]
fn move_right_from_inside_a_character_reaches_the_next() {
    let mut app = app_with("a€b", 2);
    app.move_right();
    assert_eq!(app.cursor_pos, 4);
}

#[test]
fn clear_input_empties_the_prompt() {
    let mut app = app_with("1+1", 2);
    app.clear_input();
    assert_eq!(app.input, "");
    assert_eq!(app.cursor_pos, 0);
}

#[test]
fn backspace_undoes_insert() {
    for (text, cursor) in [("", 0), ("12", 1), ("á€", 2), ("x😀y", 5)] {
        for c in ['7', 'ñ', '€', '😀'] {
            let mut app = app_with(text, cursor);
            app.insert_char(c);
            app.delete_char_before();
            assert_eq!(app.input, text);
            assert_eq!(app.cursor_pos, cursor);
        }
    }
}

#[test]
fn delete_after_left_undoes_insert() {
    let mut app = app_with("1€2", 1);
    app.insert_char('√');
    app.move_left();
    app.delete_char_after();
    assert_eq!(app.input, "1€2");
    assert_eq!(app.cursor_pos, 1);
}

#[test]
fn right_undoes_left_and_left_undoes_right() {
    let text = "ñ+€";
    for cursor in [2usize, 3, 6] {
        let mut app = app_with(text, cursor);
        app.move_left();
        app.move_right();
        assert_eq!(app.cursor_pos, cursor);
    }
    for cursor in [0usize, 2, 3] {
        let mut app = app_with(text, cursor);
        app.move_right();
        app.move_left();
        assert_eq!(app.cursor_pos, cursor);
    }
}

#[test]
fn typing_inserts_text_at_cursor() {
    let mut app = app_with("(1)", 1);
    for c in "2+3×".chars() {
        app.insert_char(c);
    }
    assert_eq!(app.input, "(2+3×1)");
    assert_eq!(app.cursor_pos, 1 + "2+3×".len());
}

#[test]
fn pending_expression_trims_white_space() {
    let app = app_with("  2 + 2 \t", 0);
    assert_eq!(app.pending_expression(), Some("2 + 2".to_string()));
    let blank = app_with(" \u{3000}\n", 0);
    assert_eq!(blank.pending_expression(), None);
}

#[test]
fn submit_records_trimmed_expression_and_clears_prompt() {
    let mut app = app_with("  1+2 ", 4);
    app.submit(Ok("3".to_string()));
    assert_eq!(app.input, "");
    assert_eq!(app.cursor_pos, 0);
    assert_eq!(app.history.len(), 1);
    let rows = app.history.rows();
    assert_eq!(rows[0].expr, "1+2");
    assert_eq!(rows[0].result, Ok("3".to_string()));
}

#[test]
fn submit_of_blank_input_changes_nothing() {
    let mut app = app_with("   ", 2);
    app.submit(Err("x".to_string()));
    assert_eq!(app.input, "   ");
    assert_eq!(app.cursor_pos, 2);
    assert_eq!(app.history.len(), 0);
}

#[test]
fn on_tick_wraps_around() {
    let mut app = App::new();
    app.on_tick();
    assert_eq!(app.tick, 1);
    app.tick = u64::MAX;
    app.on_tick();
    assert_eq!(app.tick, 0);
}

#[test]
fn ctrl_c_quits() {
    let mut app = app_with("1", 1);
    assert_eq!(app.handle_key(Key::Char('c'), true), Step::Quit);
    assert_eq!(app.input, "1");
}

#[test]
fn plain_c_is_typed() {
    let mut app = App::new();
    assert_eq!(app.handle_key(Key::Char('c'), false), Step::Continue);
    assert_eq!(app.input, "c");
}

#[test]
fn enter_asks_for_submission() {
    let mut app = app_with("1+1", 3);
    assert_eq!(app.handle_key(Key::Enter, false), Step::Submit);
    assert_eq!(app.input, "1+1");
}

#[test]
fn question_mark_toggles_help() {
    let mut app = app_with("1", 1);
    assert_eq!(app.handle_key(Key::Char('?'), false), Step::Continue);
    assert!(app.show_help);
    assert_eq!(app.input, "1");
    app.handle_key(Key::Char('?'), false);
    assert!(!app.show_help);
}

#[test]
fn esc_closes_help_then_clears() {
    let mut app = app_with("12", 2);
    app.show_help = true;
    app.handle_key(Key::Esc, false);
    assert!(!app.show_help);
    assert_eq!(app.input, "12");
    app.handle_key(Key::Esc, false);
    assert_eq!(app.input, "");
    assert_eq!(app.cursor_pos, 0);
}

#[test]
fn editing_keys() {
    let mut app = App::new();
    for c in "1€3".chars() {
        app.handle_key(Key::Char(c), false);
    }
    app.handle_key(Key::Home, false);
    assert_eq!(app.cursor_pos, 0);
    app.handle_key(Key::Delete, false);
    assert_eq!(app.input, "€3");
    app.handle_key(Key::End, false);
    assert_eq!(app.cursor_pos, 4);
    app.handle_key(Key::Left, false);
    assert_eq!(app.cursor_pos, 3);
    app.handle_key(Key::Backspace, false);
    assert_eq!(app.input, "3");
    assert_eq!(app.cursor_pos, 0);
    app.handle_key(Key::Right, false);
    assert_eq!(app.cursor_pos, 1);
    assert_eq!(app.handle_key(Key::Other, false), Step::Continue);
    assert_eq!(app.input, "3");
}

use calc_client::editor::App;
use calc_client::history::{entry_label, History};
use calc_client::numbers::{format_integer, trim_fixed_point};
use calc_client::reply::{failure, read_reply, rejection, Reading, Reply, Stage};
use calc_client::screen::{calculator_ascii, help_popup, logo_glyph_style, Area, GlyphStyle};

#[test]
fn entry_labels_are_right_aligned() {
    assert_eq!(entry_label(1), "  1│ ");
    assert_eq!(entry_label(42), " 42│ ");
    assert_eq!(entry_label(999), "999│ ");
    assert_eq!(entry_label(12345), "12345│ ");
}

#[test]
fn history_rows_and_count() {
    let mut h = History::new();
    assert_eq!(h.count_label(), "  0 op. ");
    h.record("2+2".to_string(), Ok("4".to_string()));
    h.record("0/0".to_string(), Err("Error".to_string()));
    let rows = h.rows();
    assert_eq!(rows.len(), 2);
    assert_eq!(rows[0].label, "  1│ ");
    assert_eq!(rows[0].expr, "2+2");
    assert_eq!(rows[0].result, Ok("4".to_string()));
    assert_eq!(rows[1].label, "  2│ ");
    assert_eq!(rows[1].result, Err("Error".to_string()));
    assert_eq!(h.count_label(), "  2 op. ");
}

#[test]
fn integers_print_like_display() {
    assert_eq!(format_integer(0), "0");
    assert_eq!(format_integer(55), "55");
    assert_eq!(format_integer(-25), "-25");
    assert_eq!(format_integer(2432), "2432");
    assert_eq!(format_integer(i64::MAX), i64::MAX.to_string());
    assert_eq!(format_integer(i64::MIN), i64::MIN.to_string());
}

#[test]
fn fixed_point_is_tidied() {
    assert_eq!(trim_fixed_point("75.69662921"), "75.69662921");
    assert_eq!(trim_fixed_point("54.77500000"), "54.775");
    assert_eq!(trim_fixed_point("0.30000000"), "0.3");
    assert_eq!(trim_fixed_point("3.00000000"), "3");
    assert_eq!(trim_fixed_point("-0.50000000"), "-0.5");
}

#[test]
fn text_replies_are_trimmed() {
    match read_reply(Reply::Text(" 75.69662921438315\n".to_string())) {
        Reading::Candidate { text, binary } => {
            assert_eq!(text, "75.69662921438315");
            assert!(!binary);
        }
        Reading::Failure(_) => panic!("expected a candidate"),
    }
}

#[test]
fn binary_replies_are_decoded_and_trimmed() {
    match read_reply(Reply::Binary(b" 42 ".to_vec())) {
        Reading::Candidate { text, binary } => {
            assert_eq!(text, "42");
            assert!(binary);
        }
        Reading::Failure(_) => panic!("expected a candidate"),
    }
    match read_reply(Reply::Binary(vec![0x31, 0xff, 0x32])) {
        Reading::Candidate { text, .. } => assert_eq!(text, "1\u{fffd}2"),
        Reading::Failure(_) => panic!("expected a candidate"),
    }
}

#[test]
fn close_and_other_replies_fail() {
    match read_reply(Reply::Close) {
        Reading::Failure(m) => assert_eq!(m, "El servidor cerró la conexión"),
        _ => panic!("expected a failure"),
    }
    match read_reply(Reply::Other) {
        Reading::Failure(m) => assert_eq!(m, "Error inesperado"),
        _ => panic!("expected a failure"),
    }
}

#[test]
fn rejection_messages() {
    assert_eq!(rejection("Error", false), "Error");
    assert_eq!(rejection("abc", true), "Respuesta binaria abc");
}

#[test]
fn failure_messages() {
    assert_eq!(failure(Stage::Send, "broken pipe"), "Error al enviar broken pipe");
    assert_eq!(failure(Stage::Receive, "reset"), "Error al recibir reset");
}

#[test]
fn help_popup_is_centred_and_clipped() {
    let big = Area { x: 0, y: 0, width: 100, height: 40 };
    assert_eq!(help_popup(big), Area { x: 22, y: 10, width: 56, height: 20 });
    let small = Area { x: 3, y: 4, width: 30, height: 10 };
    assert_eq!(help_popup(small), Area { x: 3, y: 4, width: 30, height: 10 });
    let odd = Area { x: 1, y: 1, width: 57, height: 21 };
    assert_eq!(help_popup(odd), Area { x: 1, y: 1, width: 56, height: 20 });
}

#[test]
fn prompt_parts_split_around_cursor() {
    let mut app = App::new();
    app.input = "1×2".to_string();
    app.cursor_pos = 1;
    assert_eq!(
        app.prompt_parts(),
        ("1".to_string(), "×".to_string(), "2".to_string())
    );
    app.cursor_pos = 4;
    assert_eq!(
        app.prompt_parts(),
        ("1×2".to_string(), " ".to_string(), "".to_string())
    );
    app.cursor_pos = 0;
    assert_eq!(
        app.prompt_parts(),
        ("".to_string(), "1".to_string(), "×2".to_string())
    );
}

#[test]
fn logo_has_fourteen_rows_of_equal_width() {
    let rows = calculator_ascii();
    assert_eq!(rows.len(), 14);
    assert_eq!(rows[0], "  ╔═════════════════════════╗  ");
    assert_eq!(rows[13], "  ╚═════════════════════════╝  ");
    for row in &rows {
        assert_eq!(row.chars().count(), rows[0].chars().count());
    }
}

#[test]
fn logo_glyph_styles() {
    let teal = GlyphStyle { red: 0, green: 200, blue: 160, bold: false };
    assert_eq!(logo_glyph_style('▓'), teal);
    assert_eq!(logo_glyph_style('║'), teal);
    assert_eq!(logo_glyph_style('░'), GlyphStyle { red: 30, green: 70, blue: 60, bold: false });
    assert_eq!(logo_glyph_style('─'), GlyphStyle { red: 160, green: 210, blue: 190, bold: false });
    assert_eq!(logo_glyph_style('['), GlyphStyle { red: 0, green: 220, blue: 150, bold: true });
    assert_eq!(logo_glyph_style('÷'), GlyphStyle { red: 255, green: 180, blue: 80, bold: true });
    assert_eq!(logo_glyph_style('7'), GlyphStyle { red: 200, green: 230, blue: 220, bold: false });
    assert_eq!(logo_glyph_style('C'), GlyphStyle { red: 80, green: 110, blue: 100, bold: false });
}

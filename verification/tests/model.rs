use termstyler::{
    bg_ansi_code, bold_ansi_code, color_index_from_key, decode_document, dim_ansi_code,
    export_ron, fg_ansi_code, generate_echo_command, import_ron, italic_ansi_code, parse_ansi,
    strikethrough_ansi_code, strip_echo_wrapper, underline_ansi_code, App, CharStyle, Color,
    DecodeError, Mode, Panel, ParseError, SelectionHighlightMode, StyledChar,
};

fn doc_of(text: &str) -> App {
    let mut app = App::new();
    for c in text.chars() {
        app.insert_char(c);
    }
    app
}

#[test]
fn parse_hello_all_default() {
    let result = parse_ansi("Hello").unwrap();
    let expected = ['H', 'e', 'l', 'l', 'o'];
    assert_eq!(result.len(), 5);
    for (i, sc) in result.iter().enumerate() {
        assert_eq!(sc.ch, expected[i]);
        assert_eq!(sc.style, CharStyle::default());
    }
}

#[test]
fn parse_bold_all_bold_others_default() {
    let result = parse_ansi("\x1b[1mBold\x1b[0m").unwrap();
    assert_eq!(result.len(), 4);
    for sc in &result {
        assert!(sc.style.bold);
        assert_eq!(sc.style.fg, Color::Reset);
        assert_eq!(sc.style.bg, Color::Reset);
        assert!(!sc.style.italic);
        assert!(!sc.style.underline);
        assert!(!sc.style.strikethrough);
        assert_eq!(sc.style.dim_level, 0);
    }
}

#[test]
fn parse_extended_colors() {
    let result = parse_ansi("\x1b[38;5;196mX\x1b[48;2;10;20;30mY").unwrap();
    assert_eq!(result.len(), 2);
    assert_eq!(result[0].style.fg, Color::Indexed(196));
    assert_eq!(result[1].style.fg, Color::Indexed(196));
    assert_eq!(result[1].style.bg, Color::Rgb(10, 20, 30));
}

#[test]
fn parse_short_extended_color_is_ignored() {
    // A short extended sequence is skipped without error; the 31 that
    // follows the incomplete 38;2 form is still applied.
    let result = parse_ansi("\x1b[38;2;31mA").unwrap();
    assert_eq!(result.len(), 1);
    assert_eq!(result[0].style.fg, Color::Red);
}

#[test]
fn parse_unknown_codes_are_ignored() {
    let result = parse_ansi("\x1b[99;31mA").unwrap();
    assert_eq!(result.len(), 1);
    assert_eq!(result[0].style.fg, Color::Red);
}

#[test]
fn parse_code_22_clears_bold_and_dim() {
    let result = parse_ansi("\x1b[1;2mA\x1b[22mB").unwrap();
    assert!(result[0].style.bold);
    assert_eq!(result[0].style.dim_level, 1);
    assert!(!result[1].style.bold);
    assert_eq!(result[1].style.dim_level, 0);
}

#[test]
fn parse_empty_params_resets() {
    let result = parse_ansi("\x1b[31mA\x1b[mB").unwrap();
    assert_eq!(result[0].style.fg, Color::Red);
    assert_eq!(result[1].style.fg, Color::Reset);
}

#[test]
fn parse_rejects_non_sgr_final() {
    assert!(matches!(
        parse_ansi("\x1b[2J"),
        Err(ParseError::MalformedEscape { .. })
    ));
}

#[test]
fn parse_rejects_unterminated_sequence() {
    assert!(matches!(
        parse_ansi("\x1b[31"),
        Err(ParseError::MalformedEscape { .. })
    ));
}

#[test]
fn parse_rejects_stray_escape_byte() {
    assert!(matches!(
        parse_ansi("abc\x1bdef"),
        Err(ParseError::StrayEscape { .. })
    ));
}

#[test]
fn generate_exact_command_for_plain_char() {
    let text = vec![StyledChar::new('H')];
    assert_eq!(generate_echo_command(&text), r#"echo -e "\033[0;39mH\033[0m""#);
}

#[test]
fn generate_shares_escape_for_equal_styles() {
    let text = vec![StyledChar::new('H'), StyledChar::new('i')];
    assert_eq!(generate_echo_command(&text), r#"echo -e "\033[0;39mHi\033[0m""#);
}

#[test]
fn generate_escapes_shell_special_characters() {
    let text = vec![
        StyledChar::new('"'),
        StyledChar::new('\\'),
        StyledChar::new('$'),
        StyledChar::new('`'),
        StyledChar::new('!'),
    ];
    let result = generate_echo_command(&text);
    assert_eq!(result, "echo -e \"\\033[0;39m\\\"\\\\\\$\\`\\!\\033[0m\"");
}

#[test]
fn generate_emits_full_restatement_on_change() {
    let mut text = vec![StyledChar::new('a')];
    text.push(StyledChar::with_style(
        'b',
        CharStyle {
            fg: Color::Rgb(1, 2, 3),
            bg: Color::Green,
            bold: true,
            italic: false,
            underline: false,
            strikethrough: false,
            dim_level: 2,
        },
    ));
    let result = generate_echo_command(&text);
    assert_eq!(
        result,
        r#"echo -e "\033[0;39ma\033[0;38;2;1;2;3;42;1;2mb\033[0m""#
    );
}

#[test]
fn ansi_round_trip_preserves_styles() {
    let input = "\x1b[1;31;44mText\x1b[0m plain \x1b[38;5;7;4mtail\x1b[0m";
    let first = parse_ansi(input).unwrap();
    let command = generate_echo_command(&first);
    let stripped = strip_echo_wrapper(&command);
    let second = parse_ansi(&stripped).unwrap();
    assert_eq!(first.len(), second.len());
    for (a, b) in first.iter().zip(second.iter()) {
        assert_eq!(a.ch, b.ch);
        assert_eq!(a.style, b.style);
    }
}

#[test]
fn structured_round_trip_all_fields() {
    let chars = vec![
        StyledChar::with_style(
            '\'',
            CharStyle {
                fg: Color::Rgb(255, 0, 128),
                bg: Color::Indexed(42),
                bold: true,
                italic: true,
                underline: false,
                strikethrough: true,
                dim_level: 3,
            },
        ),
        StyledChar::with_style(
            '\n',
            CharStyle {
                fg: Color::LightMagenta,
                bg: Color::DarkGray,
                bold: false,
                italic: false,
                underline: true,
                strikethrough: false,
                dim_level: 2,
            },
        ),
        StyledChar::with_style('\\', CharStyle::default()),
    ];
    let encoded = export_ron(&chars).unwrap();
    let decoded = import_ron(&encoded).unwrap();
    assert_eq!(decoded.len(), chars.len());
    for (a, b) in chars.iter().zip(decoded.iter()) {
        assert_eq!(a.ch, b.ch);
        assert_eq!(a.style, b.style);
    }
}

#[test]
fn structured_decode_accepts_whitespace_and_name() {
    let text = "StyledDocument(\n  version: 1,\n  chars: [\n    (ch: 'A', style: (fg: Red, bg: Reset, bold: true, italic: false, underline: false, strikethrough: false, dim_level: 1)),\n  ],\n)";
    let decoded = import_ron(text).unwrap();
    assert_eq!(decoded.len(), 1);
    assert_eq!(decoded[0].ch, 'A');
    assert_eq!(decoded[0].style.fg, Color::Red);
    assert!(decoded[0].style.bold);
    assert_eq!(decoded[0].style.dim_level, 1);
}

#[test]
fn structured_decode_rejects_unknown_version() {
    assert!(matches!(
        import_ron("(version:2,chars:[])"),
        Err(DecodeError::UnsupportedVersion)
    ));
}

#[test]
fn structured_decode_rejects_malformed_text() {
    assert!(matches!(import_ron("(version:1,chars:"), Err(DecodeError::Malformed)));
    assert!(matches!(import_ron("nonsense"), Err(DecodeError::Malformed)));
    assert!(matches!(
        import_ron("(version:1,chars:[(ch:'A',style:(fg:Red,bg:Reset,bold:true,italic:false,underline:false,strikethrough:false,dim_level:4))])"),
        Err(DecodeError::Malformed)
    ));
}

#[test]
fn decode_document_reports_version() {
    let doc = decode_document("(version:1,chars:[])").unwrap();
    assert_eq!(doc.version, 1);
    assert!(doc.chars.is_empty());
}

#[test]
fn ansi_code_tables() {
    assert_eq!(fg_ansi_code(Color::Red), "31");
    assert_eq!(fg_ansi_code(Color::Reset), "39");
    assert_eq!(fg_ansi_code(Color::Gray), "97");
    assert_eq!(fg_ansi_code(Color::Rgb(1, 2, 3)), "38;2;1;2;3");
    assert_eq!(fg_ansi_code(Color::Indexed(7)), "38;5;7");
    assert_eq!(bg_ansi_code(Color::Blue), "44");
    assert_eq!(bg_ansi_code(Color::Reset), "49");
    assert_eq!(bg_ansi_code(Color::Indexed(0)), "48;5;0");
    assert_eq!(bold_ansi_code(true), Some("1"));
    assert_eq!(bold_ansi_code(false), None);
    assert_eq!(dim_ansi_code(0), None);
    assert_eq!(dim_ansi_code(2), Some("2"));
    assert_eq!(dim_ansi_code(9), None);
    assert_eq!(italic_ansi_code(true), Some("3"));
    assert_eq!(underline_ansi_code(true), Some("4"));
    assert_eq!(strikethrough_ansi_code(true), Some("9"));
}

#[test]
fn color_key_lookup() {
    assert_eq!(color_index_from_key('0'), Some(0));
    assert_eq!(color_index_from_key('9'), Some(9));
    assert_eq!(color_index_from_key('a'), Some(10));
    assert_eq!(color_index_from_key('G'), Some(16));
    assert_eq!(color_index_from_key('z'), None);
}

#[test]
fn panel_cycle() {
    assert_eq!(Panel::Editor.next(), Panel::FgColor);
    assert_eq!(Panel::FgColor.next(), Panel::BgColor);
    assert_eq!(Panel::BgColor.next(), Panel::Formatting);
    assert_eq!(Panel::Formatting.next(), Panel::Editor);
    assert_eq!(Panel::Editor.prev(), Panel::Formatting);
    assert_eq!(Panel::FgColor.prev(), Panel::Editor);
}

#[test]
fn insert_and_delete() {
    let mut app = doc_of("abc");
    assert_eq!(app.cursor_pos, 3);
    app.delete_char();
    assert_eq!(app.text.len(), 2);
    assert_eq!(app.cursor_pos, 2);
    app.move_to_start();
    app.delete_char_forward();
    assert_eq!(app.text.len(), 1);
    assert_eq!(app.text[0].ch, 'b');
}

#[test]
fn edge_noops_keep_cursor_in_bounds() {
    let mut app = App::new();
    app.move_left();
    assert_eq!(app.cursor_pos, 0);
    app.delete_char();
    assert_eq!(app.cursor_pos, 0);
    assert!(app.text.is_empty());
    let mut app = doc_of("xy");
    app.move_to_start();
    app.move_left();
    assert_eq!(app.cursor_pos, 0);
    app.delete_char();
    assert_eq!(app.text.len(), 2);
    app.move_to_end();
    app.move_right();
    assert_eq!(app.cursor_pos, 2);
    app.delete_char_forward();
    assert_eq!(app.text.len(), 2);
    assert!(app.cursor_pos <= app.text.len());
}

#[test]
fn apply_style_to_selection_range() {
    let mut app = doc_of("abcdef");
    app.move_to_start();
    app.move_right();
    app.move_right();
    app.start_selection();
    app.move_right();
    app.move_right();
    app.move_right();
    assert_eq!(app.selection, Some((2, 5)));
    app.toggle_bold();
    for i in 0..2 {
        assert!(!app.text[i].style.bold, "index {} must be unchanged", i);
    }
    for i in 2..6 {
        assert!(app.text[i].style.bold, "index {} must be styled", i);
    }
}

#[test]
fn apply_style_at_cursor_without_selection() {
    let mut app = doc_of("ab");
    app.move_to_start();
    app.current_fg = Color::Green;
    app.apply_style();
    assert_eq!(app.text[0].style.fg, Color::Green);
    assert_eq!(app.text[1].style.fg, Color::Reset);
}

#[test]
fn apply_style_on_empty_document_is_noop() {
    let mut app = App::new();
    app.start_selection();
    app.toggle_bold();
    assert!(app.text.is_empty());
}

#[test]
fn selection_follows_cursor_from_anchor() {
    let mut app = doc_of("abcd");
    app.move_to_start();
    app.move_right();
    app.start_selection();
    assert_eq!(app.mode, Mode::Selecting);
    assert_eq!(app.selection, Some((1, 1)));
    app.move_to_end();
    assert_eq!(app.selection, Some((1, 4)));
    app.move_to_start();
    assert_eq!(app.selection, Some((0, 1)));
    app.clear_selection();
    assert_eq!(app.selection, None);
    assert_eq!(app.selection_anchor, None);
    assert_eq!(app.mode, Mode::Normal);
}

#[test]
fn insert_clears_selection() {
    let mut app = doc_of("ab");
    app.start_selection();
    app.insert_char('x');
    assert_eq!(app.selection, None);
    assert_eq!(app.mode, Mode::Normal);
    assert_eq!(app.text.len(), 3);
}

#[test]
fn cycle_dim_wraps_around() {
    let mut app = App::new();
    for expected in [1u8, 2, 3, 0, 1] {
        app.cycle_dim();
        assert_eq!(app.current_dim, expected);
    }
}

#[test]
fn load_style_from_cursor_copies_fields() {
    let mut app = App::new();
    app.current_fg = Color::Yellow;
    app.current_bold = true;
    app.insert_char('q');
    app.reset_style();
    assert_eq!(app.current_fg, Color::Reset);
    app.move_left();
    app.load_style_from_cursor();
    assert_eq!(app.current_fg, Color::Yellow);
    assert!(app.current_bold);
    assert_eq!(app.fg_color_index, 4);
}

#[test]
fn is_selected_reports_range() {
    let mut app = doc_of("abcd");
    app.move_to_start();
    app.start_selection();
    app.move_right();
    app.move_right();
    assert!(app.is_selected(0));
    assert!(app.is_selected(2));
    assert!(!app.is_selected(3));
}

#[test]
fn status_and_highlight_mode() {
    let mut app = App::new();
    assert_eq!(app.selection_highlight_mode, SelectionHighlightMode::Reversed);
    app.toggle_selection_highlight_mode();
    assert_eq!(app.selection_highlight_mode, SelectionHighlightMode::Underline);
    app.set_status(String::from("ready"));
    assert_eq!(app.status_message.as_deref(), Some("ready"));
    app.clear_status();
    assert!(app.status_message.is_none());
}

#[test]
fn strip_wrapper_without_closing_quote_returns_input() {
    let input = r#"echo -e "unterminated"#;
    assert_eq!(strip_echo_wrapper(input), input);
}

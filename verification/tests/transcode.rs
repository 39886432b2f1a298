use termstyler::{
    export_ron, generate_echo_command, import_ron, is_ron_format, parse_ansi, strip_echo_wrapper,
    CharStyle, Color, StyledChar,
};

#[test]
fn test_generate_empty() {
    let text: Vec<StyledChar> = vec![];
    let result = generate_echo_command(&text);
    assert_eq!(result, r#"echo -e """#);
}

#[test]
fn test_generate_simple() {
    let text: Vec<StyledChar> = vec![StyledChar::new('H'), StyledChar::new('i')];
    let result = generate_echo_command(&text);
    assert!(result.starts_with(r#"echo -e ""#));
    assert!(result.ends_with(r#"\033[0m""#));
    assert!(result.contains("Hi"));
}

#[test]
fn test_generate_with_bold() {
    let text: Vec<StyledChar> = vec![StyledChar::with_style(
        'B',
        CharStyle {
            fg: Color::Red,
            bg: Color::Reset,
            bold: true,
            italic: false,
            underline: false,
            strikethrough: false,
            dim_level: 0,
        },
    )];
    let result = generate_echo_command(&text);
    assert!(result.contains("1")); // Bold code
    assert!(result.contains("31")); // Red foreground
}

#[test]
fn test_generate_with_decorations() {
    let text: Vec<StyledChar> = vec![StyledChar::with_style(
        'X',
        CharStyle {
            fg: Color::White,
            bg: Color::Reset,
            bold: false,
            italic: true,
            underline: true,
            strikethrough: true,
            dim_level: 0,
        },
    )];
    let result = generate_echo_command(&text);
    assert!(result.contains("3")); // Italic code
    assert!(result.contains("4")); // Underline code
    assert!(result.contains("9")); // Strikethrough code
}

#[test]
fn test_generate_multiline() {
    let text: Vec<StyledChar> = vec![
        StyledChar::new('H'),
        StyledChar::new('i'),
        StyledChar::new('\n'),
        StyledChar::new('!'),
    ];
    let result = generate_echo_command(&text);
    assert!(result.contains(r#"\n"#)); // Newline is escaped
    assert!(result.starts_with(r#"echo -e ""#));
    assert!(result.ends_with(r#"\033[0m""#));
}

#[test]
fn test_parse_plain_text() {
    let result = parse_ansi("Hello").unwrap();
    assert_eq!(result.len(), 5);
    assert_eq!(result[0].ch, 'H');
}

#[test]
fn test_parse_bold() {
    let result = parse_ansi("\x1b[1mBold\x1b[0m").unwrap();
    assert_eq!(result.len(), 4);
    assert!(result[0].style.bold);
}

#[test]
fn test_parse_color() {
    let result = parse_ansi("\x1b[31mRed\x1b[0m").unwrap();
    assert_eq!(result.len(), 3);
    assert_eq!(result[0].style.fg, Color::Red);
}

#[test]
fn test_parse_combined() {
    let result = parse_ansi("\x1b[1;31;44mText\x1b[0m").unwrap();
    assert_eq!(result.len(), 4);
    assert!(result[0].style.bold);
    assert_eq!(result[0].style.fg, Color::Red);
    assert_eq!(result[0].style.bg, Color::Blue);
}

#[test]
fn test_ron_roundtrip() {
    let chars = vec![
        StyledChar::with_style(
            'A',
            CharStyle {
                fg: Color::Red,
                bg: Color::Blue,
                bold: true,
                italic: false,
                underline: true,
                strikethrough: false,
                dim_level: 0,
            },
        ),
        StyledChar::with_style('B', CharStyle::default()),
    ];

    let ron_str = export_ron(&chars).unwrap();
    let imported = import_ron(&ron_str).unwrap();

    assert_eq!(imported.len(), 2);
    assert_eq!(imported[0].ch, 'A');
    assert_eq!(imported[0].style.fg, Color::Red);
    assert!(imported[0].style.bold);
}

#[test]
fn test_is_ron_format() {
    assert!(is_ron_format("(version: 1, chars: [])"));
    assert!(is_ron_format("StyledDocument(...)"));
    assert!(!is_ron_format("\x1b[31mHello"));
    assert!(!is_ron_format("plain text"));
}

#[test]
fn test_parse_literal_octal_escape() {
    // Literal \033 format (common in echo -e output when copied as text)
    let result = parse_ansi("\\033[31mRed\\033[0m").unwrap();
    assert_eq!(result.len(), 3);
    assert_eq!(result[0].style.fg, Color::Red);
    assert_eq!(result[0].ch, 'R');
}

#[test]
fn test_parse_literal_hex_escape() {
    // Literal \x1b format
    let result = parse_ansi("\\x1b[1;32mBoldGreen\\x1b[0m").unwrap();
    assert_eq!(result.len(), 9);
    assert!(result[0].style.bold);
    assert_eq!(result[0].style.fg, Color::Green);
}

#[test]
fn test_parse_literal_e_escape() {
    // Literal \e format (bash shorthand)
    let result = parse_ansi("\\e[44mBlue\\e[0m").unwrap();
    assert_eq!(result.len(), 4);
    assert_eq!(result[0].style.bg, Color::Blue);
}

#[test]
fn test_strip_echo_wrapper_double_quotes() {
    let input = r#"echo -e "\033[31mHello\033[0m""#;
    let stripped = strip_echo_wrapper(input);
    assert_eq!(stripped, r#"\033[31mHello\033[0m"#);
}

#[test]
fn test_strip_echo_wrapper_single_quotes() {
    let input = r#"echo -e '\033[31mHello\033[0m'"#;
    let stripped = strip_echo_wrapper(input);
    assert_eq!(stripped, r#"\033[31mHello\033[0m"#);
}

#[test]
fn test_strip_echo_wrapper_no_e_flag() {
    let input = r#"echo "\033[31mHello\033[0m""#;
    let stripped = strip_echo_wrapper(input);
    assert_eq!(stripped, r#"\033[31mHello\033[0m"#);
}

#[test]
fn test_strip_echo_wrapper_printf() {
    let input = r#"printf "\033[31mHello\033[0m""#;
    let stripped = strip_echo_wrapper(input);
    assert_eq!(stripped, r#"\033[31mHello\033[0m"#);
}

#[test]
fn test_strip_echo_wrapper_not_echo() {
    let input = r#"\033[31mHello\033[0m"#;
    let stripped = strip_echo_wrapper(input);
    assert_eq!(stripped, input);
}

#[test]
fn test_strip_echo_wrapper_ansi_c_quoting() {
    let input = r#"echo $'\033[31mHello\033[0m'"#;
    let stripped = strip_echo_wrapper(input);
    assert_eq!(stripped, r#"\033[31mHello\033[0m"#);
}

#[test]
fn test_parse_multiline_literal() {
    // Test parsing literal \n newlines from echo command format
    let result = parse_ansi(r#"Line1\nLine2"#).unwrap();
    assert_eq!(result.len(), 11); // "Line1" + \n + "Line2"
    assert_eq!(result[5].ch, '\n'); // The newline character
    assert_eq!(result[6].ch, 'L');
}

#[test]
fn test_parse_multiline_with_style() {
    // Test parsing multiline with ANSI styling
    let result = parse_ansi(r#"\033[31mRed\nLine\033[0m"#).unwrap();
    assert_eq!(result.len(), 8); // "Red" + \n + "Line"
    assert_eq!(result[0].style.fg, Color::Red);
    assert_eq!(result[3].ch, '\n');
    assert_eq!(result[4].style.fg, Color::Red); // Style persists after newline
}

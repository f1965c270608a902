use haven::error::{Color, ErrorReport, ErrorReportKind};
use haven::lexer::Lexer;
use haven::token::{Token, TokenKind};

fn lex(source: &str) -> (Vec<Token>, Vec<ErrorReport>, bool) {
    let mut reports = Vec::new();
    let mut lexer = Lexer::new("test.hv".to_string(), source);
    lexer.lex_tokens(&mut reports);
    let failed = lexer.had_error();
    (lexer.into_tokens(), reports, failed)
}

fn kinds(tokens: &[Token]) -> Vec<TokenKind> {
    tokens.iter().map(|t| t.kind).collect()
}

#[test]
fn let_is_a_keyword() {
    let (tokens, reports, failed) = lex("let");
    assert_eq!(kinds(&tokens), vec![TokenKind::Let, TokenKind::EOF]);
    assert_eq!(tokens[0].text, "let");
    assert_eq!((tokens[0].span.start, tokens[0].span.end), (0, 2));
    assert!(reports.is_empty());
    assert!(!failed);
}

#[test]
fn letx_is_an_identifier() {
    let (tokens, reports, _) = lex("letx");
    assert_eq!(kinds(&tokens), vec![TokenKind::Identifier, TokenKind::EOF]);
    assert_eq!(tokens[0].text, "letx");
    assert_eq!((tokens[0].span.start, tokens[0].span.end), (0, 3));
    assert!(reports.is_empty());
}

#[test]
fn decimal_integer() {
    let (tokens, reports, _) = lex("123");
    assert_eq!(kinds(&tokens), vec![TokenKind::IntegerLiteralDec, TokenKind::EOF]);
    assert_eq!(tokens[0].text, "123");
    assert_eq!((tokens[0].span.start, tokens[0].span.end), (0, 3));
    assert!(reports.is_empty());
}

#[test]
fn separators_are_stripped() {
    let (tokens, reports, _) = lex("1_2_3");
    assert_eq!(kinds(&tokens), vec![TokenKind::IntegerLiteralDec, TokenKind::EOF]);
    assert_eq!(tokens[0].text, "123");
    assert_eq!((tokens[0].span.start, tokens[0].span.end), (0, 5));
    assert!(reports.is_empty());
}

#[test]
fn hexadecimal_integer_loses_its_prefix() {
    let (tokens, reports, _) = lex("0x1F");
    assert_eq!(kinds(&tokens), vec![TokenKind::IntegerLiteralHex, TokenKind::EOF]);
    assert_eq!(tokens[0].text, "1F");
    assert_eq!((tokens[0].span.start, tokens[0].span.end), (0, 4));
    assert!(reports.is_empty());
}

#[test]
fn binary_digit_out_of_range() {
    let (tokens, reports, failed) = lex("0b012");
    assert!(failed);
    assert_eq!(reports.len(), 1);
    assert_eq!(reports[0].kind(), ErrorReportKind::SyntaxError);
    assert_eq!(reports[0].title(), "SyntaxError: Invalid Integer Literal");
    assert_eq!((reports[0].span().start, reports[0].span().end), (0, 4));
    let labels = reports[0].labels();
    assert_eq!(labels.len(), 2);
    assert_eq!(labels[0].message.as_deref(), Some("Binary integer literal"));
    assert_eq!(labels[0].color, Some(Color::BrightBlue));
    assert_eq!(labels[0].order, 1);
    assert_eq!((labels[0].span.start, labels[0].span.end), (0, 4));
    assert_eq!(labels[1].message.as_deref(), Some("Invalid character"));
    assert_eq!(labels[1].color, Some(Color::Red));
    assert_eq!(labels[1].order, 0);
    assert_eq!((labels[1].span.start, labels[1].span.end), (4, 4));
    assert!(tokens.iter().all(|t| t.kind != TokenKind::IntegerLiteralBin));
    // The scan goes on from the offending digit, which is a number by itself.
    assert_eq!(kinds(&tokens), vec![TokenKind::IntegerLiteralDec, TokenKind::EOF]);
    assert_eq!(tokens[0].text, "2");
}

#[test]
fn float_literal() {
    let (tokens, reports, _) = lex("12.5");
    assert_eq!(kinds(&tokens), vec![TokenKind::FloatLiteral, TokenKind::EOF]);
    assert_eq!(tokens[0].text, "12.5");
    assert_eq!((tokens[0].span.start, tokens[0].span.end), (0, 4));
    assert!(reports.is_empty());
}

#[test]
fn second_fractional_indicator() {
    let (tokens, reports, failed) = lex("12.5.6");
    assert!(failed);
    assert_eq!(reports.len(), 1);
    assert_eq!(reports[0].kind(), ErrorReportKind::SyntaxError);
    assert_eq!(reports[0].title(), "SyntaxError: Invalid Float Literal");
    assert_eq!((reports[0].span().start, reports[0].span().end), (0, 4));
    let labels = reports[0].labels();
    assert_eq!(labels.len(), 1);
    assert_eq!(labels[0].message.as_deref(), Some("Second fractional indicator"));
    assert_eq!((labels[0].span.start, labels[0].span.end), (4, 4));
    assert_eq!(labels[0].color, Some(Color::Red));
    // Nothing comes of the number; the scan goes on after the second `.`.
    assert!(tokens.iter().all(|t| t.kind != TokenKind::FloatLiteral));
    assert_eq!(kinds(&tokens), vec![TokenKind::IntegerLiteralDec, TokenKind::EOF]);
    assert_eq!(tokens[0].text, "6");
    assert_eq!((tokens[0].span.start, tokens[0].span.end), (5, 6));
    assert_eq!((tokens[1].span.start, tokens[1].span.end), (6, 6));
}

#[test]
fn second_fractional_indicator_at_the_end() {
    let (tokens, reports, failed) = lex("1..");
    assert!(failed);
    assert_eq!(reports.len(), 1);
    assert_eq!(reports[0].title(), "SyntaxError: Invalid Float Literal");
    assert_eq!((reports[0].span().start, reports[0].span().end), (0, 2));
    assert_eq!(kinds(&tokens), vec![TokenKind::EOF]);
    assert_eq!((tokens[0].span.start, tokens[0].span.end), (3, 3));
}

#[test]
fn number_after_a_second_fractional_indicator() {
    let (tokens, reports, _) = lex("1.2.3.4");
    assert_eq!(reports.len(), 1);
    assert_eq!((reports[0].span().start, reports[0].span().end), (0, 3));
    assert_eq!(kinds(&tokens), vec![TokenKind::FloatLiteral, TokenKind::EOF]);
    assert_eq!(tokens[0].text, "3.4");
    assert_eq!((tokens[0].span.start, tokens[0].span.end), (4, 7));
}

#[test]
fn nested_block_comment() {
    let (tokens, reports, failed) = lex("/* a /* b */ c */");
    assert_eq!(kinds(&tokens), vec![TokenKind::EOF]);
    assert_eq!((tokens[0].span.start, tokens[0].span.end), (17, 17));
    assert!(reports.is_empty());
    assert!(!failed);
}

#[test]
fn unterminated_block_comment() {
    let (tokens, reports, failed) = lex("/* unterminated");
    assert!(failed);
    assert_eq!(reports.len(), 1);
    assert_eq!(reports[0].kind(), ErrorReportKind::SyntaxError);
    assert_eq!(reports[0].title(), "SyntaxError: Unterminated Multi-Line Comment");
    assert_eq!((reports[0].span().start, reports[0].span().end), (0, 15));
    let labels = reports[0].labels();
    assert_eq!(labels.len(), 1);
    assert_eq!(labels[0].message.as_deref(), Some("Comment started here"));
    assert_eq!((labels[0].span.start, labels[0].span.end), (0, 2));
    assert_eq!(kinds(&tokens), vec![TokenKind::EOF]);
}

#[test]
fn unexpected_character() {
    let (tokens, reports, failed) = lex("@");
    assert!(failed);
    assert_eq!(reports.len(), 1);
    assert_eq!(reports[0].kind(), ErrorReportKind::UnexpectedCharacter);
    assert_eq!(reports[0].title(), "UnexpectedCharacter: '@'");
    assert_eq!((reports[0].span().start, reports[0].span().end), (0, 0));
    let labels = reports[0].labels();
    assert_eq!(labels.len(), 1);
    assert_eq!(labels[0].message.as_deref(), Some("Not a valid character."));
    assert_eq!(labels[0].color, Some(Color::Red));
    assert_eq!((labels[0].span.start, labels[0].span.end), (0, 0));
    assert_eq!(kinds(&tokens), vec![TokenKind::EOF]);
    assert_eq!((tokens[0].span.start, tokens[0].span.end), (1, 1));
    assert_eq!(tokens[0].text, "");
}

#[test]
fn let_statement() {
    let (tokens, reports, failed) = lex("let x = 5;");
    assert_eq!(
        kinds(&tokens),
        vec![
            TokenKind::Let,
            TokenKind::Identifier,
            TokenKind::Equals,
            TokenKind::IntegerLiteralDec,
            TokenKind::SemiColon,
            TokenKind::EOF,
        ]
    );
    let texts: Vec<&str> = tokens.iter().map(|t| t.text.as_str()).collect();
    assert_eq!(texts, vec!["let", "x", "=", "5", ";", ""]);
    let spans: Vec<(usize, usize)> = tokens.iter().map(|t| (t.span.start, t.span.end)).collect();
    assert_eq!(spans, vec![(0, 2), (4, 4), (6, 7), (8, 9), (9, 10), (10, 10)]);
    assert!(tokens.iter().all(|t| t.span.filename == "test.hv" && !t.newline_before));
    assert!(reports.is_empty());
    assert!(!failed);
}

#[test]
fn empty_text_yields_the_end_token() {
    let (tokens, reports, failed) = lex("");
    assert_eq!(kinds(&tokens), vec![TokenKind::EOF]);
    assert_eq!((tokens[0].span.start, tokens[0].span.end), (0, 0));
    assert_eq!(tokens[0].text, "");
    assert!(reports.is_empty());
    assert!(!failed);
}

#[test]
fn white_space_and_comments_yield_the_end_token() {
    for source in [
        " ",
        " \t\r\n\u{b}\u{c}",
        "\u{85}\u{a0}\u{1680}\u{2000}\u{200a}\u{2028}\u{2029}\u{202f}\u{205f}\u{3000}",
        "// a line comment",
        "// one\n// two\n",
        "/**/",
        "/* a */ /* b */",
        "/* /* */*/",
        "/*/* /**/ */*/",
        "  /* a // b */ // c /* d\n\t/* e\n f */\n",
    ] {
        let (tokens, reports, failed) = lex(source);
        assert_eq!(kinds(&tokens), vec![TokenKind::EOF], "{:?}", source);
        let end = source.chars().count();
        assert_eq!((tokens[0].span.start, tokens[0].span.end), (end, end), "{:?}", source);
        assert!(reports.is_empty(), "{:?}", source);
        assert!(!failed, "{:?}", source);
    }
}

#[test]
fn identifiers_lex_to_themselves() {
    for source in ["x", "_", "__init__", "lets", "le", "Let", "LET", "a1_b2", "let_", "_9"] {
        let (tokens, reports, failed) = lex(source);
        assert_eq!(kinds(&tokens), vec![TokenKind::Identifier, TokenKind::EOF], "{:?}", source);
        assert_eq!(tokens[0].text, source);
        assert_eq!((tokens[0].span.start, tokens[0].span.end), (0, source.len() - 1));
        assert!(reports.is_empty());
        assert!(!failed);
    }
}

#[test]
fn scanning_twice_gives_the_same() {
    for source in ["let x = 5;", "0b012 12.5.6 @ /* open", "a.b/c;=.5", "é=1_0"] {
        let first = lex(source);
        let second = lex(source);
        assert_eq!(format!("{:?}", first.0), format!("{:?}", second.0));
        assert_eq!(format!("{:?}", first.1), format!("{:?}", second.1));
        assert_eq!(first.2, second.2);
    }
}

#[test]
fn every_token_sequence_ends_in_one_end_token() {
    for source in ["", "let x = 5;", "0b012 12.5.6 @ /* open", "a.b/c;=.5", "\"text\""] {
        let (tokens, _, _) = lex(source);
        let end = source.chars().count();
        let last = tokens.last().unwrap();
        assert_eq!(last.kind, TokenKind::EOF);
        assert_eq!((last.span.start, last.span.end), (end, end));
        assert_eq!(last.text, "");
        let ends = tokens.iter().filter(|t| t.kind == TokenKind::EOF).count();
        assert_eq!(ends, 1);
    }
}

#[test]
fn one_character_tokens() {
    let (tokens, reports, _) = lex(".;=/");
    assert_eq!(
        kinds(&tokens),
        vec![
            TokenKind::Period,
            TokenKind::SemiColon,
            TokenKind::Equals,
            TokenKind::Slash,
            TokenKind::EOF,
        ]
    );
    let texts: Vec<&str> = tokens.iter().map(|t| t.text.as_str()).collect();
    assert_eq!(texts, vec![".", ";", "=", "/", ""]);
    let spans: Vec<(usize, usize)> = tokens.iter().map(|t| (t.span.start, t.span.end)).collect();
    assert_eq!(spans, vec![(0, 1), (1, 2), (2, 3), (3, 4), (4, 4)]);
    assert!(reports.is_empty());
}

#[test]
fn binary_and_octal_integers() {
    let (tokens, reports, _) = lex("0b1_01 0o17");
    assert_eq!(
        kinds(&tokens),
        vec![TokenKind::IntegerLiteralBin, TokenKind::IntegerLiteralOct, TokenKind::EOF]
    );
    assert_eq!(tokens[0].text, "101");
    assert_eq!((tokens[0].span.start, tokens[0].span.end), (0, 6));
    assert_eq!(tokens[1].text, "17");
    assert_eq!((tokens[1].span.start, tokens[1].span.end), (7, 11));
    assert!(reports.is_empty());
}

#[test]
fn hexadecimal_digits_in_either_case() {
    let (tokens, reports, _) = lex("0xaBcDeF09");
    assert_eq!(kinds(&tokens), vec![TokenKind::IntegerLiteralHex, TokenKind::EOF]);
    assert_eq!(tokens[0].text, "aBcDeF09");
    assert!(reports.is_empty());
}

#[test]
fn prefix_without_digits() {
    let (tokens, reports, _) = lex("0x");
    assert_eq!(kinds(&tokens), vec![TokenKind::IntegerLiteralHex, TokenKind::EOF]);
    assert_eq!(tokens[0].text, "");
    assert_eq!((tokens[0].span.start, tokens[0].span.end), (0, 2));
    assert!(reports.is_empty());
}

#[test]
fn upper_case_letter_announces_no_base() {
    let (tokens, reports, failed) = lex("0B1");
    assert!(failed);
    assert_eq!(reports.len(), 1);
    assert_eq!(reports[0].title(), "SyntaxError: Invalid Integer Literal");
    assert_eq!((reports[0].span().start, reports[0].span().end), (0, 1));
    assert_eq!(reports[0].labels()[0].message.as_deref(), Some("Decimal integer literal"));
    assert_eq!(kinds(&tokens), vec![TokenKind::Identifier, TokenKind::EOF]);
    assert_eq!(tokens[0].text, "B1");
}

#[test]
fn letter_in_a_number() {
    for (source, base) in [("0o18", "Octal"), ("0xfg", "Hexadecimal"), ("12a", "Decimal")] {
        let (_, reports, failed) = lex(source);
        assert!(failed);
        assert_eq!(reports.len(), 1, "{:?}", source);
        assert_eq!(reports[0].kind(), ErrorReportKind::SyntaxError);
        let labels = reports[0].labels();
        assert_eq!(labels[0].message, Some(format!("{} integer literal", base)));
        assert_eq!((labels[0].span.start, labels[0].span.end), (0, source.len() - 1));
        assert_eq!((labels[1].span.start, labels[1].span.end), (source.len() - 1, source.len() - 1));
    }
}

#[test]
fn number_that_begins_with_a_period() {
    let (tokens, reports, _) = lex(".5");
    assert_eq!(kinds(&tokens), vec![TokenKind::FloatLiteral, TokenKind::EOF]);
    assert_eq!(tokens[0].text, ".5");
    assert_eq!((tokens[0].span.start, tokens[0].span.end), (0, 2));
    assert!(reports.is_empty());
}

#[test]
fn number_that_ends_with_a_period() {
    let (tokens, reports, _) = lex("12.");
    assert_eq!(kinds(&tokens), vec![TokenKind::FloatLiteral, TokenKind::EOF]);
    assert_eq!(tokens[0].text, "12.");
    assert!(reports.is_empty());
}

#[test]
fn separators_in_a_float() {
    let (tokens, reports, _) = lex("1_000.5_0");
    assert_eq!(kinds(&tokens), vec![TokenKind::FloatLiteral, TokenKind::EOF]);
    assert_eq!(tokens[0].text, "1000.50");
    assert_eq!((tokens[0].span.start, tokens[0].span.end), (0, 9));
    assert!(reports.is_empty());
}

#[test]
fn second_period_after_a_leading_period() {
    let (tokens, reports, _) = lex(".5.");
    assert_eq!(reports.len(), 1);
    assert_eq!(reports[0].title(), "SyntaxError: Invalid Float Literal");
    assert_eq!((reports[0].span().start, reports[0].span().end), (0, 2));
    let labels = reports[0].labels();
    assert_eq!((labels[0].span.start, labels[0].span.end), (2, 2));
    assert_eq!(kinds(&tokens), vec![TokenKind::EOF]);
    assert_eq!((tokens[0].span.start, tokens[0].span.end), (3, 3));
}

#[test]
fn letter_in_a_fraction() {
    let (tokens, reports, _) = lex("1.5e3");
    assert_eq!(reports.len(), 1);
    assert_eq!(reports[0].title(), "SyntaxError: Invalid Integer Literal");
    assert_eq!((reports[0].span().start, reports[0].span().end), (0, 3));
    assert_eq!(reports[0].labels()[0].message.as_deref(), Some("Decimal integer literal"));
    assert_eq!(kinds(&tokens), vec![TokenKind::Identifier, TokenKind::EOF]);
    assert_eq!(tokens[0].text, "e3");
}

#[test]
fn line_comment_ends_with_its_line() {
    let (tokens, reports, _) = lex("a // b = c\nd");
    assert_eq!(kinds(&tokens), vec![TokenKind::Identifier, TokenKind::Identifier, TokenKind::EOF]);
    assert_eq!(tokens[1].text, "d");
    assert_eq!((tokens[1].span.start, tokens[1].span.end), (11, 11));
    assert!(reports.is_empty());
}

#[test]
fn token_right_after_a_block_comment() {
    let (tokens, reports, _) = lex("/**/x/* */=");
    assert_eq!(kinds(&tokens), vec![TokenKind::Identifier, TokenKind::Equals, TokenKind::EOF]);
    assert_eq!((tokens[0].span.start, tokens[0].span.end), (4, 4));
    assert_eq!((tokens[1].span.start, tokens[1].span.end), (10, 11));
    assert!(reports.is_empty());
}

#[test]
fn opening_of_a_block_comment_does_not_close_it() {
    let (tokens, reports, failed) = lex("/*/");
    assert!(failed);
    assert_eq!(reports.len(), 1);
    assert_eq!(reports[0].title(), "SyntaxError: Unterminated Multi-Line Comment");
    assert_eq!((reports[0].span().start, reports[0].span().end), (0, 3));
    assert_eq!(kinds(&tokens), vec![TokenKind::EOF]);
}

#[test]
fn nested_comment_left_open() {
    let (tokens, reports, _) = lex("x /* a /* b */ c");
    assert_eq!(reports.len(), 1);
    assert_eq!((reports[0].span().start, reports[0].span().end), (2, 16));
    let labels = reports[0].labels();
    assert_eq!((labels[0].span.start, labels[0].span.end), (2, 4));
    assert_eq!(kinds(&tokens), vec![TokenKind::Identifier, TokenKind::EOF]);
}

#[test]
fn every_error_is_reported_in_one_pass() {
    let (tokens, reports, failed) = lex("@ 0b2 x 1.2.3 # /* open");
    assert!(failed);
    let titles: Vec<&str> = reports.iter().map(|r| r.title()).collect();
    assert_eq!(
        titles,
        vec![
            "UnexpectedCharacter: '@'",
            "SyntaxError: Invalid Integer Literal",
            "SyntaxError: Invalid Float Literal",
            "UnexpectedCharacter: '#'",
            "SyntaxError: Unterminated Multi-Line Comment",
        ]
    );
    let starts: Vec<usize> = reports.iter().map(|r| r.span().start).collect();
    assert_eq!(starts, vec![0, 2, 8, 14, 16]);
    assert_eq!(
        kinds(&tokens),
        vec![
            TokenKind::IntegerLiteralDec,
            TokenKind::Identifier,
            TokenKind::IntegerLiteralDec,
            TokenKind::EOF,
        ]
    );
    let texts: Vec<&str> = tokens.iter().map(|t| t.text.as_str()).collect();
    assert_eq!(texts, vec!["2", "x", "3", ""]);
}

#[test]
fn offsets_count_characters() {
    let (tokens, reports, _) = lex("é=ü;");
    assert_eq!(reports.len(), 2);
    assert_eq!(reports[0].title(), "UnexpectedCharacter: 'é'");
    assert_eq!((reports[0].span().start, reports[0].span().end), (0, 0));
    assert_eq!((reports[1].span().start, reports[1].span().end), (2, 2));
    assert_eq!(kinds(&tokens), vec![TokenKind::Equals, TokenKind::SemiColon, TokenKind::EOF]);
    let spans: Vec<(usize, usize)> = tokens.iter().map(|t| (t.span.start, t.span.end)).collect();
    assert_eq!(spans, vec![(1, 2), (3, 4), (4, 4)]);
}

#[test]
fn unexpected_character_is_written_as_for_debugging() {
    for c in ['\u{0}', '\'', '"', '\\', '\u{7f}', '\u{200b}', '\u{180e}', '\u{1c}', '愛'] {
        let source = c.to_string();
        let (tokens, reports, _) = lex(&source);
        assert_eq!(reports.len(), 1, "{:?}", c);
        assert_eq!(reports[0].title(), format!("UnexpectedCharacter: {:?}", c));
        assert_eq!(kinds(&tokens), vec![TokenKind::EOF]);
    }
}

#[test]
fn white_space_is_what_the_standard_library_says() {
    let listed = |c: char| {
        let n = c as u32;
        (0x09..=0x0d).contains(&n)
            || n == 0x20
            || n == 0x85
            || n == 0xa0
            || n == 0x1680
            || (0x2000..=0x200a).contains(&n)
            || n == 0x2028
            || n == 0x2029
            || n == 0x202f
            || n == 0x205f
            || n == 0x3000
    };
    for n in 0..=0x10ffffu32 {
        if let Some(c) = char::from_u32(n) {
            assert_eq!(c.is_whitespace(), listed(c), "{:#x}", n);
        }
    }
}

#[test]
fn diagnostics_go_to_the_end_of_the_sink() {
    let mut reports = Vec::new();
    let mut first = Lexer::new("a.hv".to_string(), "@");
    first.lex_tokens(&mut reports);
    let mut second = Lexer::new("b.hv".to_string(), "x #");
    second.lex_tokens(&mut reports);
    assert_eq!(reports.len(), 2);
    assert_eq!(reports[0].title(), "UnexpectedCharacter: '@'");
    assert_eq!(reports[0].span().filename, "a.hv");
    assert_eq!(reports[1].title(), "UnexpectedCharacter: '#'");
    assert_eq!(reports[1].span().filename, "b.hv");
    assert_eq!((reports[1].span().start, reports[1].span().end), (2, 2));
    assert!(first.had_error());
    assert!(second.had_error());
    assert_eq!(second.tokens().len(), 2);
}

#[test]
fn scanning_on_after_the_end_adds_an_end_token() {
    let mut reports = Vec::new();
    let mut lexer = Lexer::new("a.hv".to_string(), "x");
    assert!(lexer.tokens().is_empty());
    assert!(!lexer.had_error());
    lexer.lex_tokens(&mut reports);
    lexer.lex_tokens(&mut reports);
    assert_eq!(
        kinds(lexer.tokens()),
        vec![TokenKind::Identifier, TokenKind::EOF, TokenKind::EOF]
    );
    assert!(reports.is_empty());
}

#[test]
fn rejection_shows_the_character_as_given() {
    let span = haven::span::Span::location(7, "main.hv".to_string());
    let report = haven::lexer::rejection(span, "<?>".to_string());
    assert_eq!(report.kind(), ErrorReportKind::UnexpectedCharacter);
    assert_eq!(report.title(), "UnexpectedCharacter: <?>");
    assert_eq!((report.span().start, report.span().end), (7, 7));
    let labels = report.labels();
    assert_eq!(labels.len(), 1);
    assert_eq!(labels[0].message.as_deref(), Some("Not a valid character."));
    assert_eq!(labels[0].color, Some(Color::Red));
    assert_eq!(labels[0].order, 0);
    assert_eq!((labels[0].span.start, labels[0].span.end), (7, 7));
    assert!(report.debug_labels().is_empty());
    assert!(report.note().is_none());
}

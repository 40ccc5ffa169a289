use the_1337_lang::Lexer;
use the_1337_lang::NumberFormat;
use the_1337_lang::Token;
use the_1337_lang::TokenInfo;

fn scan(src: &str) -> Vec<TokenInfo> {
    let mut lexer = Lexer::new(src.to_string());
    let mut tokens = Vec::new();
    while let Some(info) = lexer.tokenize() {
        tokens.push(info);
    }
    tokens
}

fn tokens_of(src: &str) -> Vec<Token> {
    scan(src).into_iter().map(|info| info.token).collect()
}

#[test]
fn walrus_wins_over_colon() {
    assert_eq!(tokens_of(":="), vec![Token::Walrus]);
}

#[test]
fn colon_alone_stays_colon() {
    assert_eq!(
        tokens_of(":x"),
        vec![Token::Colon, Token::Identifier("x".to_string())]
    );
}

#[test]
fn colon_then_spaced_assign() {
    assert_eq!(tokens_of(": ="), vec![Token::Colon, Token::Assign]);
}

#[test]
fn all_fixed_symbols() {
    assert_eq!(
        tokens_of("; : = ( ) { } , * + - /"),
        vec![
            Token::SemiColon,
            Token::Colon,
            Token::Assign,
            Token::LeftParen,
            Token::RightParen,
            Token::LeftCurly,
            Token::RightCurly,
            Token::Comma,
            Token::Times,
            Token::Plus,
            Token::Minus,
            Token::DividedBy,
        ]
    );
}

#[test]
fn keywords_and_identifiers() {
    assert_eq!(
        tokens_of("extern return returns externa _x a1"),
        vec![
            Token::KwExtern,
            Token::KwReturn,
            Token::Identifier("returns".to_string()),
            Token::Identifier("externa".to_string()),
            Token::Identifier("_x".to_string()),
            Token::Identifier("a1".to_string()),
        ]
    );
}

#[test]
fn extern_declaration_token_stream() {
    assert_eq!(
        tokens_of("extern foo: i32;"),
        vec![
            Token::KwExtern,
            Token::Identifier("foo".to_string()),
            Token::Colon,
            Token::Identifier("i32".to_string()),
            Token::SemiColon,
        ]
    );
}

#[test]
fn empty_string_literal() {
    assert_eq!(tokens_of("\"\""), vec![Token::String("".to_string())]);
}

#[test]
fn single_quote_delimited_string() {
    assert_eq!(tokens_of("\"hi\""), vec![Token::String("hi".to_string())]);
}

#[test]
fn three_quote_delimited_string_round_trip() {
    assert_eq!(
        tokens_of("\"\"\"abc\"\"\""),
        vec![Token::String("abc".to_string())]
    );
}

#[test]
fn four_quotes_are_ambiguous() {
    assert_eq!(
        tokens_of("\"\"\"\""),
        vec![Token::Unknown("\"\"\"\"".to_string())]
    );
}

#[test]
fn unterminated_string_keeps_raw_text() {
    assert_eq!(tokens_of("\"abc"), vec![Token::Unknown("\"abc".to_string())]);
}

#[test]
fn decimal_number() {
    assert_eq!(
        tokens_of("42"),
        vec![Token::Number {
            value: "42".to_string(),
            format: NumberFormat::Decimal,
            is_float: false,
        }]
    );
}

#[test]
fn hex_number_keeps_leading_zero() {
    assert_eq!(
        tokens_of("0x1F"),
        vec![Token::Number {
            value: "01F".to_string(),
            format: NumberFormat::Hex,
            is_float: false,
        }]
    );
}

#[test]
fn octal_number() {
    assert_eq!(
        tokens_of("0o17"),
        vec![Token::Number {
            value: "017".to_string(),
            format: NumberFormat::Octal,
            is_float: false,
        }]
    );
}

#[test]
fn binary_number_stops_at_foreign_digit() {
    assert_eq!(
        tokens_of("0b102"),
        vec![
            Token::Number {
                value: "010".to_string(),
                format: NumberFormat::Binary,
                is_float: false,
            },
            Token::Number {
                value: "2".to_string(),
                format: NumberFormat::Decimal,
                is_float: false,
            },
        ]
    );
}

#[test]
fn float_number() {
    assert_eq!(
        tokens_of("3.14"),
        vec![Token::Number {
            value: "3.14".to_string(),
            format: NumberFormat::Decimal,
            is_float: true,
        }]
    );
}

#[test]
fn second_dot_ends_the_literal() {
    assert_eq!(
        tokens_of("1.2.3"),
        vec![
            Token::Number {
                value: "1.2".to_string(),
                format: NumberFormat::Decimal,
                is_float: true,
            },
            Token::Unknown(".".to_string()),
            Token::Number {
                value: "3".to_string(),
                format: NumberFormat::Decimal,
                is_float: false,
            },
        ]
    );
}

#[test]
fn unrecognized_characters_degrade_one_by_one() {
    assert_eq!(
        tokens_of("@#$%^"),
        vec![
            Token::Unknown("@".to_string()),
            Token::Unknown("#".to_string()),
            Token::Unknown("$".to_string()),
            Token::Unknown("%".to_string()),
            Token::Unknown("^".to_string()),
        ]
    );
}

#[test]
fn scan_of_garbage_terminates_within_input_length() {
    let source = "~`@@!?\u{7}";
    let count = scan(source).len();
    assert!(count <= source.chars().count());
    assert_eq!(count, 7);
}

#[test]
fn whitespace_only_yields_nothing() {
    assert_eq!(tokens_of("  \t\n\r  "), vec![]);
}

#[test]
fn positions_track_lines_and_columns() {
    let infos = scan("a\nbc");
    assert_eq!(infos.len(), 2);
    assert_eq!(infos[0].start_pos.index, 0);
    assert_eq!(infos[0].start_pos.line, 1);
    assert_eq!(infos[0].start_pos.column, 1);
    assert_eq!(infos[0].end_pos.index, 1);
    assert_eq!(infos[0].end_pos.line, 1);
    assert_eq!(infos[0].end_pos.column, 2);
    assert_eq!(infos[1].start_pos.index, 2);
    assert_eq!(infos[1].start_pos.line, 2);
    assert_eq!(infos[1].start_pos.column, 1);
    assert_eq!(infos[1].end_pos.index, 4);
    assert_eq!(infos[1].end_pos.line, 2);
    assert_eq!(infos[1].end_pos.column, 3);
}

#[test]
fn carriage_return_does_not_advance_the_column() {
    let infos = scan("\r\na");
    assert_eq!(infos.len(), 1);
    assert_eq!(infos[0].start_pos.line, 2);
    assert_eq!(infos[0].start_pos.column, 1);
}

#[test]
fn leading_whitespace_is_skipped() {
    let infos = scan("   x");
    assert_eq!(infos[0].start_pos.index, 3);
    assert_eq!(infos[0].start_pos.column, 4);
}

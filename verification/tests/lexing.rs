use vortlang::lexer::tokenize;
use vortlang::token::{Token, TokenType};

fn kinds(tokens: &[Token]) -> Vec<TokenType> {
    tokens.iter().map(|t| t.token_type.clone()).collect()
}

#[test]
fn tokenize_declaration_line() {
    let toks = tokenize("let g = \"hi\"\n", "t").unwrap();
    assert_eq!(
        kinds(&toks),
        vec![
            TokenType::Let,
            TokenType::Identifier("g".to_string()),
            TokenType::Equals,
            TokenType::StringLiteral("hi".to_string()),
            TokenType::Newline,
            TokenType::EOF,
        ]
    );
}

#[test]
fn tokenize_positions_are_one_based() {
    let toks = tokenize("num a = 1\nnum b = 2", "t").unwrap();
    assert_eq!((toks[0].line, toks[0].column), (1, 1));
    assert_eq!((toks[1].line, toks[1].column), (1, 5));
    assert_eq!((toks[3].line, toks[3].column), (1, 9));
    let second_num = &toks[5];
    assert_eq!(second_num.token_type, TokenType::Num);
    assert_eq!((second_num.line, second_num.column), (2, 1));
}

#[test]
fn tokenize_number_keeps_digits() {
    let toks = tokenize("num x = 3.14", "t").unwrap();
    assert_eq!(toks[3].token_type, TokenType::NumberLiteral("3.14".to_string()));
}

#[test]
fn tokenize_number_stops_at_second_dot() {
    // the number run ends before a second dot, which then has no reading
    let err = tokenize("num x = 1.2.3", "t").unwrap_err();
    assert!(err.contains("Unexpected character '.'"));
    assert!(err.contains("Error in t:1:12"));
    let toks = tokenize("num x = 1.2", "t").unwrap();
    assert_eq!(toks[3].token_type, TokenType::NumberLiteral("1.2".to_string()));
}

#[test]
fn tokenize_operator_keywords() {
    let toks = tokenize("2 plus 3 minus 4 times 5 multiply 6 divide 7", "t").unwrap();
    let ks = kinds(&toks);
    assert_eq!(ks[1], TokenType::Plus);
    assert_eq!(ks[3], TokenType::Minus);
    assert_eq!(ks[5], TokenType::Star);
    assert_eq!(ks[7], TokenType::Star);
    assert_eq!(ks[9], TokenType::Slash);
}

#[test]
fn tokenize_format_prefix_needs_adjacent_paren() {
    let toks = tokenize("print(o\"x\")", "t").unwrap();
    assert_eq!(kinds(&toks)[0..3].to_vec(), vec![
        TokenType::Print,
        TokenType::OpenParen,
        TokenType::FormatStringPrefix,
    ]);
    // with a space after 'print' the lookahead does not fire and the 'o' is
    // read as part of nothing: the literal arrives without the marker
    let toks2 = tokenize("print (\"x\")", "t").unwrap();
    assert_eq!(kinds(&toks2), vec![
        TokenType::Print,
        TokenType::OpenParen,
        TokenType::StringLiteral("x".to_string()),
        TokenType::CloseParen,
        TokenType::EOF,
    ]);
}

#[test]
fn tokenize_escapes_decoded() {
    let toks = tokenize("\"a\\n\\t\\r\\\\\\\"b\"", "t").unwrap();
    assert_eq!(
        toks[0].token_type,
        TokenType::StringLiteral("a\n\t\r\\\"b".to_string())
    );
}

#[test]
fn tokenize_invalid_escape_is_error() {
    let err = tokenize("\"a\\qb\"", "t").unwrap_err();
    assert!(err.contains("Invalid escape sequence '\\q'"));
    assert!(err.contains("Valid escape sequences are: \\n, \\t, \\r, \\\", \\\\"));
}

#[test]
fn tokenize_unterminated_literal_is_error() {
    let err = tokenize("let a = \"oops", "t").unwrap_err();
    assert!(err.contains("Unterminated string literal"));
    let err2 = tokenize("let a = \"oops\nprint(a)", "t").unwrap_err();
    assert!(err2.contains("Unterminated string literal"));
}

#[test]
fn tokenize_unexpected_character_is_error() {
    let err = tokenize("let a = 1 @", "t").unwrap_err();
    assert!(err.contains("Unexpected character '@'"));
    assert!(err.contains("Error in t:1:11"));
    assert!(err.contains("Remove or replace this character"));
}

#[test]
fn tokenize_format_prefix_demands_quote() {
    let err = tokenize("print(oops)", "t").unwrap_err();
    assert!(err.contains("Expected '\"' after 'o' prefix"));
}

#[test]
fn tokenize_error_shows_caret_context() {
    let err = tokenize("let a = ?", "path").unwrap_err();
    assert_eq!(
        err,
        "Error in path:1:9\n  Unexpected character '?'\n\n   1 | let a = ?\n     |         ^\n\nHint: Remove or replace this character\n"
    );
}

#[test]
fn tokenize_comment_runs_to_end_of_line() {
    let toks = tokenize("// all of this / is skipped\nnum a = 1", "t").unwrap();
    assert_eq!(kinds(&toks)[0], TokenType::Newline);
    assert_eq!(kinds(&toks)[1], TokenType::Num);
}

#[test]
fn tokenize_lone_slash_is_divide() {
    let toks = tokenize("6 / 2", "t").unwrap();
    assert_eq!(kinds(&toks)[1], TokenType::Slash);
}

#[test]
fn tokenize_empty_source_is_end_marker_only() {
    let toks = tokenize("", "t").unwrap();
    assert_eq!(kinds(&toks), vec![TokenType::EOF]);
    assert_eq!((toks[0].line, toks[0].column), (1, 1));
}

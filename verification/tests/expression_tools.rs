use vortlang::error::VortError;
use vortlang::expressions::{expression_to_postfix, shunting_yard};
use vortlang::tokenizer::{replace_operator_keywords, tokenize, Token};

fn names(tokens: &[Token]) -> Vec<String> {
    tokens
        .iter()
        .map(|t| match t {
            Token::Number(s) => format!("#{}", s),
            Token::Variable(s) => format!("${}", s),
            Token::Operator(s) => s.clone(),
            Token::LeftParen => "(".to_string(),
            Token::RightParen => ")".to_string(),
        })
        .collect()
}

#[test]
fn expression_tokenize_splits_terms() {
    let toks = tokenize("2 + ab * (3.5 - _x)").unwrap();
    assert_eq!(
        names(&toks),
        vec!["#2", "+", "$ab", "*", "(", "#3.5", "-", "$_x", ")"]
    );
}

#[test]
fn expression_tokenize_strips_underscores_in_numbers() {
    let toks = tokenize("1_000.5").unwrap();
    assert_eq!(names(&toks), vec!["#1000.5"]);
}

#[test]
fn expression_tokenize_rejects_double_dot() {
    let err = tokenize("1..2").unwrap_err();
    match err {
        VortError::ParseError(m) => assert_eq!(m, "invalid float literal"),
        other => panic!("unexpected error: {:?}", other),
    }
}

#[test]
fn expression_tokenize_rejects_stray_character() {
    let err = tokenize("1 + $").unwrap_err();
    match err {
        VortError::ParseError(m) => assert_eq!(m, "Unexpected character: $"),
        other => panic!("unexpected error: {:?}", other),
    }
}

#[test]
fn shunting_yard_orders_by_precedence() {
    let toks = tokenize("2 + 3 * 4").unwrap();
    let out = shunting_yard(toks).unwrap();
    assert_eq!(names(&out), vec!["#2", "#3", "#4", "*", "+"]);
}

#[test]
fn shunting_yard_left_associates_equal_precedence() {
    let toks = tokenize("9 - 4 - 2").unwrap();
    let out = shunting_yard(toks).unwrap();
    assert_eq!(names(&out), vec!["#9", "#4", "-", "#2", "-"]);
}

#[test]
fn shunting_yard_parentheses_override() {
    let toks = tokenize("(2 + 3) * 4").unwrap();
    let out = shunting_yard(toks).unwrap();
    assert_eq!(names(&out), vec!["#2", "#3", "+", "#4", "*"]);
}

#[test]
fn shunting_yard_extra_close_paren_fails() {
    let toks = tokenize("2 + 3)").unwrap();
    let err = shunting_yard(toks).unwrap_err();
    match err {
        VortError::EvalError(m) => assert_eq!(m, "Mismatched parentheses"),
        other => panic!("unexpected error: {:?}", other),
    }
}

#[test]
fn shunting_yard_unclosed_paren_fails() {
    let toks = tokenize("(2 + 3").unwrap();
    let err = shunting_yard(toks).unwrap_err();
    match err {
        VortError::EvalError(m) => assert_eq!(m, "Mismatched parentheses"),
        other => panic!("unexpected error: {:?}", other),
    }
}

#[test]
fn replace_operator_keywords_rewrites_whole_words() {
    assert_eq!(replace_operator_keywords("2 plus 3"), "2 + 3");
    assert_eq!(replace_operator_keywords("a minus b times c divide d"), "a - b * c / d");
    assert_eq!(replace_operator_keywords("x multiply y"), "x * y");
    // only whole words are rewritten
    assert_eq!(replace_operator_keywords("surplus plusher"), "surplus plusher");
    assert_eq!(replace_operator_keywords(""), "");
}

#[test]
fn expression_to_postfix_goes_through_keyword_rewrite() {
    // if the keyword rewrite handed its input back unchanged, 'plus' would
    // arrive as a variable and no operator would reach the output
    let out = expression_to_postfix("2 plus 3").unwrap();
    assert_eq!(names(&out), vec!["#2", "#3", "+"]);
}

#[test]
fn expression_to_postfix_reports_parse_fault() {
    let err = expression_to_postfix("2 + #").unwrap_err();
    match err {
        VortError::ParseError(m) => assert_eq!(m, "Unexpected character: #"),
        other => panic!("unexpected error: {:?}", other),
    }
}

#[test]
fn expression_to_postfix_reports_paren_fault() {
    let err = expression_to_postfix("(2 plus 3").unwrap_err();
    match err {
        VortError::EvalError(m) => assert_eq!(m, "Mismatched parentheses"),
        other => panic!("unexpected error: {:?}", other),
    }
}

#[test]
fn vort_error_describe_prefixes_category() {
    assert_eq!(
        VortError::ParseError("bad".to_string()).describe(),
        "Parse Error: bad"
    );
    assert_eq!(
        VortError::EvalError("bad".to_string()).describe(),
        "Evaluation Error: bad"
    );
    assert_eq!(
        VortError::RuntimeError("bad".to_string()).describe(),
        "Runtime Error: bad"
    );
}

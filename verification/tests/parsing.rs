use vortlang::ast::{BinaryOperator, Expression, FormatPart, NumExpression, Statement};
use vortlang::lexer::tokenize;
use vortlang::parser::{parse, Parser};

fn parse_source(source: &str) -> Result<Vec<Statement>, String> {
    let tokens = tokenize(source, "t").unwrap();
    let mut parser = Parser::new(tokens, source.to_string(), "t".to_string());
    parser.parse()
}

#[test]
fn parse_text_declaration() {
    let ast = parse_source("let g = \"hi\"\n").unwrap();
    assert_eq!(
        ast,
        vec![Statement::VariableDeclaration(
            "g".to_string(),
            Expression::StringLiteral("hi".to_string()),
            1
        )]
    );
}

#[test]
fn parse_numeric_declaration_with_precedence() {
    let ast = parse_source("num a = 2 + 3 * 4\n").unwrap();
    let product = NumExpression::BinaryOp(
        Box::new(NumExpression::NumberLiteral("3".to_string())),
        BinaryOperator::Multiply,
        Box::new(NumExpression::NumberLiteral("4".to_string())),
    );
    let sum = NumExpression::BinaryOp(
        Box::new(NumExpression::NumberLiteral("2".to_string())),
        BinaryOperator::Add,
        Box::new(product),
    );
    assert_eq!(ast, vec![Statement::NumDeclaration("a".to_string(), sum, 1)]);
}

#[test]
fn parse_left_associative_subtraction() {
    let ast = parse_source("num a = 9 - 4 - 2\n").unwrap();
    let first = NumExpression::BinaryOp(
        Box::new(NumExpression::NumberLiteral("9".to_string())),
        BinaryOperator::Subtract,
        Box::new(NumExpression::NumberLiteral("4".to_string())),
    );
    let whole = NumExpression::BinaryOp(
        Box::new(first),
        BinaryOperator::Subtract,
        Box::new(NumExpression::NumberLiteral("2".to_string())),
    );
    assert_eq!(ast, vec![Statement::NumDeclaration("a".to_string(), whole, 1)]);
}

#[test]
fn parse_grouping_node_for_parentheses() {
    let ast = parse_source("num a = (1 + 2) * 3\n").unwrap();
    match &ast[0] {
        Statement::NumDeclaration(_, NumExpression::BinaryOp(l, BinaryOperator::Multiply, _), _) => {
            assert!(matches!(**l, NumExpression::Grouping(_)));
        },
        other => panic!("unexpected statement: {:?}", other),
    }
}

#[test]
fn parse_format_string_parts() {
    let ast = parse_source("num a = 1\nprint(o\"v={a} end {callfn f()}\")\n").unwrap();
    match &ast[1] {
        Statement::PrintFormat(parts) => {
            assert_eq!(
                parts,
                &vec![
                    FormatPart::Literal("v=".to_string()),
                    FormatPart::Expression(Expression::Variable("a".to_string())),
                    FormatPart::Literal(" end ".to_string()),
                    FormatPart::Expression(Expression::FunctionCall("f".to_string())),
                ]
            );
        },
        other => panic!("unexpected statement: {:?}", other),
    }
}

#[test]
fn parse_print_variable_reference() {
    let ast = parse_source("print(g)\n").unwrap();
    assert_eq!(ast, vec![Statement::Print(Expression::Variable("g".to_string()))]);
}

#[test]
fn parse_routine_definition_and_call() {
    let ast = parse_source("newfn fn greet() { print(\"hello\") }\ncallfn greet()\n").unwrap();
    assert_eq!(
        ast,
        vec![
            Statement::FunctionDefinition(
                "greet".to_string(),
                vec![Statement::Print(Expression::StringLiteral("hello".to_string()))],
            ),
            Statement::FunctionCall("greet".to_string()),
        ]
    );
}

#[test]
fn parse_assignment_prefers_numeric() {
    // a bare name on the right-hand side resolves as a numeric reassignment
    let ast = parse_source("a = b\n").unwrap();
    assert_eq!(
        ast,
        vec![Statement::NumAssignment(
            "a".to_string(),
            NumExpression::Variable("b".to_string()),
            1
        )]
    );
}

#[test]
fn parse_assignment_falls_back_to_text() {
    let ast = parse_source("a = \"text\"\n").unwrap();
    assert_eq!(
        ast,
        vec![Statement::VariableAssignment(
            "a".to_string(),
            Expression::StringLiteral("text".to_string()),
            1
        )]
    );
}

#[test]
fn parse_invalid_assignment_names_variable() {
    let err = parse_source("a = =\n").unwrap_err();
    assert!(err.contains("Invalid assignment to variable 'a'"));
    assert!(err.contains("Variables can only be assigned string or numeric values"));
}

#[test]
fn parse_expected_statement_error() {
    let err = parse_source(") what\n").unwrap_err();
    assert!(err.contains("Expected statement"));
    assert!(err.contains("Valid statements are 'print', 'let', 'num', 'newfn', or 'callfn'"));
}

#[test]
fn parse_unclosed_brace_in_format_string() {
    let err = parse_source("print(o\"x={a\")\n").unwrap_err();
    assert!(err.contains("Unclosed '{' in format string"));
}

#[test]
fn parse_invalid_function_name_in_format_string() {
    let err = parse_source("print(o\"{callfn a b()}\")\n").unwrap_err();
    assert!(err.contains("Invalid function name 'a b'"));
}

#[test]
fn parse_format_call_needs_parens() {
    let err = parse_source("print(o\"{callfn beep}\")\n").unwrap_err();
    assert!(err.contains("Expected '()' after function name"));
}

#[test]
fn parse_missing_close_paren() {
    let err = parse_source("num a = (1 + 2\n").unwrap_err();
    assert!(err.contains("Expected ')' after expression"));
}

#[test]
fn parse_free_function_uses_empty_context() {
    let tokens = tokenize("let g = \"hi\"", "ignored").unwrap();
    let ast = parse(tokens).unwrap();
    assert_eq!(ast.len(), 1);
    let tokens2 = tokenize("let = \"hi\"", "ignored").unwrap();
    let err = parse(tokens2).unwrap_err();
    assert!(err.starts_with("Error in :1:5\n"));
    assert!(err.contains("Expected variable name"));
}

#[test]
fn parse_blank_lines_between_statements() {
    let ast = parse_source("\n\nlet a = \"x\"\n\n\nprint(a)\n\n").unwrap();
    assert_eq!(ast.len(), 2);
}

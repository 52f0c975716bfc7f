use vortlang::ast::{BinaryOperator, Expression, FormatPart, NumExpression, Statement};
use vortlang::codegen::{escape_string, generate_c_code};

#[test]
fn escape_string_round_trip_characters() {
    assert_eq!(escape_string("plain"), "plain");
    assert_eq!(escape_string("a\\b"), "a\\\\b");
    assert_eq!(escape_string("a\"b"), "a\\\"b");
    assert_eq!(escape_string("a\nb\tc\rd"), "a\\nb\\tc\\rd");
    assert_eq!(escape_string(""), "");
}

#[test]
fn generate_numeric_lowering_always_parenthesizes() {
    let e = NumExpression::BinaryOp(
        Box::new(NumExpression::NumberLiteral("2".to_string())),
        BinaryOperator::Add,
        Box::new(NumExpression::BinaryOp(
            Box::new(NumExpression::NumberLiteral("3".to_string())),
            BinaryOperator::Multiply,
            Box::new(NumExpression::NumberLiteral("4".to_string())),
        )),
    );
    let ast = vec![
        Statement::NumDeclaration("a".to_string(), e, 1),
    ];
    let code = generate_c_code(&ast).unwrap();
    assert!(code.contains("    a = (2+(3*4));\n"));
}

#[test]
fn generate_undeclared_numeric_reference_fails() {
    let ast = vec![
        Statement::NumDeclaration(
            "a".to_string(),
            NumExpression::Variable("ghost_name".to_string()),
            1,
        ),
    ];
    let err = generate_c_code(&ast).unwrap_err();
    assert_eq!(err, "Numerical variable 'ghost_name' used before declaration");
}

#[test]
fn generate_text_assignment_checks_namespace() {
    let ast = vec![
        Statement::VariableAssignment(
            "t".to_string(),
            Expression::StringLiteral("x".to_string()),
            1,
        ),
    ];
    let err = generate_c_code(&ast).unwrap_err();
    assert_eq!(err, "Variable 't' assigned before declaration");
}

#[test]
fn generate_print_picks_specifier_by_namespace() {
    let ast = vec![
        Statement::VariableDeclaration(
            "t".to_string(),
            Expression::StringLiteral("x".to_string()),
            1,
        ),
        Statement::NumDeclaration(
            "n".to_string(),
            NumExpression::NumberLiteral("1".to_string()),
            2,
        ),
        Statement::Print(Expression::Variable("t".to_string())),
        Statement::Print(Expression::Variable("n".to_string())),
    ];
    let code = generate_c_code(&ast).unwrap();
    assert!(code.contains("    printf(\"%s\\n\", t);\n"));
    assert!(code.contains("    printf(\"%g\\n\", n);\n"));
}

#[test]
fn generate_interpolation_specifier_by_namespace() {
    let ast = vec![
        Statement::VariableDeclaration(
            "t".to_string(),
            Expression::StringLiteral("x".to_string()),
            1,
        ),
        Statement::NumDeclaration(
            "n".to_string(),
            NumExpression::NumberLiteral("1".to_string()),
            2,
        ),
        Statement::PrintFormat(vec![
            FormatPart::Expression(Expression::Variable("t".to_string())),
            FormatPart::Expression(Expression::Variable("n".to_string())),
        ]),
    ];
    let code = generate_c_code(&ast).unwrap();
    assert!(code.contains("    printf(\"%s\", t);    printf(\"%g\", n);    printf(\"\\n\");\n"));
}

#[test]
fn generate_interpolated_undeclared_fails_with_name() {
    let ast = vec![
        Statement::PrintFormat(vec![
            FormatPart::Expression(Expression::Variable("missing".to_string())),
        ]),
    ];
    let err = generate_c_code(&ast).unwrap_err();
    assert_eq!(err, "Variable 'missing' used before declaration");
}

#[test]
fn generate_routines_come_before_entry_point() {
    let ast = vec![
        Statement::FunctionCall("later".to_string()),
        Statement::FunctionDefinition(
            "later".to_string(),
            vec![Statement::Print(Expression::StringLiteral("x".to_string()))],
        ),
    ];
    let code = generate_c_code(&ast).unwrap();
    let def = code.find("void later(void)").unwrap();
    let main_at = code.find("int main()").unwrap();
    assert!(def < main_at);
    assert!(code.contains("    later();\n"));
}

#[test]
fn generate_globals_collect_from_bodies() {
    let ast = vec![
        Statement::FunctionDefinition(
            "f".to_string(),
            vec![Statement::VariableDeclaration(
                "inner_name".to_string(),
                Expression::StringLiteral("v".to_string()),
                1,
            )],
        ),
    ];
    let code = generate_c_code(&ast).unwrap();
    assert!(code.contains("char* inner_name;\n"));
}

#[test]
fn generate_duplicate_declarations_merge() {
    let ast = vec![
        Statement::NumDeclaration(
            "n".to_string(),
            NumExpression::NumberLiteral("1".to_string()),
            1,
        ),
        Statement::NumDeclaration(
            "n".to_string(),
            NumExpression::NumberLiteral("2".to_string()),
            2,
        ),
    ];
    let code = generate_c_code(&ast).unwrap();
    assert_eq!(code.matches("double n;\n").count(), 1);
    assert!(code.contains("    n = 1;\n    n = 2;\n"));
}

#[test]
fn generate_text_declaration_from_text_variable() {
    let ast = vec![
        Statement::VariableDeclaration(
            "a".to_string(),
            Expression::StringLiteral("x".to_string()),
            1,
        ),
        Statement::VariableDeclaration(
            "b".to_string(),
            Expression::Variable("a".to_string()),
            2,
        ),
    ];
    let code = generate_c_code(&ast).unwrap();
    assert!(code.contains("    b = a;\n"));
}

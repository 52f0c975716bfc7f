use vortlang::ast::{analyze, Expression, FormatPart, NumExpression, Statement};

#[test]
fn unused_variable_gets_exactly_one_warning() {
    let ast = vec![
        Statement::VariableDeclaration(
            "g".to_string(),
            Expression::StringLiteral("hi".to_string()),
            3,
        ),
    ];
    let (back, warnings) = analyze(ast);
    assert_eq!(back.len(), 1);
    assert_eq!(warnings, vec!["Unused variable 'g' at line 3".to_string()]);
}

#[test]
fn used_variable_gets_no_warning() {
    let ast = vec![
        Statement::VariableDeclaration(
            "g".to_string(),
            Expression::StringLiteral("hi".to_string()),
            1,
        ),
        Statement::Print(Expression::Variable("g".to_string())),
    ];
    let (_, warnings) = analyze(ast);
    assert!(warnings.is_empty());
}

#[test]
fn use_inside_routine_body_counts() {
    let ast = vec![
        Statement::NumDeclaration(
            "n".to_string(),
            NumExpression::NumberLiteral("1".to_string()),
            1,
        ),
        Statement::FunctionDefinition(
            "f".to_string(),
            vec![Statement::NumAssignment(
                "n".to_string(),
                NumExpression::BinaryOp(
                    Box::new(NumExpression::Variable("n".to_string())),
                    vortlang::ast::BinaryOperator::Add,
                    Box::new(NumExpression::NumberLiteral("1".to_string())),
                ),
                2,
            )],
        ),
    ];
    let (_, warnings) = analyze(ast);
    assert!(warnings.is_empty());
}

#[test]
fn first_declaration_line_is_cited() {
    let ast = vec![
        Statement::NumDeclaration(
            "n".to_string(),
            NumExpression::NumberLiteral("1".to_string()),
            2,
        ),
        Statement::NumDeclaration(
            "n".to_string(),
            NumExpression::NumberLiteral("5".to_string()),
            7,
        ),
    ];
    let (_, warnings) = analyze(ast);
    assert_eq!(warnings, vec!["Unused variable 'n' at line 2".to_string()]);
}

#[test]
fn text_initializer_reference_is_not_a_use() {
    // referencing a name in the right-hand side of a text declaration does
    // not count as a use; only prints, interpolations and numeric
    // expressions do
    let ast = vec![
        Statement::VariableDeclaration(
            "a".to_string(),
            Expression::StringLiteral("x".to_string()),
            1,
        ),
        Statement::VariableDeclaration(
            "b".to_string(),
            Expression::Variable("a".to_string()),
            2,
        ),
        Statement::Print(Expression::Variable("b".to_string())),
    ];
    let (_, warnings) = analyze(ast);
    assert_eq!(warnings, vec!["Unused variable 'a' at line 1".to_string()]);
}

#[test]
fn interpolated_variable_counts_as_use() {
    let ast = vec![
        Statement::NumDeclaration(
            "v".to_string(),
            NumExpression::NumberLiteral("4".to_string()),
            1,
        ),
        Statement::PrintFormat(vec![
            FormatPart::Literal("v=".to_string()),
            FormatPart::Expression(Expression::Variable("v".to_string())),
        ]),
    ];
    let (_, warnings) = analyze(ast);
    assert!(warnings.is_empty());
}

#[test]
fn interpolated_routine_call_is_not_a_variable_use() {
    let ast = vec![
        Statement::NumDeclaration(
            "f".to_string(),
            NumExpression::NumberLiteral("4".to_string()),
            1,
        ),
        Statement::PrintFormat(vec![
            FormatPart::Expression(Expression::FunctionCall("f".to_string())),
        ]),
    ];
    let (_, warnings) = analyze(ast);
    assert_eq!(warnings, vec!["Unused variable 'f' at line 1".to_string()]);
}

#[test]
fn warnings_follow_declaration_order() {
    let ast = vec![
        Statement::NumDeclaration(
            "x".to_string(),
            NumExpression::NumberLiteral("1".to_string()),
            1,
        ),
        Statement::NumDeclaration(
            "y".to_string(),
            NumExpression::NumberLiteral("2".to_string()),
            2,
        ),
    ];
    let (_, warnings) = analyze(ast);
    assert_eq!(
        warnings,
        vec![
            "Unused variable 'x' at line 1".to_string(),
            "Unused variable 'y' at line 2".to_string(),
        ]
    );
}

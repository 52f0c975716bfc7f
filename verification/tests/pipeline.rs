use vortlang::compile;

const HEADER: &str = "#include <stdio.h>\n#include <stdlib.h>\n#include <string.h>\n#include <math.h>\n\n";

#[test]
fn scenario_print_text_variable() {
    let source = "let g = \"hi\"\nprint(g)\n";
    let (code, warnings) = compile(source, "main").expect("program should compile");
    let expected = format!(
        "{}char* g;\n\nint main() {{\n    g = \"hi\";\n    printf(\"%s\\n\", g);\n    return 0;\n}}\n",
        HEADER
    );
    assert_eq!(code, expected);
    assert!(warnings.is_empty());
    assert!(code.contains("printf(\"%s\\n\", g);"));
}

#[test]
fn scenario_interpolated_numeric_variable() {
    let source = "num a = 10\nnum b = 3\nprint(o\"sum={a}\")\n";
    let (code, warnings) = compile(source, "main").expect("program should compile");
    let expected = format!(
        "{}double a;\ndouble b;\n\nint main() {{\n    a = 10;\n    b = 3;\n    printf(\"%s\", \"sum=\");    printf(\"%g\", a);    printf(\"\\n\");\n    return 0;\n}}\n",
        HEADER
    );
    assert_eq!(code, expected);
    assert_eq!(warnings, vec!["Unused variable 'b' at line 2".to_string()]);
}

#[test]
fn scenario_numeric_expression_is_parenthesized() {
    let source = "num a = 10\nnum b = 3\nnum c = a + b\nprint(c)\n";
    let (code, _warnings) = compile(source, "main").expect("program should compile");
    assert!(code.contains("    c = (a+b);\n"));
    assert!(code.contains("printf(\"%g\\n\", c);"));
}

#[test]
fn scenario_interpolated_arithmetic_is_rejected() {
    // Interpolation takes a bare name or a routine call; an operation inside
    // the braces is a syntax fault naming the offending content.
    let source = "num a = 10\nnum b = 3\nprint(o\"sum={a + b}\")\n";
    let err = compile(source, "main").unwrap_err();
    assert!(err.contains("Invalid expression in format string: 'a + b'"));
}

#[test]
fn scenario_routine_defined_and_called() {
    let source = "newfn fn greet() { print(\"hello\") }\ncallfn greet()\n";
    let (code, warnings) = compile(source, "main").expect("program should compile");
    let expected = format!(
        "{}\nvoid greet(void) {{\n    printf(\"%s\\n\", \"hello\");\n}}\n\nint main() {{\n    greet();\n    return 0;\n}}\n",
        HEADER
    );
    assert_eq!(code, expected);
    assert!(warnings.is_empty());
    let greet_def = code.find("void greet(void)").unwrap();
    let greet_call = code.rfind("    greet();").unwrap();
    assert!(greet_def < greet_call);
}

#[test]
fn scenario_undeclared_print_fails_generation() {
    let source = "print(x)\n";
    let err = compile(source, "main").unwrap_err();
    assert_eq!(err, "Variable 'x' used before declaration");
}

#[test]
fn scenario_nested_definition_fails_parsing() {
    let source = "newfn fn outer() { newfn fn inner() {} }\n";
    let err = compile(source, "main").unwrap_err();
    assert!(err.contains("Nested function definitions are not allowed"));
    assert!(err.contains("Functions cannot be defined inside other functions"));
}

#[test]
fn namespace_exclusivity_text_then_numeric() {
    let source = "let x = \"hi\"\nnum y = x + 1\nprint(y)\n";
    let err = compile(source, "main").unwrap_err();
    assert_eq!(err, "Numerical variable 'x' used before declaration");
}

#[test]
fn namespace_exclusivity_numeric_then_text() {
    let source = "num x = 1\nlet y = x\nprint(y)\n";
    let err = compile(source, "main").unwrap_err();
    assert_eq!(err, "Variable 'x' used before declaration");
}

#[test]
fn reassignment_lowers_to_assignment() {
    let source = "num a = 1\na = a * 2\nprint(a)\n";
    let (code, warnings) = compile(source, "main").expect("program should compile");
    assert!(code.contains("    a = 1;\n"));
    assert!(code.contains("    a = (a*2);\n"));
    assert!(warnings.is_empty());
}

#[test]
fn reassignment_before_declaration_fails() {
    let source = "a = 2\n";
    let err = compile(source, "main").unwrap_err();
    assert_eq!(err, "Numerical variable 'a' assigned before declaration");
}

#[test]
fn text_reassignment_keeps_text_namespace() {
    let source = "let t = \"a\"\nt = \"b\"\nprint(t)\n";
    let (code, _) = compile(source, "main").expect("program should compile");
    assert!(code.contains("    t = \"a\";\n"));
    assert!(code.contains("    t = \"b\";\n"));
}

#[test]
fn declaration_inside_routine_is_global() {
    // a name declared inside a routine body lands in the global pool and a
    // top-level reference to it resolves
    let source = "newfn fn setup() { num v = 7 }\ncallfn setup()\nprint(v)\n";
    let (code, warnings) = compile(source, "main").expect("program should compile");
    assert!(code.contains("double v;\n"));
    assert!(code.contains("void setup(void) {\n    v = 7;\n}\n\n"));
    assert!(code.contains("printf(\"%g\\n\", v);"));
    assert!(warnings.is_empty());
}

#[test]
fn operator_keyword_aliases_parse() {
    let source = "num a = 2 plus 3 times 4\nprint(a)\n";
    let (code, _) = compile(source, "main").expect("program should compile");
    assert!(code.contains("    a = (2+(3*4));\n"));
}

#[test]
fn escaped_literal_is_escaped_in_output() {
    let source = "print(\"a\\\\b\\\"c\\nd\")\n";
    let (code, _) = compile(source, "main").expect("program should compile");
    assert!(code.contains("    printf(\"%s\\n\", \"a\\\\b\\\"c\\nd\");\n"));
}

#[test]
fn comments_and_blank_lines_are_skipped() {
    let source = "// greeting\n\nlet g = \"hi\" // trailing\n\nprint(g)\n";
    let (code, warnings) = compile(source, "main").expect("program should compile");
    assert!(code.contains("    g = \"hi\";\n"));
    assert!(warnings.is_empty());
}

#[test]
fn empty_source_compiles_to_empty_entry_point() {
    let (code, warnings) = compile("", "main").expect("empty program should compile");
    let expected = format!("{}\nint main() {{\n    return 0;\n}}\n", HEADER);
    assert_eq!(code, expected);
    assert!(warnings.is_empty());
}

#[test]
fn interpolated_routine_call_lowers_to_call() {
    let source = "newfn fn beep() { print(\"beep\") }\nprint(o\"x{callfn beep()}y\")\n";
    let (code, _) = compile(source, "main").expect("program should compile");
    assert!(code.contains("    printf(\"%s\", \"x\");    beep();    printf(\"%s\", \"y\");    printf(\"\\n\");\n"));
}

#[test]
fn grouping_always_emits_parentheses() {
    let source = "num a = (2 + 3) * 4\nprint(a)\n";
    let (code, _) = compile(source, "main").expect("program should compile");
    assert!(code.contains("    a = (((2+3))*4);\n"));
}

#[test]
fn precedence_binds_multiplication_tighter() {
    let source = "num a = 2 + 3 * 4\nprint(a)\n";
    let (code, _) = compile(source, "main").expect("program should compile");
    // evaluates to 14 under any correct evaluator, never 20
    assert!(code.contains("    a = (2+(3*4));\n"));
}

#[test]
fn compile_renders_lexical_fault_with_position() {
    let err = compile("let a = \"x\nprint(a)\n", "prog").unwrap_err();
    assert!(err.starts_with("Error in prog:1:9\n"));
    assert!(err.contains("Unterminated string literal"));
    assert!(err.contains("Add a closing quote to complete the string"));
}

#[test]
fn compile_renders_syntax_fault_with_position() {
    let err = compile("let a = \"x\"\nnum = 2\n", "prog").unwrap_err();
    assert!(err.starts_with("Error in prog:2:5\n"));
    assert!(err.contains("Expected variable name after 'num'"));
    assert!(err.contains("Check your syntax and try again"));
}

#[test]
fn compile_generation_fault_has_no_position() {
    let err = compile("print(nowhere)\n", "prog").unwrap_err();
    assert_eq!(err, "Variable 'nowhere' used before declaration");
    assert!(!err.contains("Error in"));
}

#[test]
fn compile_stops_at_first_fault() {
    // the lexical fault on line 1 wins over the syntax fault on line 2
    let err = compile("let a = @\nnum = 2\n", "prog").unwrap_err();
    assert!(err.contains("Unexpected character '@'"));
}

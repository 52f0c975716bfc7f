use vortlang::errors::{format_error, ErrorPosition};
use vortlang::report::{with_span, SourceSpan, VortError, VortErrorKind};
use vortlang::strutil::u64_to_string;
use vortlang::timefmt::format_duration;

#[test]
fn format_error_full_shape() {
    let rendered = format_error(
        "demo",
        "num a = ?\n",
        ErrorPosition { line: 1, column: 9 },
        "Unexpected character '?'".to_string(),
        "Remove or replace this character".to_string(),
    );
    assert_eq!(
        rendered,
        "Error in demo:1:9\n  Unexpected character '?'\n\n   1 | num a = ?\n     |         ^\n\nHint: Remove or replace this character\n"
    );
}

#[test]
fn format_error_without_context_line() {
    let rendered = format_error(
        "demo",
        "one line",
        ErrorPosition { line: 5, column: 2 },
        "m".to_string(),
        "h".to_string(),
    );
    assert_eq!(rendered, "Error in demo:5:2\n  m\n\nHint: h\n");
}

#[test]
fn format_error_strips_carriage_return_from_line() {
    let rendered = format_error(
        "d",
        "ab\r\ncd",
        ErrorPosition { line: 1, column: 1 },
        "m".to_string(),
        "h".to_string(),
    );
    assert!(rendered.contains("   1 | ab\n"));
}

#[test]
fn report_error_constructors() {
    let e = VortError::parse_error("broken".to_string());
    assert!(matches!(e.kind, VortErrorKind::InvalidSyntax(ref m) if m == "broken"));
    assert_eq!(e.message, "Parse Error: broken");
    assert!(e.span.is_none());

    let e = VortError::eval_error("bad".to_string());
    assert_eq!(e.message, "Evaluation Error: bad");

    let e = VortError::runtime_error("oops".to_string());
    assert_eq!(e.message, "Runtime Error: oops");

    let e = VortError::undefined_variable("ghost".to_string());
    assert!(matches!(e.kind, VortErrorKind::UndefinedVariable(ref m) if m == "ghost"));
    assert_eq!(e.message, "Undefined variable: 'ghost'");

    let e = VortError::type_mismatch("number", "string", "Variable 'v'");
    assert!(matches!(e.kind, VortErrorKind::TypeMismatch(ref m) if m == "Expected number, got string"));
    assert_eq!(e.message, "Type mismatch in Variable 'v': expected number, got string");
}

#[test]
fn report_error_span_rendering() {
    let plain = VortError::new(VortErrorKind::DivisionByZero, "Division by zero".to_string());
    assert_eq!(plain.describe(), "Division by zero");

    let spanned = with_span(
        VortError::new(VortErrorKind::DivisionByZero, "Division by zero".to_string()),
        4,
        11,
        1,
    );
    assert_eq!(spanned.describe(), "[Line 4, Column 11] Division by zero");
    let s = spanned.span.unwrap();
    assert_eq!((s.line, s.column, s.length), (4, 11, 1));
}

#[test]
fn source_span_new_keeps_fields() {
    let s = SourceSpan::new(2, 3, 4);
    assert_eq!((s.line, s.column, s.length), (2, 3, 4));
}

#[test]
fn duration_formatting_units() {
    assert_eq!(format_duration(0), "0s");
    assert_eq!(format_duration(5), "5s");
    assert_eq!(format_duration(59), "59s");
    assert_eq!(format_duration(60), "1m");
    assert_eq!(format_duration(3599), "59m");
    assert_eq!(format_duration(3600), "1h");
    assert_eq!(format_duration(7322), "2h");
}

#[test]
fn decimal_rendering() {
    assert_eq!(u64_to_string(0), "0");
    assert_eq!(u64_to_string(7), "7");
    assert_eq!(u64_to_string(105), "105");
    assert_eq!(u64_to_string(18446744073709551615), "18446744073709551615");
}

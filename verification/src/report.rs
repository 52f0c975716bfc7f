use vstd::prelude::*;
use vstd::string::StringExecFns;
use crate::strutil::{lit, push_dec, spec_dec};

verus! {

// A structured error type: a kind, a rendered message, and an optional
// source span, with constructors for the common categories.

#[derive(Debug)]
pub struct SourceSpan {
    pub line: usize,
    pub column: usize,
    pub length: usize,
}

impl SourceSpan {
    pub fn new(line: usize, column: usize, length: usize) -> (s: SourceSpan)
        ensures
            s.line == line,
            s.column == column,
            s.length == length,
    {
        SourceSpan { line, column, length }
    }
}

#[derive(Debug)]
pub enum VortErrorKind {
    UnexpectedToken(String),
    MissingToken(String),
    InvalidSyntax(String),
    UndefinedVariable(String),
    TypeMismatch(String),
    DivisionByZero,
    MismatchedParentheses,
    InvalidOperation(String),
    VariableRedefinition(String),
    TypeConversionError(String),
    /// An input or output fault, carried as its rendered text.
    IOError(String),
    Internal(String),
}

#[derive(Debug)]
pub struct VortError {
    pub kind: VortErrorKind,
    pub message: String,
    pub span: Option<SourceSpan>,
}

impl VortError {
    pub fn new(kind: VortErrorKind, message: String) -> (e: VortError)
        ensures
            e.kind == kind,
            e.message == message,
            e.span is None,
    {
        VortError { kind, message, span: None }
    }

    pub fn with_span(self, span: SourceSpan) -> (e: VortError)
        ensures
            e.kind == self.kind,
            e.message == self.message,
            e.span == Some(span),
    {
        VortError { kind: self.kind, message: self.message, span: Some(span) }
    }

    /// A syntax fault: the message is carried in the kind and prefixed in
    /// the rendered text.
    pub fn parse_error(message: String) -> (e: VortError)
        ensures
            e.kind matches VortErrorKind::InvalidSyntax(k) && k@ == message@,
            e.message@ == "Parse Error: "@ + message@,
            e.span is None,
    {
        let mut text = lit("Parse Error: ");
        text.append(message.as_str());
        VortError::new(VortErrorKind::InvalidSyntax(message), text)
    }

    /// An evaluation fault.
    pub fn eval_error(message: String) -> (e: VortError)
        ensures
            e.kind matches VortErrorKind::InvalidOperation(k) && k@ == message@,
            e.message@ == "Evaluation Error: "@ + message@,
            e.span is None,
    {
        let mut text = lit("Evaluation Error: ");
        text.append(message.as_str());
        VortError::new(VortErrorKind::InvalidOperation(message), text)
    }

    /// Any other fault at run time.
    pub fn runtime_error(message: String) -> (e: VortError)
        ensures
            e.kind matches VortErrorKind::Internal(k) && k@ == message@,
            e.message@ == "Runtime Error: "@ + message@,
            e.span is None,
    {
        let mut text = lit("Runtime Error: ");
        text.append(message.as_str());
        VortError::new(VortErrorKind::Internal(message), text)
    }

    /// A reference to a name with no value.
    pub fn undefined_variable(name: String) -> (e: VortError)
        ensures
            e.kind matches VortErrorKind::UndefinedVariable(k) && k@ == name@,
            e.message@ == "Undefined variable: '"@ + name@ + "'"@,
            e.span is None,
    {
        let mut text = lit("Undefined variable: '");
        text.append(name.as_str());
        text.append("'");
        proof {
            assert(text@ =~= "Undefined variable: '"@ + name@ + "'"@);
        }
        VortError::new(VortErrorKind::UndefinedVariable(name), text)
    }

    /// A value of the wrong kind in some context.
    pub fn type_mismatch(expected: &str, got: &str, context: &str) -> (e: VortError)
        ensures
            e.kind matches VortErrorKind::TypeMismatch(k) && k@ == "Expected "@ + expected@
                + ", got "@ + got@,
            e.message@ == "Type mismatch in "@ + context@ + ": expected "@ + expected@ + ", got "@
                + got@,
            e.span is None,
    {
        let mut kind_text = lit("Expected ");
        kind_text.append(expected);
        kind_text.append(", got ");
        kind_text.append(got);
        proof {
            assert(kind_text@ =~= "Expected "@ + expected@ + ", got "@ + got@);
        }
        let mut text = lit("Type mismatch in ");
        text.append(context);
        text.append(": expected ");
        text.append(expected);
        text.append(", got ");
        text.append(got);
        proof {
            assert(text@ =~= "Type mismatch in "@ + context@ + ": expected "@ + expected@
                + ", got "@ + got@);
        }
        VortError::new(VortErrorKind::TypeMismatch(kind_text), text)
    }

    /// The error as one line of text, with its span's position when it has
    /// one.
    pub fn describe(&self) -> (r: String)
        ensures
            r@ == spec_report_text(self),
    {
        match &self.span {
            Some(span) => {
                let mut out = lit("[Line ");
                push_dec(&mut out, span.line as u64);
                out.append(", Column ");
                push_dec(&mut out, span.column as u64);
                out.append("] ");
                out.append(self.message.as_str());
                proof {
                    assert(out@ =~= spec_report_text(self));
                }
                out
            },
            None => self.message.clone(),
        }
    }
}

/// The rendered text of a structured error: the span's position in brackets
/// when present, then the message.
pub open spec fn spec_report_text(e: &VortError) -> Seq<char> {
    match e.span {
        Some(span) => "[Line "@ + spec_dec(span.line as nat) + ", Column "@ + spec_dec(
            span.column as nat,
        ) + "] "@ + e.message@,
        None => e.message@,
    }
}

/// Attaches a span to an error.
pub fn with_span(error: VortError, line: usize, column: usize, length: usize) -> (e: VortError)
    ensures
        e.kind == error.kind,
        e.message == error.message,
        e.span == Some(SourceSpan { line, column, length }),
{
    error.with_span(SourceSpan::new(line, column, length))
}

} // verus!

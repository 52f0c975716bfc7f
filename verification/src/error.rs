use vstd::prelude::*;

verus! {

// The interpreter side's error type: a category and a message.

#[derive(Debug)]
pub enum VortError {
    /// A fault while reading an expression's text.
    ParseError(String),
    /// A fault while rearranging or evaluating an expression.
    EvalError(String),
    /// Any other fault at run time.
    RuntimeError(String),
}

/// The rendered text of an error: its category prefix and its message.
pub open spec fn spec_error_text(e: VortError) -> Seq<char> {
    match e {
        VortError::ParseError(m) => "Parse Error: "@ + m@,
        VortError::EvalError(m) => "Evaluation Error: "@ + m@,
        VortError::RuntimeError(m) => "Runtime Error: "@ + m@,
    }
}

impl VortError {
    /// The error as one line of text, category first.
    pub fn describe(&self) -> (r: String)
        ensures
            r@ == spec_error_text(*self),
    {
        let mut out = match self {
            VortError::ParseError(_) => crate::strutil::lit("Parse Error: "),
            VortError::EvalError(_) => crate::strutil::lit("Evaluation Error: "),
            VortError::RuntimeError(_) => crate::strutil::lit("Runtime Error: "),
        };
        match self {
            VortError::ParseError(m) => vstd::string::StringExecFns::append(&mut out, m.as_str()),
            VortError::EvalError(m) => vstd::string::StringExecFns::append(&mut out, m.as_str()),
            VortError::RuntimeError(m) => vstd::string::StringExecFns::append(
                &mut out,
                m.as_str(),
            ),
        }
        out
    }
}

} // verus!

use vstd::prelude::*;

pub mod ast;
pub mod chars;
pub mod codegen;
pub mod errors;
pub mod error;
pub mod expressions;
pub mod laws;
pub mod lexer;
pub mod parser;
pub mod report;
pub mod roundtrip;
pub mod strutil;
pub mod timefmt;
pub mod token;
pub mod tokenizer;

use crate::ast::spec_warnings;
use crate::codegen::spec_generate;
use crate::errors::spec_render_diag;
use crate::lexer::spec_tokenize;
use crate::parser::{PRes, sp_parse};

verus! {

// The compilation pipeline: lexical analysis, parsing, the semantic pass,
// and code generation, each stage aborting the rest on its first fault.
// Warnings are advisory and flow alongside the generated text.

/// What compiling a source text yields: the generated target text and the
/// unused-variable warnings, or the first stage's rendered fault.
pub open spec fn spec_compile(source: Seq<char>, path: Seq<char>) -> Result<
    (Seq<char>, Seq<Seq<char>>),
    Seq<char>,
> {
    match spec_tokenize(source) {
        Err(d) => Err(spec_render_diag(path, source, d)),
        Ok(ts) => match sp_parse(ts) {
            PRes::Fail(d) => Err(spec_render_diag(path, source, d)),
            PRes::Done { v: program, .. } => match spec_generate(program) {
                Err(m) => Err(m),
                Ok(code) => Ok((code, spec_warnings(program))),
            },
        },
    }
}

/// Runs the whole pipeline over a source text: returns the generated target
/// text together with the warnings, or the first fault, rendered with the
/// given display path.
pub fn compile(source: &str, source_path: &str) -> (r: Result<(String, Vec<String>), String>)
    requires
        source@.len() < usize::MAX,
    ensures
        ({
            let g = spec_compile(source@, source_path@);
            &&& (r is Ok <==> g is Ok)
            &&& (r matches Ok(p) ==> g matches Ok(gp) && p.0@ == gp.0 && p.1@.map_values(
                |w: String| w@,
            ) == gp.1)
            &&& (r matches Err(m) ==> g matches Err(gm) && m@ == gm)
        }),
{
    let tokens = match crate::lexer::tokenize(source, source_path) {
        Err(m) => {
            return Err(m);
        },
        Ok(tokens) => tokens,
    };
    let source_string = str_to_string(source);
    let path_string = str_to_string(source_path);
    let mut parser = crate::parser::Parser::new(tokens, source_string, path_string);
    let program = match parser.parse() {
        Err(m) => {
            return Err(m);
        },
        Ok(program) => program,
    };
    let (program, warnings) = crate::ast::analyze(program);
    match crate::codegen::generate_c_code(&program) {
        Err(m) => Err(m),
        Ok(code) => Ok((code, warnings)),
    }
}

/// A `String` copy of a string slice.
fn str_to_string(s: &str) -> (r: String)
    ensures
        r@ == s@,
{
    <String as vstd::string::StringExecFns>::from_str(s)
}

} // verus!

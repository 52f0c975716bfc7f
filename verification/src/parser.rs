use vstd::prelude::*;
use crate::ast::{
    BinaryOperator, Expression, FormatPart, NumExpression, SpecExpression, SpecFormatPart,
    SpecNumExpression, SpecStatement, Statement, deep_num, deep_parts, deep_stmt, deep_stmts,
    lemma_deep_stmts_push,
};
use crate::chars::{spec_is_alnum, spec_is_space, is_alnum_char, is_space_char};
use crate::strutil::to_char_vec;
use crate::errors::{spec_find, SpecDiag, spec_render_diag, ErrorPosition, format_error, lemma_find_bounds};
use crate::token::{
    Token, TokenType, SpecToken, SpecTokenType, deep_toks, kind_num, spec_kind_num, wf_tokens,
};

verus! {

// Recursive-descent parsing. The grammar, the dispatch order, the exact
// diagnostics and the cursor discipline are all pinned by the `sp_*`
// specification functions below; the executable parser returns exactly what
// they say. Token access clamps to the last token, so the specification is
// faithful only for well-formed token sequences (nonempty, ending in the
// end-of-input marker), which the lexer always produces.

/// A parse outcome: a value and the cursor after it, or a diagnostic.
pub enum PRes<T> {
    Done { v: T, next: int },
    Fail(SpecDiag),
}

/// The token the cursor sees: clamped to the last token at or past the end.
pub open spec fn tok_at(ts: Seq<SpecToken>, i: int) -> SpecToken {
    if 0 <= i < ts.len() {
        ts[i]
    } else {
        ts[ts.len() - 1]
    }
}

pub open spec fn syn_diag(ts: Seq<SpecToken>, i: int, message: Seq<char>, hint: Seq<char>) -> SpecDiag {
    SpecDiag {
        line: tok_at(ts, i).line,
        column: tok_at(ts, i).column,
        message: message,
        hint: hint,
    }
}

/// The diagnostic of an internal guard that well-formed parses never reach.
pub open spec fn guard_diag() -> SpecDiag {
    SpecDiag { line: 0, column: 0, message: Seq::empty(), hint: Seq::empty() }
}

/// First position at or after `i` whose token is not a newline.
pub open spec fn sp_skip(ts: Seq<SpecToken>, i: int) -> int
    decreases ts.len() - i,
{
    if 0 <= i < ts.len() && tok_at(ts, i).token_type is Newline {
        sp_skip(ts, i + 1)
    } else {
        i
    }
}

pub proof fn lemma_skip_bounds(ts: Seq<SpecToken>, i: int)
    requires
        0 <= i <= ts.len(),
    ensures
        i <= sp_skip(ts, i) <= ts.len(),
    decreases ts.len() - i,
{
    if i < ts.len() && tok_at(ts, i).token_type is Newline {
        lemma_skip_bounds(ts, i + 1);
    }
}

// ---------------------------------------------------------------------------
// Numeric expression grammar: addition over multiplication over primaries,
// folding left, with parenthesized sub-expressions as groupings.
// ---------------------------------------------------------------------------

pub open spec fn sp_primary(ts: Seq<SpecToken>, i: int) -> PRes<SpecNumExpression>
    decreases ts.len() - i, 1int,
{
    match tok_at(ts, i).token_type {
        SpecTokenType::NumberLiteral(t) => PRes::Done { v: SpecNumExpression::NumberLiteral(t), next: i + 1 },
        SpecTokenType::Identifier(n) => PRes::Done { v: SpecNumExpression::Variable(n), next: i + 1 },
        SpecTokenType::OpenParen => if !(0 <= i && i + 1 <= ts.len()) {
            PRes::Fail(guard_diag())
        } else {
            match sp_addition(ts, i + 1) {
            PRes::Fail(d) => PRes::Fail(d),
            PRes::Done { v, next } => {
                if tok_at(ts, next).token_type is CloseParen {
                    PRes::Done { v: SpecNumExpression::Grouping(Box::new(v)), next: next + 1 }
                } else {
                    PRes::Fail(
                        syn_diag(
                            ts,
                            next,
                            "Expected ')' after expression"@,
                            "Check your syntax and try again"@,
                        ),
                    )
                }
            },
        }
        },
        _ => PRes::Fail(
            syn_diag(
                ts,
                i,
                "Expected numerical expression"@,
                "Valid expressions are numbers, variables, or parenthesized expressions"@,
            ),
        ),
    }
}

pub open spec fn sp_mul_tail(ts: Seq<SpecToken>, i: int, left: SpecNumExpression) -> PRes<
    SpecNumExpression,
>
    decreases ts.len() - i, 3int,
{
    let k = tok_at(ts, i).token_type;
    if k is Star || k is Slash {
        let op = if k is Star {
            BinaryOperator::Multiply
        } else {
            BinaryOperator::Divide
        };
        if !(0 <= i && i + 1 <= ts.len()) {
            PRes::Fail(guard_diag())
        } else {
            match sp_primary(ts, i + 1) {
                PRes::Fail(d) => PRes::Fail(d),
                PRes::Done { v, next } => {
                    if next > i && next <= ts.len() {
                        sp_mul_tail(
                            ts,
                            next,
                            SpecNumExpression::BinaryOp(Box::new(left), op, Box::new(v)),
                        )
                    } else {
                        PRes::Fail(guard_diag())
                    }
                },
            }
        }
    } else {
        PRes::Done { v: left, next: i }
    }
}

pub open spec fn sp_multiplication(ts: Seq<SpecToken>, i: int) -> PRes<SpecNumExpression>
    decreases ts.len() - i, 2int,
{
    match sp_primary(ts, i) {
        PRes::Fail(d) => PRes::Fail(d),
        PRes::Done { v, next } => {
            if next > i && next <= ts.len() {
                sp_mul_tail(ts, next, v)
            } else {
                PRes::Fail(guard_diag())
            }
        },
    }
}

pub open spec fn sp_add_tail(ts: Seq<SpecToken>, i: int, left: SpecNumExpression) -> PRes<
    SpecNumExpression,
>
    decreases ts.len() - i, 5int,
{
    let k = tok_at(ts, i).token_type;
    if k is Plus || k is Minus {
        let op = if k is Plus {
            BinaryOperator::Add
        } else {
            BinaryOperator::Subtract
        };
        if !(0 <= i && i + 1 <= ts.len()) {
            PRes::Fail(guard_diag())
        } else {
            match sp_multiplication(ts, i + 1) {
                PRes::Fail(d) => PRes::Fail(d),
                PRes::Done { v, next } => {
                    if next > i && next <= ts.len() {
                        sp_add_tail(
                            ts,
                            next,
                            SpecNumExpression::BinaryOp(Box::new(left), op, Box::new(v)),
                        )
                    } else {
                        PRes::Fail(guard_diag())
                    }
                },
            }
        }
    } else {
        PRes::Done { v: left, next: i }
    }
}

pub open spec fn sp_addition(ts: Seq<SpecToken>, i: int) -> PRes<SpecNumExpression>
    decreases ts.len() - i, 4int,
{
    match sp_multiplication(ts, i) {
        PRes::Fail(d) => PRes::Fail(d),
        PRes::Done { v, next } => {
            if next > i && next <= ts.len() {
                sp_add_tail(ts, next, v)
            } else {
                PRes::Fail(guard_diag())
            }
        },
    }
}

/// A numeric expression starts at the lowest precedence level.
pub open spec fn sp_num_expression(ts: Seq<SpecToken>, i: int) -> PRes<SpecNumExpression> {
    sp_addition(ts, i)
}

/// A text expression: a text literal or a bare variable name.
pub open spec fn sp_expression(ts: Seq<SpecToken>, i: int) -> PRes<SpecExpression> {
    match tok_at(ts, i).token_type {
        SpecTokenType::StringLiteral(v) => PRes::Done { v: SpecExpression::StringLiteral(v), next: i + 1 },
        SpecTokenType::Identifier(n) => PRes::Done { v: SpecExpression::Variable(n), next: i + 1 },
        _ => PRes::Fail(
            syn_diag(
                ts,
                i,
                "Expected expression"@,
                "Valid expressions are string literals and variable identifiers"@,
            ),
        ),
    }
}

// ---------------------------------------------------------------------------
// Format strings: the content of print(o"...") is split into literal parts
// and brace-enclosed expressions at parse time. Diagnostics carry the
// position of the token after the closing parenthesis, where the cursor
// stands while the content is examined.
// ---------------------------------------------------------------------------

pub open spec fn spec_trim_start(s: Seq<char>, i: int) -> int
    decreases s.len() - i,
{
    if 0 <= i < s.len() && spec_is_space(s[i]) {
        spec_trim_start(s, i + 1)
    } else {
        i
    }
}

pub open spec fn spec_trim_end(s: Seq<char>, j: int) -> int
    decreases j,
{
    if 0 < j <= s.len() && spec_is_space(s[j - 1]) {
        spec_trim_end(s, j - 1)
    } else {
        j
    }
}

/// The text with leading and trailing whitespace removed.
pub open spec fn spec_trim(s: Seq<char>) -> Seq<char> {
    let a = spec_trim_start(s, 0);
    let b = spec_trim_end(s, s.len() as int);
    if a <= b {
        s.subrange(a, b)
    } else {
        Seq::empty()
    }
}

/// Whether every character is alphanumeric or an underscore.
pub open spec fn spec_all_word_chars(s: Seq<char>) -> bool {
    forall|k: int| 0 <= k < s.len() ==> spec_is_alnum(s[k]) || s[k] == '_'
}

/// One brace-enclosed expression: `callfn name()` or a bare variable name.
pub open spec fn sp_format_expr(s: Seq<char>, ts: Seq<SpecToken>, at: int) -> Result<
    SpecExpression,
    SpecDiag,
> {
    let trimmed = spec_trim(s);
    if trimmed.len() >= 7 && trimmed.subrange(0, 7) == "callfn "@ {
        let fn_name = spec_trim(trimmed.subrange(7, trimmed.len() as int));
        if fn_name.len() >= 2 && fn_name.subrange(fn_name.len() - 2, fn_name.len() as int)
            == "()"@ {
            let name = fn_name.subrange(0, fn_name.len() - 2);
            if spec_all_word_chars(name) {
                Ok(SpecExpression::FunctionCall(name))
            } else {
                Err(
                    syn_diag(
                        ts,
                        at,
                        "Invalid function name '"@ + name + "'"@,
                        "Function names must be alphanumeric with underscores"@,
                    ),
                )
            }
        } else {
            Err(
                syn_diag(
                    ts,
                    at,
                    "Expected '()' after function name"@,
                    "Function calls in format strings must end with '()'"@,
                ),
            )
        }
    } else if spec_all_word_chars(trimmed) {
        Ok(SpecExpression::Variable(trimmed))
    } else {
        Err(
            syn_diag(
                ts,
                at,
                "Invalid expression in format string: '"@ + trimmed + "'"@,
                "Use a variable name or 'callfn functionname()'"@,
            ),
        )
    }
}

/// The format-string content from position `j` on, split into parts.
pub open spec fn sp_format_parts(
    s: Seq<char>,
    j: int,
    cur: Seq<char>,
    acc: Seq<SpecFormatPart>,
    ts: Seq<SpecToken>,
    at: int,
) -> Result<Seq<SpecFormatPart>, SpecDiag>
    decreases s.len() - j,
    via sp_format_parts_dec
{
    if j < 0 || j >= s.len() {
        Ok(
            if cur.len() > 0 {
                acc.push(SpecFormatPart::Literal(cur))
            } else {
                acc
            },
        )
    } else if s[j] == '{' {
        let acc1 = if cur.len() > 0 {
            acc.push(SpecFormatPart::Literal(cur))
        } else {
            acc
        };
        let k = spec_find(s, '}', j + 1);
        if k >= s.len() {
            Err(
                syn_diag(
                    ts,
                    at,
                    "Unclosed '{' in format string"@,
                    "Ensure all braces are properly closed"@,
                ),
            )
        } else {
            match sp_format_expr(s.subrange(j + 1, k), ts, at) {
                Err(d) => Err(d),
                Ok(e) => sp_format_parts(
                    s,
                    k + 1,
                    Seq::empty(),
                    acc1.push(SpecFormatPart::Expression(e)),
                    ts,
                    at,
                ),
            }
        }
    } else {
        sp_format_parts(s, j + 1, cur.push(s[j]), acc, ts, at)
    }
}

#[via_fn]
proof fn sp_format_parts_dec(
    s: Seq<char>,
    j: int,
    cur: Seq<char>,
    acc: Seq<SpecFormatPart>,
    ts: Seq<SpecToken>,
    at: int,
) {
    if 0 <= j < s.len() && s[j] == '{' {
        lemma_find_bounds(s, '}', j + 1);
    }
}

// ---------------------------------------------------------------------------
// Statements.
// ---------------------------------------------------------------------------

/// A print statement, after the 'print' keyword: a parenthesized text
/// literal (after the format marker, split into format parts) or a bare
/// variable reference, whose namespace the code generator later checks.
pub open spec fn sp_print(ts: Seq<SpecToken>, i: int) -> PRes<SpecStatement> {
    if !(tok_at(ts, i).token_type is OpenParen) {
        PRes::Fail(syn_diag(ts, i, "Expected '(' after 'print'"@, "Check your syntax and try again"@))
    } else {
        let fmt = tok_at(ts, i + 1).token_type is FormatStringPrefix;
        let j = if fmt {
            i + 2
        } else {
            i + 1
        };
        match tok_at(ts, j).token_type {
            SpecTokenType::StringLiteral(content) => {
                if !(tok_at(ts, j + 1).token_type is CloseParen) {
                    PRes::Fail(
                        syn_diag(
                            ts,
                            j + 1,
                            "Expected ')' after expression"@,
                            "Check your syntax and try again"@,
                        ),
                    )
                } else {
                    if fmt {
                        match sp_format_parts(content, 0, Seq::empty(), Seq::empty(), ts, j + 2) {
                            Err(d) => PRes::Fail(d),
                            Ok(parts) => PRes::Done { v: SpecStatement::PrintFormat(parts), next: j + 2 },
                        }
                    } else {
                        PRes::Done {
                            v: SpecStatement::Print(SpecExpression::StringLiteral(content)),
                            next: j + 2,
                        }
                    }
                }
            },
            SpecTokenType::Identifier(name) => {
                if fmt {
                    PRes::Fail(
                        syn_diag(ts, j, "Expected string literal"@, "Check your syntax and try again"@),
                    )
                } else if !(tok_at(ts, j + 1).token_type is CloseParen) {
                    PRes::Fail(
                        syn_diag(
                            ts,
                            j + 1,
                            "Expected ')' after expression"@,
                            "Check your syntax and try again"@,
                        ),
                    )
                } else {
                    PRes::Done {
                        v: SpecStatement::Print(SpecExpression::Variable(name)),
                        next: j + 2,
                    }
                }
            },
            _ => PRes::Fail(
                syn_diag(ts, j, "Expected string literal"@, "Check your syntax and try again"@),
            ),
        }
    }
}

/// A text declaration after 'let': name, '=', text expression.
pub open spec fn sp_let(ts: Seq<SpecToken>, i: int) -> PRes<SpecStatement> {
    let line = tok_at(ts, i).line;
    match tok_at(ts, i).token_type {
        SpecTokenType::Identifier(name) => {
            if !(tok_at(ts, i + 1).token_type is Equals) {
                PRes::Fail(
                    syn_diag(
                        ts,
                        i + 1,
                        "Expected '=' after variable name"@,
                        "Check your syntax and try again"@,
                    ),
                )
            } else {
                match sp_expression(ts, i + 2) {
                    PRes::Fail(d) => PRes::Fail(d),
                    PRes::Done { v, next } => PRes::Done {
                        v: SpecStatement::VariableDeclaration(name, v, line),
                        next: next,
                    },
                }
            }
        },
        _ => PRes::Fail(
            syn_diag(ts, i, "Expected variable name"@, "Check your syntax and try again"@),
        ),
    }
}

/// A numeric declaration after 'num': name, '=', numeric expression.
pub open spec fn sp_num_stmt(ts: Seq<SpecToken>, i: int) -> PRes<SpecStatement> {
    let line = tok_at(ts, i).line;
    match tok_at(ts, i).token_type {
        SpecTokenType::Identifier(name) => {
            if !(tok_at(ts, i + 1).token_type is Equals) {
                PRes::Fail(
                    syn_diag(
                        ts,
                        i + 1,
                        "Expected '=' after variable name"@,
                        "Check your syntax and try again"@,
                    ),
                )
            } else {
                match sp_num_expression(ts, i + 2) {
                    PRes::Fail(d) => PRes::Fail(d),
                    PRes::Done { v, next } => PRes::Done {
                        v: SpecStatement::NumDeclaration(name, v, line),
                        next: next,
                    },
                }
            }
        },
        _ => PRes::Fail(
            syn_diag(
                ts,
                i,
                "Expected variable name after 'num'"@,
                "Check your syntax and try again"@,
            ),
        ),
    }
}

/// A reassignment: the right-hand side is first tried as a numeric
/// expression and, failing that, re-read from the same position as a text
/// expression; a bare name therefore resolves as numeric first.
pub open spec fn sp_assignment(ts: Seq<SpecToken>, i: int) -> PRes<SpecStatement> {
    let line = tok_at(ts, i).line;
    let name = match tok_at(ts, i).token_type {
        SpecTokenType::Identifier(n) => n,
        _ => Seq::empty(),
    };
    match sp_num_expression(ts, i + 2) {
        PRes::Done { v, next } => PRes::Done {
            v: SpecStatement::NumAssignment(name, v, line),
            next: next,
        },
        PRes::Fail(_) => match sp_expression(ts, i + 2) {
            PRes::Done { v, next } => PRes::Done {
                v: SpecStatement::VariableAssignment(name, v, line),
                next: next,
            },
            PRes::Fail(_) => PRes::Fail(
                SpecDiag {
                    line: line,
                    column: tok_at(ts, i + 2).column,
                    message: "Invalid assignment to variable '"@ + name + "'"@,
                    hint: "Variables can only be assigned string or numeric values"@,
                },
            ),
        },
    }
}

/// A routine call statement after 'callfn': name and an empty pair of
/// parentheses.
pub open spec fn sp_callfn(ts: Seq<SpecToken>, i: int) -> PRes<SpecStatement> {
    match tok_at(ts, i).token_type {
        SpecTokenType::Identifier(name) => {
            if !(tok_at(ts, i + 1).token_type is OpenParen) {
                PRes::Fail(
                    syn_diag(
                        ts,
                        i + 1,
                        "Expected '(' after function name"@,
                        "Check your syntax and try again"@,
                    ),
                )
            } else if !(tok_at(ts, i + 2).token_type is CloseParen) {
                PRes::Fail(
                    syn_diag(ts, i + 2, "Expected ')' after '('"@, "Check your syntax and try again"@),
                )
            } else {
                PRes::Done { v: SpecStatement::FunctionCall(name), next: i + 3 }
            }
        },
        _ => PRes::Fail(
            syn_diag(
                ts,
                i,
                "Expected function name after 'callfn'"@,
                "Check your syntax and try again"@,
            ),
        ),
    }
}

/// The body of a routine: statements up to the closing brace, with blank
/// lines skipped around each one.
pub open spec fn sp_body(
    ts: Seq<SpecToken>,
    i: int,
    acc: Seq<SpecStatement>,
) -> PRes<Seq<SpecStatement>>
    decreases ts.len() - i, 2int,
    via sp_body_dec
{
    let k = tok_at(ts, i).token_type;
    if k is CloseBrace {
        PRes::Done { v: acc, next: i + 1 }
    } else if k is EOF {
        PRes::Fail(
            syn_diag(
                ts,
                i,
                "Expected '}' to end function body"@,
                "Check your syntax and try again"@,
            ),
        )
    } else {
        let j = sp_skip(ts, i);
        if j > ts.len() {
            PRes::Fail(guard_diag())
        } else {
            match sp_statement(ts, j, true) {
                PRes::Fail(d) => PRes::Fail(d),
                PRes::Done { v, next } => {
                    let j2 = sp_skip(ts, next);
                    if j2 > i && j2 <= ts.len() {
                        sp_body(ts, j2, acc.push(v))
                    } else {
                        PRes::Fail(guard_diag())
                    }
                },
            }
        }
    }
}

#[via_fn]
proof fn sp_body_dec(ts: Seq<SpecToken>, i: int, acc: Seq<SpecStatement>) {
    if 0 <= i <= ts.len() {
        lemma_skip_bounds(ts, i);
        let j = sp_skip(ts, i);
        if 0 <= j <= ts.len() {
            lemma_skip_bounds(ts, j);
        }
    }
}

/// A routine definition after 'newfn': rejected inside another definition,
/// otherwise `fn`, a name, an empty pair of parentheses, and a braced body.
pub open spec fn sp_fn_def(ts: Seq<SpecToken>, i: int, in_fn: bool) -> PRes<SpecStatement>
    decreases ts.len() - i, 3int,
{
    if in_fn {
        PRes::Fail(
            syn_diag(
                ts,
                i,
                "Nested function definitions are not allowed"@,
                "Functions cannot be defined inside other functions"@,
            ),
        )
    } else if !(tok_at(ts, i).token_type is Identifier) {
        PRes::Fail(
            syn_diag(ts, i, "Expected 'fn' after 'newfn'"@, "Check your syntax and try again"@),
        )
    } else {
        match tok_at(ts, i + 1).token_type {
            SpecTokenType::Identifier(name) => {
                if !(tok_at(ts, i + 2).token_type is OpenParen) {
                    PRes::Fail(
                        syn_diag(
                            ts,
                            i + 2,
                            "Expected '(' after function name"@,
                            "Check your syntax and try again"@,
                        ),
                    )
                } else if !(tok_at(ts, i + 3).token_type is CloseParen) {
                    PRes::Fail(
                        syn_diag(
                            ts,
                            i + 3,
                            "Expected ')' after '('"@,
                            "Check your syntax and try again"@,
                        ),
                    )
                } else if !(tok_at(ts, i + 4).token_type is OpenBrace) {
                    PRes::Fail(
                        syn_diag(
                            ts,
                            i + 4,
                            "Expected '{' to start function body"@,
                            "Check your syntax and try again"@,
                        ),
                    )
                } else if i + 5 > ts.len() {
                    PRes::Fail(guard_diag())
                } else {
                    match sp_body(ts, i + 5, Seq::empty()) {
                        PRes::Fail(d) => PRes::Fail(d),
                        PRes::Done { v, next } => PRes::Done {
                            v: SpecStatement::FunctionDefinition(name, v),
                            next: next,
                        },
                    }
                }
            },
            _ => PRes::Fail(
                syn_diag(ts, i + 1, "Expected function name"@, "Check your syntax and try again"@),
            ),
        }
    }
}

/// Statement dispatch: a name followed directly by '=' is a reassignment;
/// otherwise the leading keyword picks the form.
pub open spec fn sp_statement(ts: Seq<SpecToken>, i: int, in_fn: bool) -> PRes<SpecStatement>
    decreases ts.len() - i, 1int,
{
    if tok_at(ts, i).token_type is Identifier && 0 <= i + 1 < ts.len() && ts[i + 1].token_type is Equals {
        sp_assignment(ts, i)
    } else if tok_at(ts, i).token_type is Print {
        sp_print(ts, i + 1)
    } else if tok_at(ts, i).token_type is Let {
        sp_let(ts, i + 1)
    } else if tok_at(ts, i).token_type is Num {
        sp_num_stmt(ts, i + 1)
    } else if tok_at(ts, i).token_type is NewFn {
        if i + 1 <= ts.len() {
            sp_fn_def(ts, i + 1, in_fn)
        } else {
            PRes::Fail(guard_diag())
        }
    } else if tok_at(ts, i).token_type is CallFn {
        sp_callfn(ts, i + 1)
    } else {
        PRes::Fail(
            syn_diag(
                ts,
                i,
                "Expected statement"@,
                "Valid statements are 'print', 'let', 'num', 'newfn', or 'callfn'"@,
            ),
        )
    }
}

/// The program: statements separated by newlines, up to the end marker.
pub open spec fn sp_program(ts: Seq<SpecToken>, i: int, acc: Seq<SpecStatement>) -> PRes<
    Seq<SpecStatement>,
>
    decreases ts.len() - i, 1int,
{
    if tok_at(ts, i).token_type is EOF {
        PRes::Done { v: acc, next: i }
    } else {
        match sp_statement(ts, i, false) {
            PRes::Fail(d) => PRes::Fail(d),
            PRes::Done { v, next } => {
                let j = sp_skip(ts, next);
                if j > i && j <= ts.len() {
                    sp_program(ts, j, acc.push(v))
                } else {
                    PRes::Fail(guard_diag())
                }
            },
        }
    }
}

/// The whole token sequence as a program.
pub open spec fn sp_parse(ts: Seq<SpecToken>) -> PRes<Seq<SpecStatement>> {
    sp_program(ts, sp_skip(ts, 0), Seq::empty())
}

// ---------------------------------------------------------------------------
// The executable parser.
// ---------------------------------------------------------------------------

/// The parser: the token sequence, a cursor, the source text and path for
/// diagnostics, and a flag that rejects nested routine definitions.
pub struct Parser {
    pub tokens: Vec<Token>,
    pub current: usize,
    pub source: String,
    pub source_path: String,
    pub in_function: bool,
}

impl Parser {
    pub open spec fn toks(&self) -> Seq<SpecToken> {
        deep_toks(self.tokens@)
    }

    pub open spec fn wf(&self) -> bool {
        &&& wf_tokens(self.toks())
        &&& self.current <= self.tokens@.len()
    }

    /// The fields a parsing step never changes.
    pub open spec fn same_ctx(&self, pre: &Parser) -> bool {
        &&& self.tokens == pre.tokens
        &&& self.source == pre.source
        &&& self.source_path == pre.source_path
    }

    /// Creates a parser over the given tokens, with the source text and its
    /// display path kept for diagnostics.
    pub fn new(tokens: Vec<Token>, source: String, source_path: String) -> (p: Parser)
        ensures
            p.tokens == tokens,
            p.current == 0,
            p.source == source,
            p.source_path == source_path,
            p.in_function == false,
    {
        Parser { tokens, current: 0, source, source_path, in_function: false }
    }

    fn peek(&self) -> (t: &Token)
        requires
            self.wf(),
        ensures
            t@ == tok_at(self.toks(), self.current as int),
    {
        if self.current < self.tokens.len() {
            &self.tokens[self.current]
        } else {
            &self.tokens[self.tokens.len() - 1]
        }
    }

    fn peek_kind(&self) -> (k: u8)
        requires
            self.wf(),
        ensures
            k as int == spec_kind_num(tok_at(self.toks(), self.current as int).token_type),
    {
        kind_num(&self.peek().token_type)
    }

    fn advance(&mut self)
        requires
            old(self).wf(),
        ensures
            final(self).same_ctx(old(self)),
            final(self).in_function == old(self).in_function,
            final(self).wf(),
            old(self).current < old(self).tokens@.len() ==> final(self).current == old(self).current + 1,
            old(self).current >= old(self).tokens@.len() ==> final(self).current == old(self).current,
    {
        if self.current < self.tokens.len() {
            self.current = self.current + 1;
        }
    }

    proof fn lemma_not_eof_in_range(&self)
        requires
            self.wf(),
            !(tok_at(self.toks(), self.current as int).token_type is EOF),
        ensures
            self.current < self.tokens@.len(),
    {
    }

    /// Renders a diagnostic at the token the cursor sees.
    fn err_here(&self, message: String, hint: &str) -> (m: String)
        requires
            self.wf(),
        ensures
            m@ == spec_render_diag(
                self.source_path@,
                self.source@,
                syn_diag(self.toks(), self.current as int, message@, hint@),
            ),
    {
        let line = self.peek().line;
        let column = self.peek().column;
        format_error(
            self.source_path.as_str(),
            self.source.as_str(),
            ErrorPosition { line, column },
            message,
            crate::strutil::lit(hint),
        )
    }

    fn is_at_end(&self) -> (r: bool)
        requires
            self.wf(),
        ensures
            r == (tok_at(self.toks(), self.current as int).token_type is EOF),
    {
        self.peek_kind() == 15
    }

    fn skip_newlines(&mut self)
        requires
            old(self).wf(),
        ensures
            final(self).same_ctx(old(self)),
            final(self).in_function == old(self).in_function,
            final(self).wf(),
            final(self).current as int == sp_skip(old(self).toks(), old(self).current as int),
            final(self).current >= old(self).current,
    {
        while self.current < self.tokens.len() && self.peek_kind() == 14
            invariant
                self.wf(),
                self.same_ctx(old(self)),
                self.in_function == old(self).in_function,
                self.current >= old(self).current,
                sp_skip(self.toks(), self.current as int) == sp_skip(
                    old(self).toks(),
                    old(self).current as int,
                ),
            decreases self.tokens@.len() - self.current,
        {
            self.advance();
        }
    }

    // -----------------------------------------------------------------------
    // Numeric expressions.
    // -----------------------------------------------------------------------

    /// A primary: a number, a variable, or a parenthesized sub-expression.
    fn num_primary(&mut self) -> (r: Result<NumExpression, String>)
        requires
            old(self).wf(),
        ensures
            final(self).same_ctx(old(self)),
            final(self).in_function == old(self).in_function,
            final(self).wf(),
            ({
                let g = sp_primary(old(self).toks(), old(self).current as int);
                &&& (r is Ok <==> g is Done)
                &&& (r matches Ok(e) ==> g matches PRes::Done { v, next } && deep_num(e) == v
                    && final(self).current as int == next && final(self).current > old(self).current)
                &&& (r matches Err(m) ==> g matches PRes::Fail(d) && m@ == spec_render_diag(
                    old(self).source_path@,
                    old(self).source@,
                    d,
                ))
            }),
        decreases old(self).tokens@.len() - old(self).current, 1int,
    {
        let k = self.peek_kind();
        if k == 3 {
            let t = match &self.peek().token_type {
                TokenType::NumberLiteral(t) => t.clone(),
                _ => {
                    proof {
                        assert(false);
                    }
                    String::new()
                },
            };
            proof {
                self.lemma_not_eof_in_range();
            }
            self.advance();
            Ok(NumExpression::NumberLiteral(t))
        } else if k == 1 {
            let n = match &self.peek().token_type {
                TokenType::Identifier(n) => n.clone(),
                _ => {
                    proof {
                        assert(false);
                    }
                    String::new()
                },
            };
            proof {
                self.lemma_not_eof_in_range();
            }
            self.advance();
            Ok(NumExpression::Variable(n))
        } else if k == 4 {
            proof {
                self.lemma_not_eof_in_range();
            }
            self.advance();
            match self.num_addition() {
                Err(m) => Err(m),
                Ok(e) => {
                    if self.peek_kind() == 5 {
                        proof {
                            self.lemma_not_eof_in_range();
                        }
                        self.advance();
                        Ok(NumExpression::Grouping(Box::new(e)))
                    } else {
                        Err(
                            self.err_here(
                                crate::strutil::lit("Expected ')' after expression"),
                                "Check your syntax and try again",
                            ),
                        )
                    }
                },
            }
        } else {
            Err(
                self.err_here(
                    crate::strutil::lit("Expected numerical expression"),
                    "Valid expressions are numbers, variables, or parenthesized expressions",
                ),
            )
        }
    }

    /// A multiplicative chain of primaries, folded to the left.
    fn num_multiplication(&mut self) -> (r: Result<NumExpression, String>)
        requires
            old(self).wf(),
        ensures
            final(self).same_ctx(old(self)),
            final(self).in_function == old(self).in_function,
            final(self).wf(),
            ({
                let g = sp_multiplication(old(self).toks(), old(self).current as int);
                &&& (r is Ok <==> g is Done)
                &&& (r matches Ok(e) ==> g matches PRes::Done { v, next } && deep_num(e) == v
                    && final(self).current as int == next && final(self).current > old(self).current)
                &&& (r matches Err(m) ==> g matches PRes::Fail(d) && m@ == spec_render_diag(
                    old(self).source_path@,
                    old(self).source@,
                    d,
                ))
            }),
        decreases old(self).tokens@.len() - old(self).current, 2int,
    {
        let mut expr = match self.num_primary() {
            Err(m) => {
                return Err(m);
            },
            Ok(e) => e,
        };
        while self.peek_kind() == 11 || self.peek_kind() == 12
            invariant
                self.wf(),
                self.same_ctx(old(self)),
                self.in_function == old(self).in_function,
                self.current > old(self).current,
                sp_mul_tail(self.toks(), self.current as int, deep_num(expr))
                    == sp_multiplication(old(self).toks(), old(self).current as int),
            decreases self.tokens@.len() - self.current,
        {
            let op = if self.peek_kind() == 11 {
                BinaryOperator::Multiply
            } else {
                BinaryOperator::Divide
            };
            proof {
                self.lemma_not_eof_in_range();
            }
            self.advance();
            match self.num_primary() {
                Err(m) => {
                    return Err(m);
                },
                Ok(right) => {
                    expr = NumExpression::BinaryOp(Box::new(expr), op, Box::new(right));
                },
            }
        }
        Ok(expr)
    }

    /// An additive chain of multiplicative expressions, folded to the left.
    fn num_addition(&mut self) -> (r: Result<NumExpression, String>)
        requires
            old(self).wf(),
        ensures
            final(self).same_ctx(old(self)),
            final(self).in_function == old(self).in_function,
            final(self).wf(),
            ({
                let g = sp_addition(old(self).toks(), old(self).current as int);
                &&& (r is Ok <==> g is Done)
                &&& (r matches Ok(e) ==> g matches PRes::Done { v, next } && deep_num(e) == v
                    && final(self).current as int == next && final(self).current > old(self).current)
                &&& (r matches Err(m) ==> g matches PRes::Fail(d) && m@ == spec_render_diag(
                    old(self).source_path@,
                    old(self).source@,
                    d,
                ))
            }),
        decreases old(self).tokens@.len() - old(self).current, 3int,
    {
        let mut expr = match self.num_multiplication() {
            Err(m) => {
                return Err(m);
            },
            Ok(e) => e,
        };
        while self.peek_kind() == 9 || self.peek_kind() == 10
            invariant
                self.wf(),
                self.same_ctx(old(self)),
                self.in_function == old(self).in_function,
                self.current > old(self).current,
                sp_add_tail(self.toks(), self.current as int, deep_num(expr)) == sp_addition(
                    old(self).toks(),
                    old(self).current as int,
                ),
            decreases self.tokens@.len() - self.current,
        {
            let op = if self.peek_kind() == 9 {
                BinaryOperator::Add
            } else {
                BinaryOperator::Subtract
            };
            proof {
                self.lemma_not_eof_in_range();
            }
            self.advance();
            match self.num_multiplication() {
                Err(m) => {
                    return Err(m);
                },
                Ok(right) => {
                    expr = NumExpression::BinaryOp(Box::new(expr), op, Box::new(right));
                },
            }
        }
        Ok(expr)
    }

    /// A text expression: a text literal or a bare variable name.
    fn expression(&mut self) -> (r: Result<Expression, String>)
        requires
            old(self).wf(),
        ensures
            final(self).same_ctx(old(self)),
            final(self).in_function == old(self).in_function,
            final(self).wf(),
            ({
                let g = sp_expression(old(self).toks(), old(self).current as int);
                &&& (r is Ok <==> g is Done)
                &&& (r matches Ok(e) ==> g matches PRes::Done { v, next } && e@ == v && final(self).current as int == next && final(self).current > old(self).current)
                &&& (r matches Err(m) ==> g matches PRes::Fail(d) && m@ == spec_render_diag(
                    old(self).source_path@,
                    old(self).source@,
                    d,
                ))
            }),
    {
        let k = self.peek_kind();
        if k == 2 {
            let v = match &self.peek().token_type {
                TokenType::StringLiteral(v) => v.clone(),
                _ => {
                    proof {
                        assert(false);
                    }
                    String::new()
                },
            };
            proof {
                self.lemma_not_eof_in_range();
            }
            self.advance();
            Ok(Expression::StringLiteral(v))
        } else if k == 1 {
            let n = match &self.peek().token_type {
                TokenType::Identifier(n) => n.clone(),
                _ => {
                    proof {
                        assert(false);
                    }
                    String::new()
                },
            };
            proof {
                self.lemma_not_eof_in_range();
            }
            self.advance();
            Ok(Expression::Variable(n))
        } else {
            Err(
                self.err_here(
                    crate::strutil::lit("Expected expression"),
                    "Valid expressions are string literals and variable identifiers",
                ),
            )
        }
    }

    /// A numeric expression: the lowest precedence level.
    fn num_expression(&mut self) -> (r: Result<NumExpression, String>)
        requires
            old(self).wf(),
        ensures
            final(self).same_ctx(old(self)),
            final(self).in_function == old(self).in_function,
            final(self).wf(),
            ({
                let g = sp_num_expression(old(self).toks(), old(self).current as int);
                &&& (r is Ok <==> g is Done)
                &&& (r matches Ok(e) ==> g matches PRes::Done { v, next } && deep_num(e) == v
                    && final(self).current as int == next && final(self).current > old(self).current)
                &&& (r matches Err(m) ==> g matches PRes::Fail(d) && m@ == spec_render_diag(
                    old(self).source_path@,
                    old(self).source@,
                    d,
                ))
            }),
        decreases old(self).tokens@.len() - old(self).current, 4int,
    {
        self.num_addition()
    }

    /// Reads one brace-enclosed interpolation: `callfn name()` or a bare
    /// variable name, with surrounding whitespace ignored.
    fn parse_format_expression(&self, s: &str) -> (r: Result<Expression, String>)
        requires
            self.wf(),
        ensures
            ({
                let g = sp_format_expr(s@, self.toks(), self.current as int);
                &&& (r is Ok <==> g is Ok)
                &&& (r matches Ok(e) ==> g matches Ok(ge) && e@ == ge)
                &&& (r matches Err(m) ==> g matches Err(d) && m@ == spec_render_diag(
                    self.source_path@,
                    self.source@,
                    d,
                ))
            }),
    {
        let v = to_char_vec(s);
        let trimmed = trim_chars(&v);
        if trimmed.len() >= 7 && starts_with_callfn(&trimmed) {
            let rest = sub_chars(&trimmed, 7, trimmed.len());
            let fn_name = trim_chars(&rest);
            if ends_with_parens(&fn_name) {
                let name = sub_chars(&fn_name, 0, fn_name.len() - 2);
                if all_word_chars(&name) {
                    let text = crate::strutil::string_from_range(&name, 0, name.len());
                    proof {
                        assert(text@ =~= fn_name@.subrange(0, fn_name@.len() - 2));
                    }
                    Ok(Expression::FunctionCall(text))
                } else {
                    let text = crate::strutil::string_from_range(&name, 0, name.len());
                    let mut m = crate::strutil::lit("Invalid function name '");
                    vstd::string::StringExecFns::append(&mut m, text.as_str());
                    vstd::string::StringExecFns::append(&mut m, "'");
                    proof {
                        assert(m@ =~= "Invalid function name '"@ + fn_name@.subrange(
                            0,
                            fn_name@.len() - 2,
                        ) + "'"@);
                    }
                    Err(self.err_here(m, "Function names must be alphanumeric with underscores"))
                }
            } else {
                Err(
                    self.err_here(
                        crate::strutil::lit("Expected '()' after function name"),
                        "Function calls in format strings must end with '()'",
                    ),
                )
            }
        } else {
            let is_word = all_word_chars(&trimmed);
            if is_word && !(trimmed.len() >= 7 && starts_with_callfn(&trimmed)) {
                let text = crate::strutil::string_from_range(&trimmed, 0, trimmed.len());
                proof {
                    assert(text@ =~= spec_trim(v@));
                }
                Ok(Expression::Variable(text))
            } else {
                let text = crate::strutil::string_from_range(&trimmed, 0, trimmed.len());
                let mut m = crate::strutil::lit("Invalid expression in format string: '");
                vstd::string::StringExecFns::append(&mut m, text.as_str());
                vstd::string::StringExecFns::append(&mut m, "'");
                proof {
                    assert(m@ =~= "Invalid expression in format string: '"@ + spec_trim(v@)
                        + "'"@);
                }
                Err(self.err_here(m, "Use a variable name or 'callfn functionname()'"))
            }
        }
    }

    /// Splits the content of a format string into literal parts and
    /// interpolated expressions.
    fn parse_format_string(&self, s: &str) -> (r: Result<Vec<FormatPart>, String>)
        requires
            self.wf(),
        ensures
            ({
                let g = sp_format_parts(
                    s@,
                    0,
                    Seq::empty(),
                    Seq::empty(),
                    self.toks(),
                    self.current as int,
                );
                &&& (r is Ok <==> g is Ok)
                &&& (r matches Ok(ps) ==> g matches Ok(gp) && deep_parts(ps@) == gp)
                &&& (r matches Err(m) ==> g matches Err(d) && m@ == spec_render_diag(
                    self.source_path@,
                    self.source@,
                    d,
                ))
            }),
    {
        let v = to_char_vec(s);
        let mut parts: Vec<FormatPart> = Vec::new();
        let mut cur = String::new();
        let mut j: usize = 0;
        proof {
            assert(deep_parts(parts@) =~= Seq::<SpecFormatPart>::empty());
            assert(cur@ =~= Seq::<char>::empty());
        }
        while j < v.len()
            invariant
                j <= v@.len(),
                v@ == s@,
                self.wf(),
                sp_format_parts(
                    v@,
                    j as int,
                    cur@,
                    deep_parts(parts@),
                    self.toks(),
                    self.current as int,
                ) == sp_format_parts(
                    s@,
                    0,
                    Seq::empty(),
                    Seq::empty(),
                    self.toks(),
                    self.current as int,
                ),
            decreases v@.len() - j,
        {
            let c = v[j];
            if c == '{' {
                if !cur.as_str().is_empty() {
                    let ghost before = parts@;
                    let lit_part = FormatPart::Literal(cur);
                    parts.push(lit_part);
                    proof {
                        assert(deep_parts(parts@) =~= deep_parts(before).push(lit_part@));
                    }
                    cur = String::new();
                }
                let k = crate::errors::find_char(&v, '}', j + 1);
                if k >= v.len() {
                    return Err(
                        self.err_here(
                            crate::strutil::lit("Unclosed '{' in format string"),
                            "Ensure all braces are properly closed",
                        ),
                    );
                }
                let es = crate::strutil::string_from_range(&v, j + 1, k);
                match self.parse_format_expression(es.as_str()) {
                    Err(m) => {
                        return Err(m);
                    },
                    Ok(e) => {
                        let ghost before = parts@;
                        let expr_part = FormatPart::Expression(e);
                        parts.push(expr_part);
                        proof {
                            assert(deep_parts(parts@) =~= deep_parts(before).push(expr_part@));
                            assert(cur@ =~= Seq::<char>::empty());
                        }
                        j = k + 1;
                        continue ;
                    },
                }
            } else {
                crate::strutil::push_char(&mut cur, c);
                j = j + 1;
            }
        }
        if !cur.as_str().is_empty() {
            let ghost before = parts@;
            let lit_part = FormatPart::Literal(cur);
            parts.push(lit_part);
            proof {
                assert(deep_parts(parts@) =~= deep_parts(before).push(lit_part@));
            }
        }
        Ok(parts)
    }

    /// A print statement, after the 'print' keyword.
    fn print_statement(&mut self) -> (r: Result<Statement, String>)
        requires
            old(self).wf(),
        ensures
            final(self).same_ctx(old(self)),
            final(self).in_function == old(self).in_function,
            final(self).wf(),
            ({
                let g = sp_print(old(self).toks(), old(self).current as int);
                &&& (r is Ok <==> g is Done)
                &&& (r matches Ok(st) ==> g matches PRes::Done { v, next } && deep_stmt(st) == v
                    && final(self).current as int == next && final(self).current > old(self).current)
                &&& (r matches Err(m) ==> g matches PRes::Fail(d) && m@ == spec_render_diag(
                    old(self).source_path@,
                    old(self).source@,
                    d,
                ))
            }),
    {
        if self.peek_kind() != 4 {
            return Err(
                self.err_here(
                    crate::strutil::lit("Expected '(' after 'print'"),
                    "Check your syntax and try again",
                ),
            );
        }
        proof {
            self.lemma_not_eof_in_range();
        }
        self.advance();
        let fmt = self.peek_kind() == 13;
        if fmt {
            proof {
                self.lemma_not_eof_in_range();
            }
            self.advance();
        }
        let content = match &self.peek().token_type {
            TokenType::StringLiteral(v) => Some(v.clone()),
            _ => None,
        };
        let content_missing = match &content {
            Some(_) => false,
            None => true,
        };
        let var_name = if content_missing && !fmt {
            match &self.peek().token_type {
                TokenType::Identifier(n) => Some(n.clone()),
                _ => None,
            }
        } else {
            None
        };
        let var_missing = match &var_name {
            Some(_) => false,
            None => true,
        };
        if content_missing && var_missing {
            return Err(
                self.err_here(
                    crate::strutil::lit("Expected string literal"),
                    "Check your syntax and try again",
                ),
            );
        }
        proof {
            self.lemma_not_eof_in_range();
        }
        self.advance();
        if self.peek_kind() != 5 {
            return Err(
                self.err_here(
                    crate::strutil::lit("Expected ')' after expression"),
                    "Check your syntax and try again",
                ),
            );
        }
        proof {
            self.lemma_not_eof_in_range();
        }
        self.advance();
        match content {
            Some(content) => {
                if fmt {
                    match self.parse_format_string(content.as_str()) {
                        Err(m) => Err(m),
                        Ok(parts) => Ok(Statement::PrintFormat(parts)),
                    }
                } else {
                    Ok(Statement::Print(Expression::StringLiteral(content)))
                }
            },
            None => {
                let name = match var_name {
                    Some(n) => n,
                    None => {
                        proof {
                            assert(false);
                        }
                        String::new()
                    },
                };
                Ok(Statement::Print(Expression::Variable(name)))
            },
        }
    }

    /// A text variable declaration, after the 'let' keyword.
    fn let_statement(&mut self) -> (r: Result<Statement, String>)
        requires
            old(self).wf(),
        ensures
            final(self).same_ctx(old(self)),
            final(self).in_function == old(self).in_function,
            final(self).wf(),
            ({
                let g = sp_let(old(self).toks(), old(self).current as int);
                &&& (r is Ok <==> g is Done)
                &&& (r matches Ok(st) ==> g matches PRes::Done { v, next } && deep_stmt(st) == v
                    && final(self).current as int == next && final(self).current > old(self).current)
                &&& (r matches Err(m) ==> g matches PRes::Fail(d) && m@ == spec_render_diag(
                    old(self).source_path@,
                    old(self).source@,
                    d,
                ))
            }),
    {
        let line_number = self.peek().line;
        let name = match &self.peek().token_type {
            TokenType::Identifier(n) => Some(n.clone()),
            _ => None,
        };
        let name = match name {
            Some(n) => n,
            None => {
                return Err(
                    self.err_here(
                        crate::strutil::lit("Expected variable name"),
                        "Check your syntax and try again",
                    ),
                );
            },
        };
        proof {
            self.lemma_not_eof_in_range();
        }
        self.advance();
        if self.peek_kind() != 8 {
            return Err(
                self.err_here(
                    crate::strutil::lit("Expected '=' after variable name"),
                    "Check your syntax and try again",
                ),
            );
        }
        proof {
            self.lemma_not_eof_in_range();
        }
        self.advance();
        match self.expression() {
            Err(m) => Err(m),
            Ok(initializer) => Ok(
                Statement::VariableDeclaration(name, initializer, line_number),
            ),
        }
    }

    /// A numeric variable declaration, after the 'num' keyword.
    fn num_statement(&mut self) -> (r: Result<Statement, String>)
        requires
            old(self).wf(),
        ensures
            final(self).same_ctx(old(self)),
            final(self).in_function == old(self).in_function,
            final(self).wf(),
            ({
                let g = sp_num_stmt(old(self).toks(), old(self).current as int);
                &&& (r is Ok <==> g is Done)
                &&& (r matches Ok(st) ==> g matches PRes::Done { v, next } && deep_stmt(st) == v
                    && final(self).current as int == next && final(self).current > old(self).current)
                &&& (r matches Err(m) ==> g matches PRes::Fail(d) && m@ == spec_render_diag(
                    old(self).source_path@,
                    old(self).source@,
                    d,
                ))
            }),
    {
        let line_number = self.peek().line;
        let name = match &self.peek().token_type {
            TokenType::Identifier(n) => Some(n.clone()),
            _ => None,
        };
        let name = match name {
            Some(n) => n,
            None => {
                return Err(
                    self.err_here(
                        crate::strutil::lit("Expected variable name after 'num'"),
                        "Check your syntax and try again",
                    ),
                );
            },
        };
        proof {
            self.lemma_not_eof_in_range();
        }
        self.advance();
        if self.peek_kind() != 8 {
            return Err(
                self.err_here(
                    crate::strutil::lit("Expected '=' after variable name"),
                    "Check your syntax and try again",
                ),
            );
        }
        proof {
            self.lemma_not_eof_in_range();
        }
        self.advance();
        match self.num_expression() {
            Err(m) => Err(m),
            Ok(initializer) => Ok(Statement::NumDeclaration(name, initializer, line_number)),
        }
    }

    /// A reassignment: the right-hand side is read as a numeric expression
    /// first and, with the cursor rolled back, as a text expression second.
    fn assignment_statement(&mut self) -> (r: Result<Statement, String>)
        requires
            old(self).wf(),
            tok_at(old(self).toks(), old(self).current as int).token_type is Identifier,
            old(self).current + 1 < old(self).tokens@.len(),
            old(self).toks()[old(self).current + 1].token_type is Equals,
        ensures
            final(self).same_ctx(old(self)),
            final(self).in_function == old(self).in_function,
            final(self).wf(),
            ({
                let g = sp_assignment(old(self).toks(), old(self).current as int);
                &&& (r is Ok <==> g is Done)
                &&& (r matches Ok(st) ==> g matches PRes::Done { v, next } && deep_stmt(st) == v
                    && final(self).current as int == next && final(self).current > old(self).current)
                &&& (r matches Err(m) ==> g matches PRes::Fail(d) && m@ == spec_render_diag(
                    old(self).source_path@,
                    old(self).source@,
                    d,
                ))
            }),
    {
        let line_number = self.peek().line;
        let name = match &self.peek().token_type {
            TokenType::Identifier(n) => Some(n.clone()),
            _ => None,
        };
        let name = match name {
            Some(n) => n,
            None => {
                proof {
                    assert(false);
                }
                String::new()
            },
        };
        proof {
            self.lemma_not_eof_in_range();
        }
        self.advance();
        proof {
            self.lemma_not_eof_in_range();
        }
        self.advance();
        let save = self.current;
        match self.num_expression() {
            Ok(num_expr) => {
                return Ok(Statement::NumAssignment(name, num_expr, line_number));
            },
            Err(_) => {
                self.current = save;
            },
        }
        match self.expression() {
            Ok(str_expr) => Ok(Statement::VariableAssignment(name, str_expr, line_number)),
            Err(_) => {
                self.current = save;
                let column = self.peek().column;
                let mut m = crate::strutil::lit("Invalid assignment to variable '");
                vstd::string::StringExecFns::append(&mut m, name.as_str());
                vstd::string::StringExecFns::append(&mut m, "'");
                proof {
                    assert(m@ =~= "Invalid assignment to variable '"@ + name@ + "'"@);
                }
                Err(
                    format_error(
                        self.source_path.as_str(),
                        self.source.as_str(),
                        ErrorPosition { line: line_number, column },
                        m,
                        crate::strutil::lit("Variables can only be assigned string or numeric values"),
                    ),
                )
            },
        }
    }

    /// A routine definition, after the 'newfn' keyword; definitions cannot
    /// nest.
    fn function_definition(&mut self) -> (r: Result<Statement, String>)
        requires
            old(self).wf(),
        ensures
            final(self).same_ctx(old(self)),
            final(self).wf(),
            r is Ok ==> final(self).in_function == old(self).in_function,
            ({
                let g = sp_fn_def(old(self).toks(), old(self).current as int, old(self).in_function);
                &&& (r is Ok <==> g is Done)
                &&& (r matches Ok(st) ==> g matches PRes::Done { v, next } && deep_stmt(st) == v
                    && final(self).current as int == next && final(self).current > old(self).current)
                &&& (r matches Err(m) ==> g matches PRes::Fail(d) && m@ == spec_render_diag(
                    old(self).source_path@,
                    old(self).source@,
                    d,
                ))
            }),
        decreases old(self).tokens@.len() - old(self).current, 6int,
    {
        if self.in_function {
            return Err(
                self.err_here(
                    crate::strutil::lit("Nested function definitions are not allowed"),
                    "Functions cannot be defined inside other functions",
                ),
            );
        }
        if self.peek_kind() != 1 {
            return Err(
                self.err_here(
                    crate::strutil::lit("Expected 'fn' after 'newfn'"),
                    "Check your syntax and try again",
                ),
            );
        }
        proof {
            self.lemma_not_eof_in_range();
        }
        self.advance();
        let name = match &self.peek().token_type {
            TokenType::Identifier(n) => Some(n.clone()),
            _ => None,
        };
        let name = match name {
            Some(n) => n,
            None => {
                return Err(
                    self.err_here(
                        crate::strutil::lit("Expected function name"),
                        "Check your syntax and try again",
                    ),
                );
            },
        };
        proof {
            self.lemma_not_eof_in_range();
        }
        self.advance();
        if self.peek_kind() != 4 {
            return Err(
                self.err_here(
                    crate::strutil::lit("Expected '(' after function name"),
                    "Check your syntax and try again",
                ),
            );
        }
        proof {
            self.lemma_not_eof_in_range();
        }
        self.advance();
        if self.peek_kind() != 5 {
            return Err(
                self.err_here(
                    crate::strutil::lit("Expected ')' after '('"),
                    "Check your syntax and try again",
                ),
            );
        }
        proof {
            self.lemma_not_eof_in_range();
        }
        self.advance();
        if self.peek_kind() != 18 {
            return Err(
                self.err_here(
                    crate::strutil::lit("Expected '{' to start function body"),
                    "Check your syntax and try again",
                ),
            );
        }
        proof {
            self.lemma_not_eof_in_range();
        }
        self.advance();
        let ghost body_start = self.current as int;
        self.in_function = true;
        let mut body: Vec<Statement> = Vec::new();
        proof {
            assert(deep_stmts(body@) =~= Seq::<SpecStatement>::empty());
        }
        while self.peek_kind() != 19
            invariant
                self.wf(),
                self.same_ctx(old(self)),
                self.in_function == true,
                old(self).in_function == false,
                self.current > old(self).current,
                sp_body(self.toks(), self.current as int, deep_stmts(body@)) == sp_body(
                    old(self).toks(),
                    body_start,
                    Seq::empty(),
                ),
                sp_fn_def(old(self).toks(), old(self).current as int, old(self).in_function)
                    == (match sp_body(old(self).toks(), body_start, Seq::<SpecStatement>::empty()) {
                    PRes::Fail(d) => PRes::<SpecStatement>::Fail(d),
                    PRes::Done { v, next } => PRes::<SpecStatement>::Done {
                        v: SpecStatement::FunctionDefinition(name@, v),
                        next: next,
                    },
                }),
            decreases self.tokens@.len() - self.current,
        {
            if self.is_at_end() {
                return Err(
                    self.err_here(
                        crate::strutil::lit("Expected '}' to end function body"),
                        "Check your syntax and try again",
                    ),
                );
            }
            let ghost pre_cur = self.current as int;
            let ghost pre_acc = deep_stmts(body@);
            self.skip_newlines();
            let ghost j = self.current as int;
            let st = match self.statement() {
                Err(m) => {
                    proof {
                        assert(sp_body(self.toks(), pre_cur, pre_acc) is Fail);
                    }
                    return Err(m);
                },
                Ok(st) => st,
            };
            let ghost next = self.current as int;
            let ghost stmts_before = body@;
            body.push(st);
            proof {
                lemma_deep_stmts_push(stmts_before, st);
            }
            self.skip_newlines();
            proof {
                assert(sp_skip(self.toks(), next) == self.current as int);
                assert(sp_body(self.toks(), pre_cur, pre_acc) == sp_body(
                    self.toks(),
                    self.current as int,
                    deep_stmts(body@),
                ));
            }
        }
        proof {
            self.lemma_not_eof_in_range();
        }
        self.advance();
        self.in_function = false;
        Ok(Statement::FunctionDefinition(name, body))
    }

    /// One statement: a reassignment when a name is directly followed by
    /// '=', otherwise the form the leading keyword picks.
    fn statement(&mut self) -> (r: Result<Statement, String>)
        requires
            old(self).wf(),
        ensures
            final(self).same_ctx(old(self)),
            final(self).wf(),
            r is Ok ==> final(self).in_function == old(self).in_function,
            ({
                let g = sp_statement(old(self).toks(), old(self).current as int, old(self).in_function);
                &&& (r is Ok <==> g is Done)
                &&& (r matches Ok(st) ==> g matches PRes::Done { v, next } && deep_stmt(st) == v
                    && final(self).current as int == next && final(self).current > old(self).current)
                &&& (r matches Err(m) ==> g matches PRes::Fail(d) && m@ == spec_render_diag(
                    old(self).source_path@,
                    old(self).source@,
                    d,
                ))
            }),
        decreases old(self).tokens@.len() - old(self).current, 7int,
    {
        if self.peek_kind() == 1 && self.current < self.tokens.len() && self.current + 1
            < self.tokens.len() {
            let next_is_equals = kind_num(&self.tokens[self.current + 1].token_type) == 8;
            if next_is_equals {
                return self.assignment_statement();
            }
        }
        let k = self.peek_kind();
        if k == 0 {
            proof {
                self.lemma_not_eof_in_range();
            }
            self.advance();
            self.print_statement()
        } else if k == 6 {
            proof {
                self.lemma_not_eof_in_range();
            }
            self.advance();
            self.let_statement()
        } else if k == 7 {
            proof {
                self.lemma_not_eof_in_range();
            }
            self.advance();
            self.num_statement()
        } else if k == 16 {
            proof {
                self.lemma_not_eof_in_range();
            }
            self.advance();
            self.function_definition()
        } else if k == 17 {
            proof {
                self.lemma_not_eof_in_range();
            }
            self.advance();
            let name = match &self.peek().token_type {
                TokenType::Identifier(n) => Some(n.clone()),
                _ => None,
            };
            let name = match name {
                Some(n) => n,
                None => {
                    return Err(
                        self.err_here(
                            crate::strutil::lit("Expected function name after 'callfn'"),
                            "Check your syntax and try again",
                        ),
                    );
                },
            };
            proof {
                self.lemma_not_eof_in_range();
            }
            self.advance();
            if self.peek_kind() != 4 {
                return Err(
                    self.err_here(
                        crate::strutil::lit("Expected '(' after function name"),
                        "Check your syntax and try again",
                    ),
                );
            }
            proof {
                self.lemma_not_eof_in_range();
            }
            self.advance();
            if self.peek_kind() != 5 {
                return Err(
                    self.err_here(
                        crate::strutil::lit("Expected ')' after '('"),
                        "Check your syntax and try again",
                    ),
                );
            }
            proof {
                self.lemma_not_eof_in_range();
            }
            self.advance();
            Ok(Statement::FunctionCall(name))
        } else {
            Err(
                self.err_here(
                    crate::strutil::lit("Expected statement"),
                    "Valid statements are 'print', 'let', 'num', 'newfn', or 'callfn'",
                ),
            )
        }
    }

    /// Parses the whole token sequence into the program's statements, or
    /// renders the first syntax fault.
    pub fn parse(&mut self) -> (r: Result<Vec<Statement>, String>)
        requires
            old(self).wf(),
            old(self).current == 0,
            old(self).in_function == false,
        ensures
            final(self).same_ctx(old(self)),
            ({
                let g = sp_parse(old(self).toks());
                &&& (r is Ok <==> g is Done)
                &&& (r matches Ok(stmts) ==> g matches PRes::Done { v, .. } && deep_stmts(stmts@)
                    == v)
                &&& (r matches Err(m) ==> g matches PRes::Fail(d) && m@ == spec_render_diag(
                    old(self).source_path@,
                    old(self).source@,
                    d,
                ))
            }),
    {
        let mut statements: Vec<Statement> = Vec::new();
        proof {
            assert(deep_stmts(statements@) =~= Seq::<SpecStatement>::empty());
        }
        self.skip_newlines();
        while !self.is_at_end()
            invariant
                self.wf(),
                self.same_ctx(old(self)),
                self.in_function == false,
                sp_program(self.toks(), self.current as int, deep_stmts(statements@)) == sp_parse(
                    old(self).toks(),
                ),
            decreases self.tokens@.len() - self.current,
        {
            let st = match self.statement() {
                Err(m) => {
                    return Err(m);
                },
                Ok(st) => st,
            };
            let ghost stmts_before = statements@;
            statements.push(st);
            proof {
                lemma_deep_stmts_push(stmts_before, st);
            }
            self.skip_newlines();
        }
        Ok(statements)
    }

}

fn trim_start_idx(v: &Vec<char>, i: usize) -> (j: usize)
    requires
        i <= v@.len(),
    ensures
        j as int == spec_trim_start(v@, i as int),
        i <= j <= v@.len(),
    decreases v@.len() - i,
{
    if i < v.len() && is_space_char(v[i]) {
        trim_start_idx(v, i + 1)
    } else {
        i
    }
}

fn trim_end_idx(v: &Vec<char>, j: usize) -> (r: usize)
    requires
        j <= v@.len(),
    ensures
        r as int == spec_trim_end(v@, j as int),
        r <= j,
    decreases j,
{
    if j > 0 && is_space_char(v[j - 1]) {
        trim_end_idx(v, j - 1)
    } else {
        j
    }
}

fn sub_chars(v: &Vec<char>, a: usize, b: usize) -> (r: Vec<char>)
    requires
        a <= b <= v@.len(),
    ensures
        r@ == v@.subrange(a as int, b as int),
{
    let mut r: Vec<char> = Vec::new();
    let mut i: usize = a;
    while i < b
        invariant
            a <= i <= b <= v@.len(),
            r@ == v@.subrange(a as int, i as int),
        decreases b - i,
    {
        r.push(v[i]);
        assert(r@ =~= v@.subrange(a as int, i as int + 1));
        i = i + 1;
    }
    r
}

/// The characters with leading and trailing whitespace removed.
fn trim_chars(v: &Vec<char>) -> (r: Vec<char>)
    ensures
        r@ == spec_trim(v@),
{
    let a = trim_start_idx(v, 0);
    let b = trim_end_idx(v, v.len());
    if a <= b {
        sub_chars(v, a, b)
    } else {
        let r: Vec<char> = Vec::new();
        proof {
            assert(r@ =~= spec_trim(v@));
        }
        r
    }
}

fn starts_with_callfn(v: &Vec<char>) -> (r: bool)
    requires
        v@.len() >= 7,
    ensures
        r == (v@.subrange(0, 7) == "callfn "@),
{
    proof {
        reveal_strlit("callfn ");
        assert(v@.subrange(0, 7).len() == 7);
        assert(forall|k: int| 0 <= k < 7 ==> v@.subrange(0, 7)[k] == v@[k]);
    }
    let ok = v[0] == 'c' && v[1] == 'a' && v[2] == 'l' && v[3] == 'l' && v[4] == 'f' && v[5] == 'n'
        && v[6] == ' ';
    proof {
        if ok {
            assert(v@.subrange(0, 7) =~= "callfn "@);
        } else {
            if v@.subrange(0, 7) == "callfn "@ {
                assert(v@[0] == 'c' && v@[1] == 'a' && v@[2] == 'l' && v@[3] == 'l' && v@[4] == 'f'
                    && v@[5] == 'n' && v@[6] == ' ');
            }
        }
    }
    ok
}

fn ends_with_parens(v: &Vec<char>) -> (r: bool)
    ensures
        r == (v@.len() >= 2 && v@.subrange(v@.len() - 2, v@.len() as int) == "()"@),
{
    proof {
        reveal_strlit("()");
    }
    if v.len() < 2 {
        return false;
    }
    proof {
        assert(forall|k: int|
            0 <= k < 2 ==> #[trigger] v@.subrange(v@.len() - 2, v@.len() as int)[k] == v@[v@.len()
                - 2 + k]);
    }
    let ok = v[v.len() - 2] == '(' && v[v.len() - 1] == ')';
    proof {
        if ok {
            assert(v@.subrange(v@.len() - 2, v@.len() as int) =~= "()"@);
        } else {
            if v@.subrange(v@.len() - 2, v@.len() as int) == "()"@ {
                assert(v@.subrange(v@.len() - 2, v@.len() as int)[0] == "()"@[0]);
                assert(v@.subrange(v@.len() - 2, v@.len() as int)[1] == "()"@[1]);
                assert("()"@[0] == '(' && "()"@[1] == ')') by {
                    reveal_strlit("()");
                }
                assert(v@[v@.len() - 2] == '(' && v@[v@.len() - 1] == ')');
            }
        }
    }
    ok
}

fn all_word_chars(v: &Vec<char>) -> (r: bool)
    ensures
        r == spec_all_word_chars(v@),
{
    let mut i: usize = 0;
    while i < v.len()
        invariant
            i <= v@.len(),
            forall|k: int| 0 <= k < i ==> spec_is_alnum(v@[k]) || v@[k] == '_',
        decreases v@.len() - i,
    {
        let c = v[i];
        if !(is_alnum_char(c) || c == '_') {
            return false;
        }
        i = i + 1;
    }
    true
}


/// Parses a token sequence with no source text attached: diagnostics then
/// carry an empty path and no source context.
pub fn parse(tokens: Vec<Token>) -> (r: Result<Vec<Statement>, String>)
    requires
        wf_tokens(deep_toks(tokens@)),
    ensures
        ({
            let g = sp_parse(deep_toks(tokens@));
            &&& (r is Ok <==> g is Done)
            &&& (r matches Ok(stmts) ==> g matches PRes::Done { v, .. } && deep_stmts(stmts@) == v)
            &&& (r matches Err(m) ==> g matches PRes::Fail(d) && m@ == spec_render_diag(
                ""@,
                ""@,
                d,
            ))
        }),
{
    let source = String::new();
    let source_path = String::new();
    proof {
        reveal_strlit("");
        assert(source@ =~= ""@);
        assert(source_path@ =~= ""@);
    }
    let mut parser = Parser::new(tokens, source, source_path);
    parser.parse()
}

} // verus!

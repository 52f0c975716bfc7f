use vstd::prelude::*;
use vstd::string::StringExecFns;
use crate::ast::{
    BinaryOperator, Expression, FormatPart, NumExpression, SpecExpression, SpecFormatPart,
    SpecNumExpression, SpecStatement, Statement, deep_num, deep_parts, deep_stmt, deep_stmts,
    lemma_deep_stmts_len,
};
use crate::strutil::{lit, push_char, str_eq_chars, to_char_vec};

verus! {

// Code generation: lowering the syntax tree into target text. The two
// namespaces (text and numeric) are collected over the whole program first;
// lowering then enforces that every referenced name was declared in the
// matching namespace, failing with a message that names the offender.

pub open spec fn spec_has_str(ns: Seq<Seq<char>>, n: Seq<char>) -> bool {
    exists|k: int| 0 <= k < ns.len() && ns[k] == n
}

pub open spec fn spec_add_name(ns: Seq<Seq<char>>, n: Seq<char>) -> Seq<Seq<char>> {
    if spec_has_str(ns, n) {
        ns
    } else {
        ns.push(n)
    }
}

/// One step of the namespace collection: text declarations fill the first
/// set, numeric declarations the second, and routine bodies are walked too.
pub open spec fn spec_collect_stmt(
    acc: (Seq<Seq<char>>, Seq<Seq<char>>),
    s: SpecStatement,
) -> (Seq<Seq<char>>, Seq<Seq<char>>)
    decreases s, 0int,
{
    match s {
        SpecStatement::VariableDeclaration(n, _, _) => (spec_add_name(acc.0, n), acc.1),
        SpecStatement::NumDeclaration(n, _, _) => (acc.0, spec_add_name(acc.1, n)),
        SpecStatement::FunctionDefinition(_, body) => spec_collect_list(acc, body, 0),
        _ => acc,
    }
}

pub open spec fn spec_collect_list(
    acc: (Seq<Seq<char>>, Seq<Seq<char>>),
    ss: Seq<SpecStatement>,
    i: int,
) -> (Seq<Seq<char>>, Seq<Seq<char>>)
    decreases ss, ss.len() - i,
{
    if i < 0 || i >= ss.len() {
        acc
    } else {
        spec_collect_list(spec_collect_stmt(acc, ss[i]), ss, i + 1)
    }
}

/// The two global namespaces of a program: text names and numeric names,
/// each in first-declaration order without duplicates.
pub open spec fn spec_collect(p: Seq<SpecStatement>) -> (Seq<Seq<char>>, Seq<Seq<char>>) {
    spec_collect_list((Seq::empty(), Seq::empty()), p, 0)
}

/// How one character is written inside a quoted literal of the target text.
pub open spec fn spec_escape_char(c: char) -> Seq<char> {
    if c == '\\' {
        "\\\\"@
    } else if c == '"' {
        "\\\""@
    } else if c == '\n' {
        "\\n"@
    } else if c == '\t' {
        "\\t"@
    } else if c == '\r' {
        "\\r"@
    } else {
        seq![c]
    }
}

/// Escaping of a whole text for embedding in a quoted literal.
pub open spec fn spec_escape(s: Seq<char>) -> Seq<char>
    decreases s.len(),
{
    if s.len() == 0 {
        Seq::empty()
    } else {
        spec_escape_char(s.first()) + spec_escape(s.drop_first())
    }
}

pub open spec fn spec_op_char(op: BinaryOperator) -> char {
    match op {
        BinaryOperator::Add => '+',
        BinaryOperator::Subtract => '-',
        BinaryOperator::Multiply => '*',
        BinaryOperator::Divide => '/',
    }
}

/// Lowering of a numeric expression: literals keep their digits, variables
/// must stand in the numeric namespace, every operation and grouping is
/// wrapped in its own parentheses so the target's precedence cannot differ.
pub open spec fn spec_gen_num(e: SpecNumExpression, nums: Seq<Seq<char>>) -> Result<
    Seq<char>,
    Seq<char>,
>
    decreases e,
{
    match e {
        SpecNumExpression::NumberLiteral(t) => Ok(t),
        SpecNumExpression::Variable(n) => if spec_has_str(nums, n) {
            Ok(n)
        } else {
            Err("Numerical variable '"@ + n + "' used before declaration"@)
        },
        SpecNumExpression::BinaryOp(l, op, r) => match spec_gen_num(*l, nums) {
            Err(e1) => Err(e1),
            Ok(lc) => match spec_gen_num(*r, nums) {
                Err(e2) => Err(e2),
                Ok(rc) => Ok("("@ + lc + seq![spec_op_char(op)] + rc + ")"@),
            },
        },
        SpecNumExpression::Grouping(inner) => match spec_gen_num(*inner, nums) {
            Err(e1) => Err(e1),
            Ok(ic) => Ok("("@ + ic + ")"@),
        },
    }
}

/// Lowering of the right-hand side of a text declaration or reassignment.
pub open spec fn spec_gen_text_rhs(
    e: SpecExpression,
    strs: Seq<Seq<char>>,
    assign: bool,
) -> Result<Seq<char>, Seq<char>> {
    match e {
        SpecExpression::StringLiteral(v) => Ok("\""@ + spec_escape(v) + "\""@),
        SpecExpression::Variable(n) => if spec_has_str(strs, n) {
            Ok(n)
        } else {
            Err("Variable '"@ + n + "' used before declaration"@)
        },
        SpecExpression::FunctionCall(_) => if assign {
            Err("Invalid expression for variable assignment"@)
        } else {
            Err("Invalid expression for variable declaration"@)
        },
    }
}

/// Lowering of one interpolated part: literals and variables become output
/// calls (the specifier picked by namespace), routine calls become calls.
pub open spec fn spec_gen_part(
    p: SpecFormatPart,
    strs: Seq<Seq<char>>,
    nums: Seq<Seq<char>>,
) -> Result<Seq<char>, Seq<char>> {
    match p {
        SpecFormatPart::Literal(s) => Ok("    printf(\"%s\", \""@ + spec_escape(s) + "\");"@),
        SpecFormatPart::Expression(SpecExpression::Variable(n)) => if spec_has_str(strs, n) {
            Ok("    printf(\"%s\", "@ + n + ");"@)
        } else if spec_has_str(nums, n) {
            Ok("    printf(\"%g\", "@ + n + ");"@)
        } else {
            Err("Variable '"@ + n + "' used before declaration"@)
        },
        SpecFormatPart::Expression(SpecExpression::FunctionCall(n)) => Ok("    "@ + n + "();"@),
        SpecFormatPart::Expression(SpecExpression::StringLiteral(_)) => Err(
            "Invalid expression in format string"@,
        ),
    }
}

pub open spec fn spec_gen_parts(
    ps: Seq<SpecFormatPart>,
    strs: Seq<Seq<char>>,
    nums: Seq<Seq<char>>,
    i: int,
) -> Result<Seq<char>, Seq<char>>
    decreases ps.len() - i,
{
    if i < 0 || i >= ps.len() {
        Ok(Seq::empty())
    } else {
        match spec_gen_part(ps[i], strs, nums) {
            Err(e) => Err(e),
            Ok(c) => match spec_gen_parts(ps, strs, nums, i + 1) {
                Err(e) => Err(e),
                Ok(rest) => Ok(c + rest),
            },
        }
    }
}

/// Lowering of one statement against the two collected namespaces.
pub open spec fn spec_gen_stmt(
    s: SpecStatement,
    strs: Seq<Seq<char>>,
    nums: Seq<Seq<char>>,
) -> Result<Seq<char>, Seq<char>> {
    match s {
        SpecStatement::VariableDeclaration(name, e, _) => match spec_gen_text_rhs(
            e,
            strs,
            false,
        ) {
            Err(m) => Err(m),
            Ok(rhs) => Ok("    "@ + name + " = "@ + rhs + ";\n"@),
        },
        SpecStatement::NumDeclaration(name, e, _) => match spec_gen_num(e, nums) {
            Err(m) => Err(m),
            Ok(rhs) => Ok("    "@ + name + " = "@ + rhs + ";\n"@),
        },
        SpecStatement::VariableAssignment(name, e, _) => if !spec_has_str(strs, name) {
            Err("Variable '"@ + name + "' assigned before declaration"@)
        } else {
            match spec_gen_text_rhs(e, strs, true) {
                Err(m) => Err(m),
                Ok(rhs) => Ok("    "@ + name + " = "@ + rhs + ";\n"@),
            }
        },
        SpecStatement::NumAssignment(name, e, _) => if !spec_has_str(nums, name) {
            Err("Numerical variable '"@ + name + "' assigned before declaration"@)
        } else {
            match spec_gen_num(e, nums) {
                Err(m) => Err(m),
                Ok(rhs) => Ok("    "@ + name + " = "@ + rhs + ";\n"@),
            }
        },
        SpecStatement::Print(SpecExpression::StringLiteral(v)) => Ok(
            "    printf(\"%s\\n\", \""@ + spec_escape(v) + "\");\n"@,
        ),
        SpecStatement::Print(SpecExpression::Variable(n)) => if spec_has_str(strs, n) {
            Ok("    printf(\"%s\\n\", "@ + n + ");\n"@)
        } else if spec_has_str(nums, n) {
            Ok("    printf(\"%g\\n\", "@ + n + ");\n"@)
        } else {
            Err("Variable '"@ + n + "' used before declaration"@)
        },
        SpecStatement::Print(SpecExpression::FunctionCall(_)) => Err(
            "Invalid expression for print statement"@,
        ),
        SpecStatement::PrintFormat(ps) => match spec_gen_parts(ps, strs, nums, 0) {
            Err(m) => Err(m),
            Ok(c) => Ok(c + "    printf(\"\\n\");\n"@),
        },
        SpecStatement::FunctionCall(name) => Ok("    "@ + name + "();\n"@),
        SpecStatement::FunctionDefinition(_, _) => Ok(Seq::empty()),
    }
}

/// Lowering of a statement list, first fault wins.
pub open spec fn spec_gen_body(
    ss: Seq<SpecStatement>,
    strs: Seq<Seq<char>>,
    nums: Seq<Seq<char>>,
    i: int,
) -> Result<Seq<char>, Seq<char>>
    decreases ss.len() - i,
{
    if i < 0 || i >= ss.len() {
        Ok(Seq::empty())
    } else {
        match spec_gen_stmt(ss[i], strs, nums) {
            Err(e) => Err(e),
            Ok(c) => match spec_gen_body(ss, strs, nums, i + 1) {
                Err(e) => Err(e),
                Ok(rest) => Ok(c + rest),
            },
        }
    }
}

/// The routine definitions of the program, each lowered into one target
/// routine, in program order.
pub open spec fn spec_gen_funcs(
    p: Seq<SpecStatement>,
    strs: Seq<Seq<char>>,
    nums: Seq<Seq<char>>,
    i: int,
) -> Result<Seq<char>, Seq<char>>
    decreases p.len() - i,
{
    if i < 0 || i >= p.len() {
        Ok(Seq::empty())
    } else {
        match p[i] {
            SpecStatement::FunctionDefinition(name, body) => match spec_gen_body(
                body,
                strs,
                nums,
                0,
            ) {
                Err(e) => Err(e),
                Ok(bc) => match spec_gen_funcs(p, strs, nums, i + 1) {
                    Err(e) => Err(e),
                    Ok(rest) => Ok("void "@ + name + "(void) {\n"@ + bc + "}\n\n"@ + rest),
                },
            },
            _ => spec_gen_funcs(p, strs, nums, i + 1),
        }
    }
}

/// The statements outside routine definitions, lowered for the entry point.
pub open spec fn spec_gen_mains(
    p: Seq<SpecStatement>,
    strs: Seq<Seq<char>>,
    nums: Seq<Seq<char>>,
    i: int,
) -> Result<Seq<char>, Seq<char>>
    decreases p.len() - i,
{
    if i < 0 || i >= p.len() {
        Ok(Seq::empty())
    } else {
        match p[i] {
            SpecStatement::FunctionDefinition(_, _) => spec_gen_mains(p, strs, nums, i + 1),
            _ => match spec_gen_stmt(p[i], strs, nums) {
                Err(e) => Err(e),
                Ok(c) => match spec_gen_mains(p, strs, nums, i + 1) {
                    Err(e) => Err(e),
                    Ok(rest) => Ok(c + rest),
                },
            },
        }
    }
}

/// One global declaration line per collected name.
pub open spec fn spec_globals(ns: Seq<Seq<char>>, decl: Seq<char>, i: int) -> Seq<char>
    decreases ns.len() - i,
{
    if i < 0 || i >= ns.len() {
        Seq::empty()
    } else {
        decl + ns[i] + ";\n"@ + spec_globals(ns, decl, i + 1)
    }
}

pub open spec fn spec_header() -> Seq<char> {
    "#include <stdio.h>\n#include <stdlib.h>\n#include <string.h>\n#include <math.h>\n\n"@
}

/// The whole generated target text: header, globals, routines, entry point;
/// or the first lowering fault.
pub open spec fn spec_generate(p: Seq<SpecStatement>) -> Result<Seq<char>, Seq<char>> {
    let (strs, nums) = spec_collect(p);
    match spec_gen_funcs(p, strs, nums, 0) {
        Err(e) => Err(e),
        Ok(fc) => match spec_gen_mains(p, strs, nums, 0) {
            Err(e) => Err(e),
            Ok(mc) => Ok(
                spec_header() + spec_globals(strs, "char* "@, 0) + spec_globals(
                    nums,
                    "double "@,
                    0,
                ) + "\n"@ + fc + "int main() {\n"@ + mc + "    return 0;\n"@ + "}\n"@,
            ),
        },
    }
}

// ---------------------------------------------------------------------------
// Executable code generation.
// ---------------------------------------------------------------------------

pub open spec fn names_view(ss: Seq<String>) -> Seq<Seq<char>> {
    ss.map_values(|s: String| s@)
}

fn contains_name(ns: &Vec<String>, n: &String) -> (r: bool)
    ensures
        r == spec_has_str(names_view(ns@), n@),
{
    let mut i: usize = 0;
    while i < ns.len()
        invariant
            i <= ns@.len(),
            forall|k: int| 0 <= k < i ==> ns@[k]@ != n@,
        decreases ns@.len() - i,
    {
        if str_eq_chars(ns[i].as_str(), n.as_str()) {
            assert(names_view(ns@)[i as int] == n@);
            return true;
        }
        i = i + 1;
    }
    assert(forall|k: int|
        0 <= k < names_view(ns@).len() ==> names_view(ns@)[k] != n@);
    false
}

fn add_name(ns: &mut Vec<String>, n: &String)
    ensures
        names_view(final(ns)@) == spec_add_name(names_view(old(ns)@), n@),
{
    if !contains_name(ns, n) {
        let ghost before = ns@;
        ns.push(n.clone());
        assert(names_view(ns@) =~= names_view(before).push(n@));
    }
}

/// Gathers every declared name of the program into the two namespaces,
/// descending into routine bodies, since all variables are global.
fn collect_variables(
    statements: &Vec<Statement>,
    str_vars: &mut Vec<String>,
    num_vars: &mut Vec<String>,
)
    ensures
        (names_view(final(str_vars)@), names_view(final(num_vars)@)) == spec_collect_list(
            (names_view(old(str_vars)@), names_view(old(num_vars)@)),
            deep_stmts(statements@),
            0,
        ),
    decreases *statements,
{
    proof {
        lemma_deep_stmts_len(statements@);
    }
    let ghost p = deep_stmts(statements@);
    let ghost s0 = names_view(str_vars@);
    let ghost n0 = names_view(num_vars@);
    let mut k: usize = 0;
    while k < statements.len()
        invariant
            k <= statements@.len(),
            p == deep_stmts(statements@),
            p.len() == statements@.len(),
            forall|i: int| 0 <= i < statements@.len() ==> p[i] == deep_stmt(statements@[i]),
            spec_collect_list((names_view(str_vars@), names_view(num_vars@)), p, k as int)
                == spec_collect_list((s0, n0), p, 0),
        decreases statements@.len() - k,
    {
        let ghost ps = names_view(str_vars@);
        let ghost pn = names_view(num_vars@);
        match &statements[k] {
            Statement::VariableDeclaration(n, _, _) => {
                add_name(str_vars, n);
            },
            Statement::NumDeclaration(n, _, _) => {
                add_name(num_vars, n);
            },
            Statement::FunctionDefinition(_, body) => {
                collect_variables(body, str_vars, num_vars);
            },
            _ => {},
        }
        proof {
            assert((names_view(str_vars@), names_view(num_vars@)) == spec_collect_stmt(
                (ps, pn),
                p[k as int],
            ));
            assert(spec_collect_list((ps, pn), p, k as int) == spec_collect_list(
                spec_collect_stmt((ps, pn), p[k as int]),
                p,
                k as int + 1,
            ));
        }
        k = k + 1;
    }
}

/// Escapes backslash, quote, newline, tab and carriage return for safe
/// embedding inside a quoted literal of the target text.
pub fn escape_string(s: &str) -> (r: String)
    ensures
        r@ == spec_escape(s@),
{
    let v = to_char_vec(s);
    let mut out = String::new();
    let mut i: usize = 0;
    proof {
        assert(v@.skip(0) =~= v@);
        assert(out@ + spec_escape(v@.skip(0)) =~= spec_escape(v@));
    }
    while i < v.len()
        invariant
            i <= v@.len(),
            v@ == s@,
            out@ + spec_escape(v@.skip(i as int)) == spec_escape(v@),
        decreases v@.len() - i,
    {
        let c = v[i];
        proof {
            assert(v@.skip(i as int).first() == v@[i as int]);
            assert(v@.skip(i as int).drop_first() =~= v@.skip(i as int + 1));
        }
        if c == '\\' {
            out.append("\\\\");
        } else if c == '"' {
            out.append("\\\"");
        } else if c == '\n' {
            out.append("\\n");
        } else if c == '\t' {
            out.append("\\t");
        } else if c == '\r' {
            out.append("\\r");
        } else {
            push_char(&mut out, c);
            assert(out@ =~= (out@.subrange(0, out@.len() - 1)) + seq![c]);
        }
        proof {
            assert(out@ + spec_escape(v@.skip(i as int + 1)) =~= spec_escape(v@));
        }
        i = i + 1;
    }
    proof {
        assert(v@.skip(v@.len() as int) =~= Seq::<char>::empty());
        assert(out@ =~= spec_escape(v@));
    }
    out
}

fn op_char(op: &BinaryOperator) -> (c: char)
    ensures
        c == spec_op_char(*op),
{
    match op {
        BinaryOperator::Add => '+',
        BinaryOperator::Subtract => '-',
        BinaryOperator::Multiply => '*',
        BinaryOperator::Divide => '/',
    }
}

fn undeclared_num_message(n: &String) -> (m: String)
    ensures
        m@ == "Numerical variable '"@ + n@ + "' used before declaration"@,
{
    let mut m = lit("Numerical variable '");
    m.append(n.as_str());
    m.append("' used before declaration");
    assert(m@ =~= "Numerical variable '"@ + n@ + "' used before declaration"@);
    m
}

fn undeclared_var_message(n: &String) -> (m: String)
    ensures
        m@ == "Variable '"@ + n@ + "' used before declaration"@,
{
    let mut m = lit("Variable '");
    m.append(n.as_str());
    m.append("' used before declaration");
    assert(m@ =~= "Variable '"@ + n@ + "' used before declaration"@);
    m
}

/// Lowers a numeric expression to target text, exactly as `spec_gen_num`
/// says: parentheses around every operation and grouping, and a fault for a
/// name outside the numeric namespace.
fn generate_num_expression(expr: &NumExpression, variables: &Vec<String>) -> (r: Result<
    String,
    String,
>)
    ensures
        ({
            let g = spec_gen_num(deep_num(*expr), names_view(variables@));
            &&& (r is Ok <==> g is Ok)
            &&& (r matches Ok(c) ==> g matches Ok(gc) && c@ == gc)
            &&& (r matches Err(m) ==> g matches Err(gm) && m@ == gm)
        }),
    decreases *expr,
{
    match expr {
        NumExpression::NumberLiteral(t) => Ok(t.clone()),
        NumExpression::Variable(n) => {
            if contains_name(variables, n) {
                Ok(n.clone())
            } else {
                Err(undeclared_num_message(n))
            }
        },
        NumExpression::BinaryOp(l, op, rr) => {
            match generate_num_expression(l, variables) {
                Err(m) => Err(m),
                Ok(lc) => match generate_num_expression(rr, variables) {
                    Err(m) => Err(m),
                    Ok(rc) => {
                        let mut out = lit("(");
                        out.append(lc.as_str());
                        push_char(&mut out, op_char(op));
                        out.append(rc.as_str());
                        out.append(")");
                        proof {
                            assert(out@ =~= "("@ + lc@ + seq![spec_op_char(*op)] + rc@ + ")"@);
                        }
                        Ok(out)
                    },
                },
            }
        },
        NumExpression::Grouping(inner) => {
            match generate_num_expression(inner, variables) {
                Err(m) => Err(m),
                Ok(ic) => {
                    let mut out = lit("(");
                    out.append(ic.as_str());
                    out.append(")");
                    proof {
                        assert(out@ =~= "("@ + ic@ + ")"@);
                    }
                    Ok(out)
                },
            }
        },
    }
}

/// Lowers one interpolated part, exactly as `spec_gen_part` says.
fn generate_part(part: &FormatPart, str_vars: &Vec<String>, num_vars: &Vec<String>) -> (r: Result<
    String,
    String,
>)
    ensures
        ({
            let g = spec_gen_part(part@, names_view(str_vars@), names_view(num_vars@));
            &&& (r is Ok <==> g is Ok)
            &&& (r matches Ok(c) ==> g matches Ok(gc) && c@ == gc)
            &&& (r matches Err(m) ==> g matches Err(gm) && m@ == gm)
        }),
{
    match part {
        FormatPart::Literal(s) => {
            let mut out = lit("    printf(\"%s\", \"");
            let esc = escape_string(s.as_str());
            out.append(esc.as_str());
            out.append("\");");
            proof {
                assert(out@ =~= "    printf(\"%s\", \""@ + spec_escape(s@) + "\");"@);
            }
            Ok(out)
        },
        FormatPart::Expression(Expression::Variable(n)) => {
            if contains_name(str_vars, n) {
                let mut out = lit("    printf(\"%s\", ");
                out.append(n.as_str());
                out.append(");");
                proof {
                    assert(out@ =~= "    printf(\"%s\", "@ + n@ + ");"@);
                }
                Ok(out)
            } else if contains_name(num_vars, n) {
                let mut out = lit("    printf(\"%g\", ");
                out.append(n.as_str());
                out.append(");");
                proof {
                    assert(out@ =~= "    printf(\"%g\", "@ + n@ + ");"@);
                }
                Ok(out)
            } else {
                Err(undeclared_var_message(n))
            }
        },
        FormatPart::Expression(Expression::FunctionCall(n)) => {
            let mut out = lit("    ");
            out.append(n.as_str());
            out.append("();");
            proof {
                assert(out@ =~= "    "@ + n@ + "();"@);
            }
            Ok(out)
        },
        FormatPart::Expression(Expression::StringLiteral(_)) => Err(
            lit("Invalid expression in format string"),
        ),
    }
}

/// Lowers one statement to target text against the two namespaces, exactly
/// as `spec_gen_stmt` says.
fn generate_statement(stmt: &Statement, str_vars: &Vec<String>, num_vars: &Vec<String>) -> (r:
    Result<String, String>)
    ensures
        ({
            let g = spec_gen_stmt(deep_stmt(*stmt), names_view(str_vars@), names_view(num_vars@));
            &&& (r is Ok <==> g is Ok)
            &&& (r matches Ok(c) ==> g matches Ok(gc) && c@ == gc)
            &&& (r matches Err(m) ==> g matches Err(gm) && m@ == gm)
        }),
{
    let ghost strs = names_view(str_vars@);
    let ghost nums = names_view(num_vars@);
    match stmt {
        Statement::VariableDeclaration(name, expr, _) => {
            let rhs = match expr {
                Expression::StringLiteral(v) => {
                    let mut t = lit("\"");
                    let esc = escape_string(v.as_str());
                    t.append(esc.as_str());
                    t.append("\"");
                    proof {
                        assert(t@ =~= "\""@ + spec_escape(v@) + "\""@);
                    }
                    t
                },
                Expression::Variable(var) => {
                    if !contains_name(str_vars, var) {
                        return Err(undeclared_var_message(var));
                    }
                    var.clone()
                },
                Expression::FunctionCall(_) => {
                    return Err(lit("Invalid expression for variable declaration"));
                },
            };
            let mut out = lit("    ");
            out.append(name.as_str());
            out.append(" = ");
            out.append(rhs.as_str());
            out.append(";\n");
            proof {
                assert(out@ =~= "    "@ + name@ + " = "@ + rhs@ + ";\n"@);
            }
            Ok(out)
        },
        Statement::NumDeclaration(name, expr, _) => {
            match generate_num_expression(expr, num_vars) {
                Err(m) => Err(m),
                Ok(rhs) => {
                    let mut out = lit("    ");
                    out.append(name.as_str());
                    out.append(" = ");
                    out.append(rhs.as_str());
                    out.append(";\n");
                    proof {
                        assert(out@ =~= "    "@ + name@ + " = "@ + rhs@ + ";\n"@);
                    }
                    Ok(out)
                },
            }
        },
        Statement::VariableAssignment(name, expr, _) => {
            if !contains_name(str_vars, name) {
                let mut m = lit("Variable '");
                m.append(name.as_str());
                m.append("' assigned before declaration");
                proof {
                    assert(m@ =~= "Variable '"@ + name@ + "' assigned before declaration"@);
                }
                return Err(m);
            }
            let rhs = match expr {
                Expression::StringLiteral(v) => {
                    let mut t = lit("\"");
                    let esc = escape_string(v.as_str());
                    t.append(esc.as_str());
                    t.append("\"");
                    proof {
                        assert(t@ =~= "\""@ + spec_escape(v@) + "\""@);
                    }
                    t
                },
                Expression::Variable(var) => {
                    if !contains_name(str_vars, var) {
                        return Err(undeclared_var_message(var));
                    }
                    var.clone()
                },
                Expression::FunctionCall(_) => {
                    return Err(lit("Invalid expression for variable assignment"));
                },
            };
            let mut out = lit("    ");
            out.append(name.as_str());
            out.append(" = ");
            out.append(rhs.as_str());
            out.append(";\n");
            proof {
                assert(out@ =~= "    "@ + name@ + " = "@ + rhs@ + ";\n"@);
            }
            Ok(out)
        },
        Statement::NumAssignment(name, expr, _) => {
            if !contains_name(num_vars, name) {
                let mut m = lit("Numerical variable '");
                m.append(name.as_str());
                m.append("' assigned before declaration");
                proof {
                    assert(m@ =~= "Numerical variable '"@ + name@
                        + "' assigned before declaration"@);
                }
                return Err(m);
            }
            match generate_num_expression(expr, num_vars) {
                Err(m) => Err(m),
                Ok(rhs) => {
                    let mut out = lit("    ");
                    out.append(name.as_str());
                    out.append(" = ");
                    out.append(rhs.as_str());
                    out.append(";\n");
                    proof {
                        assert(out@ =~= "    "@ + name@ + " = "@ + rhs@ + ";\n"@);
                    }
                    Ok(out)
                },
            }
        },
        Statement::Print(expr) => {
            match expr {
                Expression::StringLiteral(v) => {
                    let mut out = lit("    printf(\"%s\\n\", \"");
                    let esc = escape_string(v.as_str());
                    out.append(esc.as_str());
                    out.append("\");\n");
                    proof {
                        assert(out@ =~= "    printf(\"%s\\n\", \""@ + spec_escape(v@)
                            + "\");\n"@);
                    }
                    Ok(out)
                },
                Expression::Variable(var) => {
                    if contains_name(str_vars, var) {
                        let mut out = lit("    printf(\"%s\\n\", ");
                        out.append(var.as_str());
                        out.append(");\n");
                        proof {
                            assert(out@ =~= "    printf(\"%s\\n\", "@ + var@ + ");\n"@);
                        }
                        Ok(out)
                    } else if contains_name(num_vars, var) {
                        let mut out = lit("    printf(\"%g\\n\", ");
                        out.append(var.as_str());
                        out.append(");\n");
                        proof {
                            assert(out@ =~= "    printf(\"%g\\n\", "@ + var@ + ");\n"@);
                        }
                        Ok(out)
                    } else {
                        Err(undeclared_var_message(var))
                    }
                },
                Expression::FunctionCall(_) => Err(lit("Invalid expression for print statement")),
            }
        },
        Statement::PrintFormat(parts) => {
            let mut out = String::new();
            let ghost ps = deep_parts(parts@);
            let mut k: usize = 0;
            proof {
                assert(ps.len() == parts@.len());
            }
            while k < parts.len()
                invariant
                    k <= parts@.len(),
                    ps == deep_parts(parts@),
                    ps.len() == parts@.len(),
                    deep_stmt(*stmt) == SpecStatement::PrintFormat(ps),
                    strs == names_view(str_vars@),
                    nums == names_view(num_vars@),
                    ({
                        match spec_gen_parts(ps, strs, nums, k as int) {
                            Ok(rest) => spec_gen_parts(ps, strs, nums, 0) == Ok::<_, Seq<char>>(
                                out@ + rest,
                            ),
                            Err(e) => spec_gen_parts(ps, strs, nums, 0) == Err::<Seq<char>, _>(e),
                        }
                    }),
                decreases parts@.len() - k,
            {
                proof {
                    assert(ps[k as int] == parts@[k as int]@);
                }
                match generate_part(&parts[k], str_vars, num_vars) {
                    Err(m) => {
                        proof {
                            assert(spec_gen_parts(ps, strs, nums, k as int) is Err);
                            assert(deep_stmt(*stmt) == SpecStatement::PrintFormat(ps));
                            assert(spec_gen_stmt(deep_stmt(*stmt), strs, nums) is Err);
                        }
                        return Err(m);
                    },
                    Ok(piece) => {
                        let ghost before = out@;
                        out.append(piece.as_str());
                        proof {
                            if spec_gen_parts(ps, strs, nums, k as int + 1) is Ok {
                                assert(spec_gen_parts(ps, strs, nums, 0) matches Ok(t) && t
                                    =~= out@ + spec_gen_parts(ps, strs, nums, k as int + 1)->Ok_0);
                            }
                        }
                    },
                }
                k = k + 1;
            }
            out.append("    printf(\"\\n\");\n");
            proof {
                assert(deep_stmt(*stmt) == SpecStatement::PrintFormat(ps));
                assert(spec_gen_stmt(deep_stmt(*stmt), strs, nums) matches Ok(c) && out@ =~= c);
            }
            Ok(out)
        },
        Statement::FunctionCall(name) => {
            let mut out = lit("    ");
            out.append(name.as_str());
            out.append("();\n");
            proof {
                assert(out@ =~= "    "@ + name@ + "();\n"@);
            }
            Ok(out)
        },
        Statement::FunctionDefinition(_, _) => {
            let out = String::new();
            Ok(out)
        },
    }
}


/// Lowers a statement list, concatenating the pieces, first fault wins.
fn generate_body(body: &Vec<Statement>, str_vars: &Vec<String>, num_vars: &Vec<String>) -> (r:
    Result<String, String>)
    ensures
        ({
            let g = spec_gen_body(
                deep_stmts(body@),
                names_view(str_vars@),
                names_view(num_vars@),
                0,
            );
            &&& (r is Ok <==> g is Ok)
            &&& (r matches Ok(c) ==> g matches Ok(gc) && c@ == gc)
            &&& (r matches Err(m) ==> g matches Err(gm) && m@ == gm)
        }),
{
    let ghost bd = deep_stmts(body@);
    let ghost strs = names_view(str_vars@);
    let ghost nums = names_view(num_vars@);
    proof {
        lemma_deep_stmts_len(body@);
    }
    let mut out = String::new();
    let mut j: usize = 0;
    while j < body.len()
        invariant
            j <= body@.len(),
            bd == deep_stmts(body@),
            bd.len() == body@.len(),
            forall|i: int| 0 <= i < body@.len() ==> bd[i] == deep_stmt(body@[i]),
            strs == names_view(str_vars@),
            nums == names_view(num_vars@),
            ({
                match spec_gen_body(bd, strs, nums, j as int) {
                    Ok(rest) => spec_gen_body(bd, strs, nums, 0) == Ok::<_, Seq<char>>(
                        out@ + rest,
                    ),
                    Err(e) => spec_gen_body(bd, strs, nums, 0) == Err::<Seq<char>, _>(e),
                }
            }),
        decreases body@.len() - j,
    {
        match generate_statement(&body[j], str_vars, num_vars) {
            Err(m) => {
                proof {
                    assert(spec_gen_body(bd, strs, nums, j as int) is Err);
                }
                return Err(m);
            },
            Ok(c) => {
                out.append(c.as_str());
                proof {
                    if spec_gen_body(bd, strs, nums, j as int + 1) is Ok {
                        assert(spec_gen_body(bd, strs, nums, 0) matches Ok(t) && t =~= out@
                            + spec_gen_body(bd, strs, nums, j as int + 1)->Ok_0);
                    }
                }
            },
        }
        j = j + 1;
    }
    proof {
        assert(spec_gen_body(bd, strs, nums, 0) matches Ok(t) && t =~= out@);
    }
    Ok(out)
}

/// Generates the whole target text for a program, exactly as `spec_generate`
/// says: fixed header, one global per collected name, the routines, then the
/// entry point; or the first lowering fault.
pub fn generate_c_code(ast: &Vec<Statement>) -> (r: Result<String, String>)
    ensures
        ({
            let g = spec_generate(deep_stmts(ast@));
            &&& (r is Ok <==> g is Ok)
            &&& (r matches Ok(c) ==> g matches Ok(gc) && c@ == gc)
            &&& (r matches Err(m) ==> g matches Err(gm) && m@ == gm)
        }),
{
    let ghost p = deep_stmts(ast@);
    proof {
        lemma_deep_stmts_len(ast@);
    }
    let mut str_vars: Vec<String> = Vec::new();
    let mut num_vars: Vec<String> = Vec::new();
    proof {
        assert(names_view(str_vars@) =~= Seq::<Seq<char>>::empty());
        assert(names_view(num_vars@) =~= Seq::<Seq<char>>::empty());
    }
    collect_variables(ast, &mut str_vars, &mut num_vars);
    let ghost strs = names_view(str_vars@);
    let ghost nums = names_view(num_vars@);
    proof {
        assert((strs, nums) == spec_collect(p));
    }

    let mut code = lit(
        "#include <stdio.h>\n#include <stdlib.h>\n#include <string.h>\n#include <math.h>\n\n",
    );
    let mut k: usize = 0;
    proof {
        assert(code@ + spec_globals(strs, "char* "@, 0) =~= spec_header() + spec_globals(
            strs,
            "char* "@,
            0,
        ));
    }
    while k < str_vars.len()
        invariant
            k <= str_vars@.len(),
            strs == names_view(str_vars@),
            strs.len() == str_vars@.len(),
            code@ + spec_globals(strs, "char* "@, k as int) == spec_header() + spec_globals(
                strs,
                "char* "@,
                0,
            ),
        decreases str_vars@.len() - k,
    {
        code.append("char* ");
        code.append(str_vars[k].as_str());
        code.append(";\n");
        proof {
            assert(code@ + spec_globals(strs, "char* "@, k as int + 1) =~= spec_header()
                + spec_globals(strs, "char* "@, 0));
        }
        k = k + 1;
    }
    let ghost after_strs = spec_header() + spec_globals(strs, "char* "@, 0);
    proof {
        assert(code@ =~= after_strs);
    }
    let mut k2: usize = 0;
    while k2 < num_vars.len()
        invariant
            k2 <= num_vars@.len(),
            nums == names_view(num_vars@),
            nums.len() == num_vars@.len(),
            code@ + spec_globals(nums, "double "@, k2 as int) == after_strs + spec_globals(
                nums,
                "double "@,
                0,
            ),
        decreases num_vars@.len() - k2,
    {
        code.append("double ");
        code.append(num_vars[k2].as_str());
        code.append(";\n");
        proof {
            assert(code@ + spec_globals(nums, "double "@, k2 as int + 1) =~= after_strs
                + spec_globals(nums, "double "@, 0));
        }
        k2 = k2 + 1;
    }
    code.append("\n");
    let ghost after_globals = after_strs + spec_globals(nums, "double "@, 0) + "\n"@;
    proof {
        assert(code@ =~= after_globals);
    }

    let mut funcs_code = String::new();
    let mut i: usize = 0;
    while i < ast.len()
        invariant
            i <= ast@.len(),
            p == deep_stmts(ast@),
            p.len() == ast@.len(),
            forall|m: int| 0 <= m < ast@.len() ==> p[m] == deep_stmt(ast@[m]),
            strs == names_view(str_vars@),
            nums == names_view(num_vars@),
            (strs, nums) == spec_collect(p),
            ({
                match spec_gen_funcs(p, strs, nums, i as int) {
                    Ok(rest) => spec_gen_funcs(p, strs, nums, 0) == Ok::<_, Seq<char>>(
                        funcs_code@ + rest,
                    ),
                    Err(e) => spec_gen_funcs(p, strs, nums, 0) == Err::<Seq<char>, _>(e),
                }
            }),
        decreases ast@.len() - i,
    {
        match &ast[i] {
            Statement::FunctionDefinition(name, body) => {
                match generate_body(body, &str_vars, &num_vars) {
                    Err(m) => {
                        proof {
                            assert(p[i as int] == SpecStatement::FunctionDefinition(
                                name@,
                                deep_stmts(body@),
                            ));
                            assert(spec_gen_funcs(p, strs, nums, i as int) is Err);
                            assert(spec_generate(p) is Err);
                        }
                        return Err(m);
                    },
                    Ok(bc) => {
                        funcs_code.append("void ");
                        funcs_code.append(name.as_str());
                        funcs_code.append("(void) {\n");
                        funcs_code.append(bc.as_str());
                        funcs_code.append("}\n\n");
                        proof {
                            assert(p[i as int] == SpecStatement::FunctionDefinition(
                                name@,
                                deep_stmts(body@),
                            ));
                            if spec_gen_funcs(p, strs, nums, i as int + 1) is Ok {
                                assert(spec_gen_funcs(p, strs, nums, 0) matches Ok(t) && t
                                    =~= funcs_code@ + spec_gen_funcs(
                                    p,
                                    strs,
                                    nums,
                                    i as int + 1,
                                )->Ok_0);
                            }
                        }
                    },
                }
            },
            _ => {
                proof {
                    assert(spec_gen_funcs(p, strs, nums, i as int) == spec_gen_funcs(
                        p,
                        strs,
                        nums,
                        i as int + 1,
                    ));
                }
            },
        }
        i = i + 1;
    }
    let ghost fc = funcs_code@;
    proof {
        assert(spec_gen_funcs(p, strs, nums, 0) matches Ok(t) && t =~= fc);
    }

    let mut mains_code = String::new();
    let mut i2: usize = 0;
    while i2 < ast.len()
        invariant
            i2 <= ast@.len(),
            p == deep_stmts(ast@),
            p.len() == ast@.len(),
            forall|m: int| 0 <= m < ast@.len() ==> p[m] == deep_stmt(ast@[m]),
            strs == names_view(str_vars@),
            nums == names_view(num_vars@),
            (strs, nums) == spec_collect(p),
            spec_gen_funcs(p, strs, nums, 0) == Ok::<_, Seq<char>>(fc),
            fc == funcs_code@,
            ({
                match spec_gen_mains(p, strs, nums, i2 as int) {
                    Ok(rest) => spec_gen_mains(p, strs, nums, 0) == Ok::<_, Seq<char>>(
                        mains_code@ + rest,
                    ),
                    Err(e) => spec_gen_mains(p, strs, nums, 0) == Err::<Seq<char>, _>(e),
                }
            }),
        decreases ast@.len() - i2,
    {
        let is_fn = match &ast[i2] {
            Statement::FunctionDefinition(_, _) => true,
            _ => false,
        };
        if !is_fn {
            match generate_statement(&ast[i2], &str_vars, &num_vars) {
                Err(m) => {
                    proof {
                        assert(spec_gen_mains(p, strs, nums, i2 as int) is Err);
                        assert(spec_generate(p) is Err);
                    }
                    return Err(m);
                },
                Ok(c) => {
                    mains_code.append(c.as_str());
                    proof {
                        if spec_gen_mains(p, strs, nums, i2 as int + 1) is Ok {
                            assert(spec_gen_mains(p, strs, nums, 0) matches Ok(t) && t
                                =~= mains_code@ + spec_gen_mains(p, strs, nums, i2 as int + 1)->Ok_0);
                        }
                    }
                },
            }
        }
        i2 = i2 + 1;
    }
    let ghost mc = mains_code@;
    proof {
        assert(spec_gen_mains(p, strs, nums, 0) matches Ok(t) && t =~= mc);
    }

    code.append(funcs_code.as_str());
    code.append("int main() {\n");
    code.append(mains_code.as_str());
    code.append("    return 0;\n");
    code.append("}\n");
    proof {
        assert(spec_generate(p) matches Ok(t) && code@ =~= t);
    }
    Ok(code)
}

} // verus!

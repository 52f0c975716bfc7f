use vstd::prelude::*;
use crate::ast::{
    SpecExpression, SpecFormatPart, SpecNumExpression, SpecStatement, spec_add_decl,
    spec_declared, spec_decls_body, spec_decls_program, spec_decls_shallow, spec_decls_stmt,
    spec_has_name, spec_num_expr_vars, spec_used, spec_used_body, spec_used_program,
    spec_used_shallow, spec_used_stmt, spec_warning_text, spec_warnings, spec_warnings_upto,
};
use crate::codegen::{
    spec_collect, spec_escape, spec_escape_char, spec_gen_body, spec_gen_funcs, spec_gen_mains,
    spec_gen_num, spec_gen_part, spec_gen_parts, spec_gen_stmt, spec_generate,
    spec_has_str,
};

verus! {

// The library's laws: what the code generator's checks amount to, and that
// escaping is undone exactly by the target language's own unescaping.

// ---------------------------------------------------------------------------
// Escaping round trip.
// ---------------------------------------------------------------------------

/// The target language's reading of a quoted literal's content: a backslash
/// followed by n, t or r stands for the control character, a backslash
/// followed by anything else stands for that character, and every other
/// character stands for itself.
pub open spec fn spec_unescape(s: Seq<char>) -> Seq<char>
    decreases s.len(),
{
    if s.len() == 0 {
        Seq::empty()
    } else if s.first() == '\\' && s.len() >= 2 {
        let c = s[1];
        let u = if c == 'n' {
            '\n'
        } else if c == 't' {
            '\t'
        } else if c == 'r' {
            '\r'
        } else {
            c
        };
        seq![u] + spec_unescape(s.skip(2))
    } else {
        seq![s.first()] + spec_unescape(s.skip(1))
    }
}

/// Escaping a text for embedding and then undoing the escapes recovers the
/// text exactly, whatever backslashes, quotes, newlines, tabs or carriage
/// returns it held.
pub proof fn lemma_escape_round_trip(s: Seq<char>)
    ensures
        spec_unescape(spec_escape(s)) == s,
    decreases s.len(),
{
    reveal_strlit("\\\\");
    reveal_strlit("\\\"");
    reveal_strlit("\\n");
    reveal_strlit("\\t");
    reveal_strlit("\\r");
    if s.len() == 0 {
        assert(spec_unescape(spec_escape(s)) =~= s);
    } else {
        lemma_escape_round_trip(s.drop_first());
        let c = s.first();
        let e = spec_escape_char(c);
        let rest = spec_escape(s.drop_first());
        assert(spec_escape(s) == e + rest);
        if c == '\\' || c == '"' || c == '\n' || c == '\t' || c == '\r' {
            assert(e.len() == 2);
            assert(e[0] == '\\');
            assert((e + rest).skip(2) =~= rest);
            assert(spec_unescape(e + rest) == seq![c] + spec_unescape(rest));
            assert(seq![c] + s.drop_first() =~= s);
        } else {
            assert(e =~= seq![c]);
            assert((e + rest)[0] == c);
            assert((e + rest).skip(1) =~= rest);
            if c == '\\' {
            } else {
                assert(spec_unescape(e + rest) == seq![c] + spec_unescape(rest));
            }
            assert(seq![c] + s.drop_first() =~= s);
        }
    }
}

// ---------------------------------------------------------------------------
// Declaration-before-use and namespace exclusivity.
// ---------------------------------------------------------------------------

/// Whether one statement's references all resolve against the namespaces.
pub open spec fn spec_part_ok(
    p: SpecFormatPart,
    strs: Seq<Seq<char>>,
    nums: Seq<Seq<char>>,
) -> bool {
    match p {
        SpecFormatPart::Literal(_) => true,
        SpecFormatPart::Expression(SpecExpression::Variable(n)) => spec_has_str(strs, n)
            || spec_has_str(nums, n),
        SpecFormatPart::Expression(SpecExpression::FunctionCall(_)) => true,
        SpecFormatPart::Expression(SpecExpression::StringLiteral(_)) => false,
    }
}

pub open spec fn spec_num_ok(e: SpecNumExpression, nums: Seq<Seq<char>>) -> bool {
    forall|n: Seq<char>| spec_num_expr_vars(e).contains(n) ==> spec_has_str(nums, n)
}

pub open spec fn spec_text_rhs_ok(e: SpecExpression, strs: Seq<Seq<char>>) -> bool {
    match e {
        SpecExpression::StringLiteral(_) => true,
        SpecExpression::Variable(n) => spec_has_str(strs, n),
        SpecExpression::FunctionCall(_) => false,
    }
}

pub open spec fn spec_stmt_ok(
    s: SpecStatement,
    strs: Seq<Seq<char>>,
    nums: Seq<Seq<char>>,
) -> bool {
    match s {
        SpecStatement::VariableDeclaration(_, e, _) => spec_text_rhs_ok(e, strs),
        SpecStatement::NumDeclaration(_, e, _) => spec_num_ok(e, nums),
        SpecStatement::VariableAssignment(name, e, _) => spec_has_str(strs, name)
            && spec_text_rhs_ok(e, strs),
        SpecStatement::NumAssignment(name, e, _) => spec_has_str(nums, name) && spec_num_ok(
            e,
            nums,
        ),
        SpecStatement::Print(SpecExpression::StringLiteral(_)) => true,
        SpecStatement::Print(SpecExpression::Variable(n)) => spec_has_str(strs, n)
            || spec_has_str(nums, n),
        SpecStatement::Print(SpecExpression::FunctionCall(_)) => false,
        SpecStatement::PrintFormat(ps) => forall|k: int|
            0 <= k < ps.len() ==> spec_part_ok(#[trigger] ps[k], strs, nums),
        SpecStatement::FunctionCall(_) => true,
        SpecStatement::FunctionDefinition(_, _) => true,
    }
}

pub open spec fn spec_body_ok(
    ss: Seq<SpecStatement>,
    strs: Seq<Seq<char>>,
    nums: Seq<Seq<char>>,
) -> bool {
    forall|k: int| 0 <= k < ss.len() ==> spec_stmt_ok(#[trigger] ss[k], strs, nums)
}

/// Whether every reference of the program resolves in its namespace; routine
/// bodies count like top-level statements.
pub open spec fn spec_program_ok(p: Seq<SpecStatement>) -> bool {
    let strs = spec_collect(p).0;
    let nums = spec_collect(p).1;
    forall|k: int|
        0 <= k < p.len() ==> (spec_stmt_ok(#[trigger] p[k], strs, nums) && (p[k]
            matches SpecStatement::FunctionDefinition(_, body) ==> spec_body_ok(
            body,
            strs,
            nums,
        )))
}

/// The shapes a generation fault can take: a fixed complaint about an
/// expression form, or a complaint that embeds an unresolved name.
pub open spec fn spec_err_shape(m: Seq<char>, strs: Seq<Seq<char>>, nums: Seq<Seq<char>>) -> bool {
    ||| m == "Invalid expression for variable declaration"@
    ||| m == "Invalid expression for variable assignment"@
    ||| m == "Invalid expression for print statement"@
    ||| m == "Invalid expression in format string"@
    ||| exists|n: Seq<char>|
        {
            ||| (m == "Variable '"@ + n + "' used before declaration"@ && !spec_has_str(strs, n)
                && !spec_has_str(nums, n))
            ||| (m == "Variable '"@ + n + "' used before declaration"@ && !spec_has_str(strs, n))
            ||| (m == "Numerical variable '"@ + n + "' used before declaration"@ && !spec_has_str(
                nums,
                n,
            ))
            ||| (m == "Variable '"@ + n + "' assigned before declaration"@ && !spec_has_str(
                strs,
                n,
            ))
            ||| (m == "Numerical variable '"@ + n + "' assigned before declaration"@
                && !spec_has_str(nums, n))
        }
}

pub proof fn lemma_gen_num_iff(e: SpecNumExpression, nums: Seq<Seq<char>>)
    ensures
        spec_gen_num(e, nums) is Ok <==> spec_num_ok(e, nums),
        spec_gen_num(e, nums) matches Err(m) ==> exists|n: Seq<char>|
            m == "Numerical variable '"@ + n + "' used before declaration"@ && !spec_has_str(
                nums,
                n,
            ),
    decreases e,
{
    match e {
        SpecNumExpression::NumberLiteral(_) => {
            assert(spec_num_ok(e, nums));
        },
        SpecNumExpression::Variable(n) => {
            assert(spec_num_expr_vars(e).contains(n));
            if spec_has_str(nums, n) {
                assert(forall|x: Seq<char>|
                    spec_num_expr_vars(e).contains(x) ==> x == n && spec_has_str(nums, x));
            }
        },
        SpecNumExpression::BinaryOp(l, _, r) => {
            lemma_gen_num_iff(*l, nums);
            lemma_gen_num_iff(*r, nums);
            assert(spec_num_ok(e, nums) <==> (spec_num_ok(*l, nums) && spec_num_ok(*r, nums))) by {
                if spec_num_ok(e, nums) {
                    assert forall|n: Seq<char>|
                        spec_num_expr_vars(*l).contains(n) implies spec_has_str(nums, n) by {
                        assert(spec_num_expr_vars(e).contains(n));
                    }
                    assert forall|n: Seq<char>|
                        spec_num_expr_vars(*r).contains(n) implies spec_has_str(nums, n) by {
                        assert(spec_num_expr_vars(e).contains(n));
                    }
                }
            }
        },
        SpecNumExpression::Grouping(inner) => {
            lemma_gen_num_iff(*inner, nums);
            assert(spec_num_ok(e, nums) <==> spec_num_ok(*inner, nums)) by {
                if spec_num_ok(e, nums) {
                    assert forall|n: Seq<char>|
                        spec_num_expr_vars(*inner).contains(n) implies spec_has_str(nums, n) by {
                        assert(spec_num_expr_vars(e).contains(n));
                    }
                }
            }
        },
    }
}

pub proof fn lemma_gen_parts_iff(
    ps: Seq<SpecFormatPart>,
    strs: Seq<Seq<char>>,
    nums: Seq<Seq<char>>,
    i: int,
)
    requires
        0 <= i <= ps.len(),
    ensures
        spec_gen_parts(ps, strs, nums, i) is Ok <==> forall|k: int|
            i <= k < ps.len() ==> spec_part_ok(#[trigger] ps[k], strs, nums),
        spec_gen_parts(ps, strs, nums, i) matches Err(m) ==> spec_err_shape(m, strs, nums),
    decreases ps.len() - i,
{
    if i < ps.len() {
        lemma_gen_parts_iff(ps, strs, nums, i + 1);
        match spec_gen_part(ps[i], strs, nums) {
            Err(m) => {
                match ps[i] {
                    SpecFormatPart::Expression(SpecExpression::Variable(n)) => {
                        assert(m == "Variable '"@ + n + "' used before declaration"@);
                    },
                    _ => {},
                }
            },
            Ok(_) => {},
        }
    }
}

pub proof fn lemma_gen_stmt_iff(s: SpecStatement, strs: Seq<Seq<char>>, nums: Seq<Seq<char>>)
    ensures
        spec_gen_stmt(s, strs, nums) is Ok <==> spec_stmt_ok(s, strs, nums),
        spec_gen_stmt(s, strs, nums) matches Err(m) ==> spec_err_shape(m, strs, nums),
{
    match s {
        SpecStatement::NumDeclaration(_, e, _) => {
            lemma_gen_num_iff(e, nums);
        },
        SpecStatement::NumAssignment(_, e, _) => {
            lemma_gen_num_iff(e, nums);
        },
        SpecStatement::PrintFormat(ps) => {
            lemma_gen_parts_iff(ps, strs, nums, 0);
        },
        _ => {},
    }
}

pub proof fn lemma_gen_body_iff(
    ss: Seq<SpecStatement>,
    strs: Seq<Seq<char>>,
    nums: Seq<Seq<char>>,
    i: int,
)
    requires
        0 <= i <= ss.len(),
    ensures
        spec_gen_body(ss, strs, nums, i) is Ok <==> forall|k: int|
            i <= k < ss.len() ==> spec_stmt_ok(#[trigger] ss[k], strs, nums),
        spec_gen_body(ss, strs, nums, i) matches Err(m) ==> spec_err_shape(m, strs, nums),
    decreases ss.len() - i,
{
    if i < ss.len() {
        lemma_gen_stmt_iff(ss[i], strs, nums);
        lemma_gen_body_iff(ss, strs, nums, i + 1);
    }
}

pub proof fn lemma_gen_funcs_iff(
    p: Seq<SpecStatement>,
    strs: Seq<Seq<char>>,
    nums: Seq<Seq<char>>,
    i: int,
)
    requires
        0 <= i <= p.len(),
    ensures
        spec_gen_funcs(p, strs, nums, i) is Ok <==> forall|k: int|
            i <= k < p.len() ==> (#[trigger] p[k] matches SpecStatement::FunctionDefinition(
                _,
                body,
            ) ==> spec_body_ok(body, strs, nums)),
        spec_gen_funcs(p, strs, nums, i) matches Err(m) ==> spec_err_shape(m, strs, nums),
    decreases p.len() - i,
{
    if i < p.len() {
        lemma_gen_funcs_iff(p, strs, nums, i + 1);
        match p[i] {
            SpecStatement::FunctionDefinition(_, body) => {
                lemma_gen_body_iff(body, strs, nums, 0);
            },
            _ => {},
        }
    }
}

pub proof fn lemma_gen_mains_iff(
    p: Seq<SpecStatement>,
    strs: Seq<Seq<char>>,
    nums: Seq<Seq<char>>,
    i: int,
)
    requires
        0 <= i <= p.len(),
    ensures
        spec_gen_mains(p, strs, nums, i) is Ok <==> forall|k: int|
            i <= k < p.len() ==> (!(#[trigger] p[k] is FunctionDefinition) ==> spec_stmt_ok(
                p[k],
                strs,
                nums,
            )),
        spec_gen_mains(p, strs, nums, i) matches Err(m) ==> spec_err_shape(m, strs, nums),
    decreases p.len() - i,
{
    if i < p.len() {
        lemma_gen_mains_iff(p, strs, nums, i + 1);
        match p[i] {
            SpecStatement::FunctionDefinition(_, _) => {},
            _ => {
                lemma_gen_stmt_iff(p[i], strs, nums);
            },
        }
    }
}

/// Declaration-before-use: code generation succeeds exactly when every
/// referenced name stands in the matching namespace (routine bodies
/// included); no default value is ever substituted for a missing name.
pub proof fn lemma_generate_ok_iff(p: Seq<SpecStatement>)
    ensures
        spec_generate(p) is Ok <==> spec_program_ok(p),
{
    let strs = spec_collect(p).0;
    let nums = spec_collect(p).1;
    lemma_gen_funcs_iff(p, strs, nums, 0);
    lemma_gen_mains_iff(p, strs, nums, 0);
    if spec_gen_funcs(p, strs, nums, 0) is Ok && spec_gen_mains(p, strs, nums, 0) is Ok {
        assert forall|k: int| 0 <= k < p.len() implies (spec_stmt_ok(#[trigger] p[k], strs, nums)
            && (p[k] matches SpecStatement::FunctionDefinition(_, body) ==> spec_body_ok(
            body,
            strs,
            nums,
        ))) by {
            if p[k] is FunctionDefinition {
                assert(spec_stmt_ok(p[k], strs, nums));
            }
        }
    }
}

/// Declaration-before-use, the diagnostic half: when generation fails, the
/// fault is either one of the fixed complaints about an expression form the
/// parser never builds, or it embeds a name that is missing from the
/// namespace the reference needed.
pub proof fn lemma_generate_err_names_offender(p: Seq<SpecStatement>)
    requires
        spec_generate(p) is Err,
    ensures
        spec_err_shape(
            spec_generate(p)->Err_0,
            spec_collect(p).0,
            spec_collect(p).1,
        ),
{
    let strs = spec_collect(p).0;
    let nums = spec_collect(p).1;
    lemma_gen_funcs_iff(p, strs, nums, 0);
    lemma_gen_mains_iff(p, strs, nums, 0);
}

/// Whether one statement (not a routine definition) references `n` inside a
/// numeric expression.
pub open spec fn spec_stmt_refs_num(s: SpecStatement, n: Seq<char>) -> bool {
    match s {
        SpecStatement::NumDeclaration(_, e, _) => spec_num_expr_vars(e).contains(n),
        SpecStatement::NumAssignment(_, e, _) => spec_num_expr_vars(e).contains(n),
        _ => false,
    }
}

pub open spec fn spec_body_refs_num(body: Seq<SpecStatement>, n: Seq<char>) -> bool {
    exists|j: int| 0 <= j < body.len() && spec_stmt_refs_num(#[trigger] body[j], n)
}

/// Whether the program references `n` inside any numeric expression, at top
/// level or inside a routine body.
pub open spec fn spec_refs_num(p: Seq<SpecStatement>, n: Seq<char>) -> bool {
    exists|k: int|
        0 <= k < p.len() && (spec_stmt_refs_num(#[trigger] p[k], n) || (p[k]
            matches SpecStatement::FunctionDefinition(_, body) && spec_body_refs_num(body, n)))
}

/// Whether one statement (not a routine definition) references `n` as the
/// right-hand side of a text declaration or reassignment.
pub open spec fn spec_stmt_refs_text(s: SpecStatement, n: Seq<char>) -> bool {
    match s {
        SpecStatement::VariableDeclaration(_, SpecExpression::Variable(m), _) => m == n,
        SpecStatement::VariableAssignment(_, SpecExpression::Variable(m), _) => m == n,
        _ => false,
    }
}

pub open spec fn spec_body_refs_text(body: Seq<SpecStatement>, n: Seq<char>) -> bool {
    exists|j: int| 0 <= j < body.len() && spec_stmt_refs_text(#[trigger] body[j], n)
}

/// Whether the program references `n` as the right-hand side of a text
/// declaration or reassignment, at top level or inside a routine body.
pub open spec fn spec_refs_text(p: Seq<SpecStatement>, n: Seq<char>) -> bool {
    exists|k: int|
        0 <= k < p.len() && (spec_stmt_refs_text(#[trigger] p[k], n) || (p[k]
            matches SpecStatement::FunctionDefinition(_, body) && spec_body_refs_text(body, n)))
}

/// Namespace exclusivity, numeric side: a name referenced inside a numeric
/// expression but absent from the numeric namespace — in particular one
/// declared only as text — fails generation.
pub proof fn lemma_numeric_ref_outside_namespace_fails(p: Seq<SpecStatement>, n: Seq<char>)
    requires
        spec_refs_num(p, n),
        !spec_has_str(spec_collect(p).1, n),
    ensures
        spec_generate(p) is Err,
{
    lemma_generate_ok_iff(p);
    if spec_generate(p) is Ok {
        let k = choose|k: int|
            0 <= k < p.len() && (spec_stmt_refs_num(#[trigger] p[k], n) || (p[k]
                matches SpecStatement::FunctionDefinition(_, body) && spec_body_refs_num(
                body,
                n,
            )));
        assert(spec_stmt_ok(p[k], spec_collect(p).0, spec_collect(p).1));
        if spec_stmt_refs_num(p[k], n) {
        } else {
            match p[k] {
                SpecStatement::FunctionDefinition(_, body) => {
                    let j = choose|j: int|
                        0 <= j < body.len() && spec_stmt_refs_num(#[trigger] body[j], n);
                    assert(spec_stmt_ok(body[j], spec_collect(p).0, spec_collect(p).1));
                },
                _ => {},
            }
        }
    }
}

/// Namespace exclusivity, text side: a name standing as the right-hand side
/// of a text declaration or reassignment but absent from the text namespace
/// — in particular one declared only as numeric — fails generation.
pub proof fn lemma_text_ref_outside_namespace_fails(p: Seq<SpecStatement>, n: Seq<char>)
    requires
        spec_refs_text(p, n),
        !spec_has_str(spec_collect(p).0, n),
    ensures
        spec_generate(p) is Err,
{
    lemma_generate_ok_iff(p);
    if spec_generate(p) is Ok {
        let k = choose|k: int|
            0 <= k < p.len() && (spec_stmt_refs_text(#[trigger] p[k], n) || (p[k]
                matches SpecStatement::FunctionDefinition(_, body) && spec_body_refs_text(
                body,
                n,
            )));
        assert(spec_stmt_ok(p[k], spec_collect(p).0, spec_collect(p).1));
        if spec_stmt_refs_text(p[k], n) {
        } else {
            match p[k] {
                SpecStatement::FunctionDefinition(_, body) => {
                    let j = choose|j: int|
                        0 <= j < body.len() && spec_stmt_refs_text(#[trigger] body[j], n);
                    assert(spec_stmt_ok(body[j], spec_collect(p).0, spec_collect(p).1));
                },
                _ => {},
            }
        }
    }
}

// ---------------------------------------------------------------------------
// Unused-variable warnings.
// ---------------------------------------------------------------------------

/// How many declared names up to position `i` the program never uses.
pub open spec fn spec_unused_count(
    decls: Seq<(Seq<char>, int)>,
    used: Set<Seq<char>>,
    i: int,
) -> int
    decreases i,
{
    if i <= 0 {
        0
    } else {
        spec_unused_count(decls, used, i - 1) + (if used.contains(decls[i - 1].0) {
            0int
        } else {
            1int
        })
    }
}

pub open spec fn spec_unique_names(ds: Seq<(Seq<char>, int)>) -> bool {
    forall|a: int, b: int| 0 <= a < b < ds.len() ==> (#[trigger] ds[a]).0 != (#[trigger] ds[b]).0
}

proof fn lemma_add_decl_unique(acc: Seq<(Seq<char>, int)>, n: Seq<char>, l: int)
    requires
        spec_unique_names(acc),
    ensures
        spec_unique_names(spec_add_decl(acc, n, l)),
        forall|a: int|
            0 <= a < acc.len() ==> #[trigger] spec_add_decl(acc, n, l)[a] == acc[a],
        acc.len() <= spec_add_decl(acc, n, l).len(),
{
    if !spec_has_name(acc, n) {
        assert forall|a: int, b: int|
            0 <= a < b < spec_add_decl(acc, n, l).len() implies (#[trigger] spec_add_decl(
            acc,
            n,
            l,
        )[a]).0 != (#[trigger] spec_add_decl(acc, n, l)[b]).0 by {
            if b == acc.len() {
                assert(!spec_has_name(acc, n));
                assert(spec_add_decl(acc, n, l)[a] == acc[a]);
            }
        }
    }
}

proof fn lemma_decls_shallow_unique(acc: Seq<(Seq<char>, int)>, s: SpecStatement)
    requires
        spec_unique_names(acc),
    ensures
        spec_unique_names(spec_decls_shallow(acc, s)),
{
    match s {
        SpecStatement::VariableDeclaration(n, _, l) => lemma_add_decl_unique(acc, n, l),
        SpecStatement::NumDeclaration(n, _, l) => lemma_add_decl_unique(acc, n, l),
        _ => {},
    }
}

proof fn lemma_decls_body_unique(acc: Seq<(Seq<char>, int)>, ss: Seq<SpecStatement>, i: int)
    requires
        spec_unique_names(acc),
    ensures
        spec_unique_names(spec_decls_body(acc, ss, i)),
    decreases ss.len() - i,
{
    if 0 <= i < ss.len() {
        lemma_decls_shallow_unique(acc, ss[i]);
        lemma_decls_body_unique(spec_decls_shallow(acc, ss[i]), ss, i + 1);
    }
}

proof fn lemma_decls_stmt_unique(acc: Seq<(Seq<char>, int)>, s: SpecStatement)
    requires
        spec_unique_names(acc),
    ensures
        spec_unique_names(spec_decls_stmt(acc, s)),
{
    match s {
        SpecStatement::FunctionDefinition(_, body) => lemma_decls_body_unique(acc, body, 0),
        _ => lemma_decls_shallow_unique(acc, s),
    }
}

proof fn lemma_decls_program_unique(acc: Seq<(Seq<char>, int)>, p: Seq<SpecStatement>, i: int)
    requires
        spec_unique_names(acc),
    ensures
        spec_unique_names(spec_decls_program(acc, p, i)),
    decreases p.len() - i,
{
    if 0 <= i < p.len() {
        lemma_decls_stmt_unique(acc, p[i]);
        lemma_decls_program_unique(spec_decls_stmt(acc, p[i]), p, i + 1);
    }
}

/// Each declared name stands in the table once: the line of its first
/// declaration is the one kept.
pub proof fn lemma_declared_unique(p: Seq<SpecStatement>)
    ensures
        spec_unique_names(spec_declared(p)),
{
    lemma_decls_program_unique(Seq::empty(), p, 0);
}

proof fn lemma_warnings_upto_contains(
    decls: Seq<(Seq<char>, int)>,
    used: Set<Seq<char>>,
    i: int,
    k: int,
)
    requires
        0 <= k < i <= decls.len(),
        !used.contains(decls[k].0),
    ensures
        spec_warnings_upto(decls, used, i).contains(spec_warning_text(decls[k].0, decls[k].1)),
    decreases i,
{
    if k == i - 1 {
        let w = spec_warning_text(decls[k].0, decls[k].1);
        let ws = spec_warnings_upto(decls, used, i);
        assert(ws[ws.len() - 1] == w);
    } else {
        lemma_warnings_upto_contains(decls, used, i - 1, k);
        let prev = spec_warnings_upto(decls, used, i - 1);
        let w = spec_warning_text(decls[k].0, decls[k].1);
        let idx = choose|idx: int| 0 <= idx < prev.len() && prev[idx] == w;
        assert(spec_warnings_upto(decls, used, i)[idx] == w);
    }
}

proof fn lemma_warnings_upto_sources(
    decls: Seq<(Seq<char>, int)>,
    used: Set<Seq<char>>,
    i: int,
    j: int,
)
    requires
        0 <= i <= decls.len(),
        0 <= j < spec_warnings_upto(decls, used, i).len(),
    ensures
        exists|k: int|
            0 <= k < i && !used.contains((#[trigger] decls[k]).0) && spec_warnings_upto(
                decls,
                used,
                i,
            )[j] == spec_warning_text(decls[k].0, decls[k].1),
    decreases i,
{
    let prev = spec_warnings_upto(decls, used, i - 1);
    if j < prev.len() {
        lemma_warnings_upto_sources(decls, used, i - 1, j);
        let k = choose|k: int|
            0 <= k < i - 1 && !used.contains((#[trigger] decls[k]).0) && prev[j]
                == spec_warning_text(decls[k].0, decls[k].1);
        assert(spec_warnings_upto(decls, used, i)[j] == prev[j]);
        assert(0 <= k < i && !used.contains((#[trigger] decls[k]).0) && spec_warnings_upto(
            decls,
            used,
            i,
        )[j] == spec_warning_text(decls[k].0, decls[k].1));
    } else {
        assert(!used.contains(decls[i - 1].0));
        assert(spec_warnings_upto(decls, used, i)[j] == spec_warning_text(
            decls[i - 1].0,
            decls[i - 1].1,
        ));
        assert(0 <= i - 1 < i && !used.contains((#[trigger] decls[i - 1]).0));
    }
}

proof fn lemma_warnings_upto_len(decls: Seq<(Seq<char>, int)>, used: Set<Seq<char>>, i: int)
    requires
        0 <= i <= decls.len(),
    ensures
        spec_warnings_upto(decls, used, i).len() == spec_unused_count(decls, used, i),
    decreases i,
{
    if i > 0 {
        lemma_warnings_upto_len(decls, used, i - 1);
    }
}

/// The unused-variable law: the warnings are exactly one per declared name
/// the program never uses — each such name yields the warning that cites its
/// first declaration line, every warning arises from such a name, their
/// number equals the number of unused names, and no name is listed twice.
pub proof fn lemma_unused_variable_warnings(p: Seq<SpecStatement>)
    ensures
        forall|k: int|
            0 <= k < spec_declared(p).len() && !spec_used(p).contains(
                (#[trigger] spec_declared(p)[k]).0,
            ) ==> spec_warnings(p).contains(
                spec_warning_text(spec_declared(p)[k].0, spec_declared(p)[k].1),
            ),
        forall|j: int|
            0 <= j < spec_warnings(p).len() ==> exists|k: int|
                0 <= k < spec_declared(p).len() && !spec_used(p).contains(
                    (#[trigger] spec_declared(p)[k]).0,
                ) && #[trigger] spec_warnings(p)[j] == spec_warning_text(
                    spec_declared(p)[k].0,
                    spec_declared(p)[k].1,
                ),
        spec_warnings(p).len() == spec_unused_count(
            spec_declared(p),
            spec_used(p),
            spec_declared(p).len() as int,
        ),
        spec_unique_names(spec_declared(p)),
{
    let decls = spec_declared(p);
    let used = spec_used(p);
    lemma_declared_unique(p);
    lemma_warnings_upto_len(decls, used, decls.len() as int);
    assert forall|k: int|
        0 <= k < decls.len() && !used.contains((#[trigger] decls[k]).0) implies spec_warnings(
        p,
    ).contains(spec_warning_text(decls[k].0, decls[k].1)) by {
        lemma_warnings_upto_contains(decls, used, decls.len() as int, k);
    }
    assert forall|j: int| 0 <= j < spec_warnings(p).len() implies exists|k: int|
        0 <= k < decls.len() && !used.contains((#[trigger] decls[k]).0)
            && #[trigger] spec_warnings(p)[j] == spec_warning_text(decls[k].0, decls[k].1) by {
        lemma_warnings_upto_sources(decls, used, decls.len() as int, j);
    }
}

proof fn lemma_used_body_mono(ss: Seq<SpecStatement>, i: int, j: int, n: Seq<char>)
    requires
        0 <= i <= j < ss.len(),
        spec_used_shallow(ss[j]).contains(n),
    ensures
        spec_used_body(ss, i).contains(n),
    decreases j - i,
{
    if i < j {
        lemma_used_body_mono(ss, i + 1, j, n);
    }
}

proof fn lemma_used_program_mono(p: Seq<SpecStatement>, i: int, k: int, n: Seq<char>)
    requires
        0 <= i <= k < p.len(),
        spec_used_stmt(p[k]).contains(n),
    ensures
        spec_used_program(p, i).contains(n),
    decreases k - i,
{
    if i < k {
        lemma_used_program_mono(p, i + 1, k, n);
    }
}

/// A name referenced only inside a routine body still counts as used, so it
/// draws no unused-variable warning.
pub proof fn lemma_body_reference_counts_as_use(
    p: Seq<SpecStatement>,
    i: int,
    j: int,
    n: Seq<char>,
)
    requires
        0 <= i < p.len(),
        p[i] matches SpecStatement::FunctionDefinition(f, body) && 0 <= j < body.len()
            && spec_used_shallow(body[j]).contains(n),
    ensures
        spec_used(p).contains(n),
        forall|w: int|
            0 <= w < spec_warnings(p).len() ==> forall|l: int|
                #[trigger] spec_warnings(p)[w] != spec_warning_text(n, l) || exists|k: int|
                    0 <= k < spec_declared(p).len() && (#[trigger] spec_declared(p)[k]).0 != n
                        && spec_warnings(p)[w] == spec_warning_text(
                        spec_declared(p)[k].0,
                        spec_declared(p)[k].1,
                    ),
{
    match p[i] {
        SpecStatement::FunctionDefinition(_, body) => {
            lemma_used_body_mono(body, 0, j, n);
            assert(spec_used_stmt(p[i]).contains(n));
            lemma_used_program_mono(p, 0, i, n);
        },
        _ => {},
    }
    lemma_unused_variable_warnings(p);
    assert forall|w: int| 0 <= w < spec_warnings(p).len() implies forall|l: int|
        #[trigger] spec_warnings(p)[w] != spec_warning_text(n, l) || exists|k: int|
            0 <= k < spec_declared(p).len() && (#[trigger] spec_declared(p)[k]).0 != n
                && spec_warnings(p)[w] == spec_warning_text(
                spec_declared(p)[k].0,
                spec_declared(p)[k].1,
            ) by {
        let k = choose|k: int|
            0 <= k < spec_declared(p).len() && !spec_used(p).contains(
                (#[trigger] spec_declared(p)[k]).0,
            ) && spec_warnings(p)[w] == spec_warning_text(
                spec_declared(p)[k].0,
                spec_declared(p)[k].1,
            );
        assert(spec_declared(p)[k].0 != n);
    }
}

} // verus!

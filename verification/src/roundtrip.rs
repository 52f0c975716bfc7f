use vstd::prelude::*;
use crate::ast::{BinaryOperator, SpecNumExpression, spec_num_expr_vars};
use crate::chars::{spec_is_alnum, spec_is_ascii_letter, spec_is_digit};
use crate::codegen::{spec_gen_num, spec_op_char, spec_has_str};
use crate::laws::spec_num_ok;
use crate::lexer::{
    spec_ident_end, spec_keyword_token, spec_lex, spec_num_end, spec_tok, spec_tokenize,
};
use crate::parser::{
    PRes, sp_add_tail, sp_addition, sp_mul_tail, sp_multiplication, sp_num_expression, sp_primary,
    tok_at,
};
use crate::token::{SpecToken, SpecTokenType};
use crate::tokenizer::spec_count;

verus! {

// The parenthesization law: the generator wraps every operation and grouping
// in parentheses, so the emitted text, read back through the lexer and the
// expression grammar, denotes a tree that differs from the original only in
// grouping nodes. Any evaluator that honors the grammar of the emitted text
// therefore computes exactly the value standard precedence gives the
// original expression.

/// A variable name the lexer reads back as one identifier: nonempty, an
/// ASCII letter or underscore first, word characters throughout, and not a
/// keyword of the language.
pub open spec fn wf_var_name(n: Seq<char>) -> bool {
    &&& n.len() > 0
    &&& (spec_is_ascii_letter(n[0]) || n[0] == '_')
    &&& (forall|k: int| 0 <= k < n.len() ==> spec_is_alnum(#[trigger] n[k]) || n[k] == '_')
    &&& spec_keyword_token(n) is Identifier
}

/// A numeral the lexer reads back as one number: nonempty, a digit first,
/// digits and at most one dot throughout.
pub open spec fn wf_numeral(t: Seq<char>) -> bool {
    &&& t.len() > 0
    &&& spec_is_digit(t[0])
    &&& (forall|k: int| 0 <= k < t.len() ==> spec_is_digit(#[trigger] t[k]) || t[k] == '.')
    &&& spec_count(t, '.') <= 1
}

/// An expression whose names and numerals survive the round trip.
pub open spec fn wf_num_expr(e: SpecNumExpression) -> bool
    decreases e,
{
    match e {
        SpecNumExpression::NumberLiteral(t) => wf_numeral(t),
        SpecNumExpression::Variable(n) => wf_var_name(n),
        SpecNumExpression::BinaryOp(l, _, r) => wf_num_expr(*l) && wf_num_expr(*r),
        SpecNumExpression::Grouping(inner) => wf_num_expr(*inner),
    }
}

/// The tree with its grouping nodes dissolved: what any evaluator computes
/// depends only on this skeleton.
pub open spec fn strip_groups(e: SpecNumExpression) -> SpecNumExpression
    decreases e,
{
    match e {
        SpecNumExpression::NumberLiteral(t) => SpecNumExpression::NumberLiteral(t),
        SpecNumExpression::Variable(n) => SpecNumExpression::Variable(n),
        SpecNumExpression::BinaryOp(l, op, r) => SpecNumExpression::BinaryOp(
            Box::new(strip_groups(*l)),
            op,
            Box::new(strip_groups(*r)),
        ),
        SpecNumExpression::Grouping(inner) => strip_groups(*inner),
    }
}

/// The generated text of an expression, written over plain characters.
pub open spec fn gtext(e: SpecNumExpression) -> Seq<char>
    decreases e,
{
    match e {
        SpecNumExpression::NumberLiteral(t) => t,
        SpecNumExpression::Variable(n) => n,
        SpecNumExpression::BinaryOp(l, op, r) => seq!['('] + gtext(*l) + seq![spec_op_char(op)]
            + gtext(*r) + seq![')'],
        SpecNumExpression::Grouping(inner) => seq!['('] + gtext(*inner) + seq![')'],
    }
}

/// Under resolved names, the generator emits exactly `gtext`.
pub proof fn lemma_gen_num_is_gtext(e: SpecNumExpression, nums: Seq<Seq<char>>)
    requires
        spec_num_ok(e, nums),
    ensures
        spec_gen_num(e, nums) == Ok::<Seq<char>, Seq<char>>(gtext(e)),
    decreases e,
{
    reveal_strlit("(");
    reveal_strlit(")");
    match e {
        SpecNumExpression::NumberLiteral(_) => {},
        SpecNumExpression::Variable(n) => {
            assert(spec_num_expr_vars(e).contains(n));
        },
        SpecNumExpression::BinaryOp(l, op, r) => {
            assert forall|n: Seq<char>|
                spec_num_expr_vars(*l).contains(n) implies spec_has_str(nums, n) by {
                assert(spec_num_expr_vars(e).contains(n));
            }
            assert forall|n: Seq<char>|
                spec_num_expr_vars(*r).contains(n) implies spec_has_str(nums, n) by {
                assert(spec_num_expr_vars(e).contains(n));
            }
            lemma_gen_num_is_gtext(*l, nums);
            lemma_gen_num_is_gtext(*r, nums);
            assert("("@ + gtext(*l) + seq![spec_op_char(op)] + gtext(*r) + ")"@ =~= gtext(e));
        },
        SpecNumExpression::Grouping(inner) => {
            assert forall|n: Seq<char>|
                spec_num_expr_vars(*inner).contains(n) implies spec_has_str(nums, n) by {
                assert(spec_num_expr_vars(e).contains(n));
            }
            lemma_gen_num_is_gtext(*inner, nums);
            assert("("@ + gtext(*inner) + ")"@ =~= gtext(e));
        },
    }
}

/// The length of the generated text.
pub open spec fn glen(e: SpecNumExpression) -> int
    decreases e,
{
    match e {
        SpecNumExpression::NumberLiteral(t) => t.len() as int,
        SpecNumExpression::Variable(n) => n.len() as int,
        SpecNumExpression::BinaryOp(l, _, r) => 3 + glen(*l) + glen(*r),
        SpecNumExpression::Grouping(inner) => 2 + glen(*inner),
    }
}

pub proof fn lemma_glen(e: SpecNumExpression)
    ensures
        glen(e) == gtext(e).len(),
        wf_num_expr(e) ==> glen(e) >= 1,
    decreases e,
{
    match e {
        SpecNumExpression::BinaryOp(l, _, r) => {
            lemma_glen(*l);
            lemma_glen(*r);
        },
        SpecNumExpression::Grouping(inner) => {
            lemma_glen(*inner);
        },
        _ => {},
    }
}

/// The first character the generated text starts with.
pub proof fn lemma_gtext_first(e: SpecNumExpression)
    requires
        wf_num_expr(e),
    ensures
        gtext(e).len() >= 1,
        gtext(e)[0] == '(' || spec_is_digit(gtext(e)[0]) || spec_is_ascii_letter(gtext(e)[0])
            || gtext(e)[0] == '_',
{
    lemma_glen(e);
}

pub open spec fn op_tt(op: BinaryOperator) -> SpecTokenType {
    match op {
        BinaryOperator::Add => SpecTokenType::Plus,
        BinaryOperator::Subtract => SpecTokenType::Minus,
        BinaryOperator::Multiply => SpecTokenType::Star,
        BinaryOperator::Divide => SpecTokenType::Slash,
    }
}

/// The tokens of the generated text, with the positions the lexer assigns
/// when the text starts at the given line and column.
pub open spec fn gen_toks(e: SpecNumExpression, line: int, col: int) -> Seq<SpecToken>
    decreases e,
{
    match e {
        SpecNumExpression::NumberLiteral(t) => seq![
            spec_tok(SpecTokenType::NumberLiteral(t), line, col),
        ],
        SpecNumExpression::Variable(n) => seq![spec_tok(SpecTokenType::Identifier(n), line, col)],
        SpecNumExpression::BinaryOp(l, op, r) => seq![
            spec_tok(SpecTokenType::OpenParen, line, col),
        ] + gen_toks(*l, line, col + 1) + seq![spec_tok(op_tt(op), line, col + 1 + glen(*l))]
            + gen_toks(*r, line, col + 2 + glen(*l)) + seq![
            spec_tok(SpecTokenType::CloseParen, line, col + 2 + glen(*l) + glen(*r)),
        ],
        SpecNumExpression::Grouping(inner) => seq![spec_tok(SpecTokenType::OpenParen, line, col)]
            + gen_toks(*inner, line, col + 1) + seq![
            spec_tok(SpecTokenType::CloseParen, line, col + 1 + glen(*inner)),
        ],
    }
}

/// The number of tokens of the generated text.
pub open spec fn ntoks(e: SpecNumExpression) -> int
    decreases e,
{
    match e {
        SpecNumExpression::NumberLiteral(_) => 1,
        SpecNumExpression::Variable(_) => 1,
        SpecNumExpression::BinaryOp(l, _, r) => 3 + ntoks(*l) + ntoks(*r),
        SpecNumExpression::Grouping(inner) => 2 + ntoks(*inner),
    }
}

pub proof fn lemma_ntoks(e: SpecNumExpression, line: int, col: int)
    ensures
        gen_toks(e, line, col).len() == ntoks(e),
        ntoks(e) >= 1,
    decreases e,
{
    match e {
        SpecNumExpression::BinaryOp(l, _, r) => {
            lemma_ntoks(*l, line, col + 1);
            lemma_ntoks(*r, line, col + 2 + glen(*l));
        },
        SpecNumExpression::Grouping(inner) => {
            lemma_ntoks(*inner, line, col + 1);
        },
        _ => {},
    }
}

/// A character that cannot extend a number or an identifier.
pub open spec fn boundary(c: char) -> bool {
    !(spec_is_alnum(c) || c == '_' || c == '.')
}

proof fn lemma_num_scan_from(u: Seq<char>, i: int, t: Seq<char>, m: int, seen: bool)
    requires
        wf_numeral(t),
        0 <= i,
        i + t.len() <= u.len(),
        u.subrange(i, i + t.len()) == t,
        i + t.len() == u.len() || boundary(u[i + t.len()]),
        i <= m <= i + t.len(),
        seen == (spec_count(t.take(m - i), '.') == 1),
    ensures
        spec_num_end(u, m, seen) == i + t.len(),
    decreases i + t.len() - m,
{
    crate::tokenizer::lemma_count_bounds(t, '.');
    if m == i + t.len() {
        if m < u.len() {
            assert(!spec_is_digit(u[m]) && u[m] != '.');
        }
    } else {
        let c = u[m];
        assert(c == t[m - i]) by {
            assert(u.subrange(i, i + t.len())[m - i] == u[m]);
        }
        crate::tokenizer::lemma_count_take_step(t, m - i, '.');
        crate::tokenizer::lemma_count_split(t, m - i + 1, '.');
        crate::tokenizer::lemma_count_bounds(t.take(m - i), '.');
        crate::tokenizer::lemma_count_bounds(t.skip(m - i + 1), '.');
        if spec_is_digit(c) {
            lemma_num_scan_from(u, i, t, m + 1, seen);
        } else {
            assert(c == '.');
            assert(spec_count(t.take(m - i), '.') == 0);
            assert(!seen);
            lemma_num_scan_from(u, i, t, m + 1, true);
        }
    }
}

proof fn lemma_ident_scan_from(u: Seq<char>, i: int, n: Seq<char>, m: int)
    requires
        wf_var_name(n),
        0 <= i,
        i + n.len() <= u.len(),
        u.subrange(i, i + n.len()) == n,
        i + n.len() == u.len() || boundary(u[i + n.len()]),
        i <= m <= i + n.len(),
    ensures
        spec_ident_end(u, m) == i + n.len(),
    decreases i + n.len() - m,
{
    if m == i + n.len() {
        if m < u.len() {
            assert(!(spec_is_alnum(u[m]) || u[m] == '_'));
        }
    } else {
        assert(u[m] == n[m - i]) by {
            assert(u.subrange(i, i + n.len())[m - i] == u[m]);
        }
        lemma_ident_scan_from(u, i, n, m + 1);
    }
}

/// Lexing the generated text of `e` in place: starting at position `i`, the
/// scan consumes exactly the text and appends exactly its tokens.
#[verifier::rlimit(100)]
proof fn lemma_lex_gtext(
    e: SpecNumExpression,
    u: Seq<char>,
    i: int,
    line: int,
    col: int,
    acc: Seq<SpecToken>,
)
    requires
        wf_num_expr(e),
        0 <= i,
        i + glen(e) <= u.len(),
        u.subrange(i, i + glen(e)) == gtext(e),
        i + glen(e) == u.len() || boundary(u[i + glen(e)]),
    ensures
        spec_lex(u, i, line, col, acc) == spec_lex(
            u,
            i + glen(e),
            line,
            col + glen(e),
            acc + gen_toks(e, line, col),
        ),
    decreases e,
{
    lemma_glen(e);
    match e {
        SpecNumExpression::NumberLiteral(t) => {
            assert(u[i] == t[0]) by {
                assert(u.subrange(i, i + t.len())[0] == u[i]);
            }
            lemma_num_scan_from(u, i, t, i, false);
            assert(u.subrange(i, spec_num_end(u, i, false)) == t);
            assert(acc.push(spec_tok(SpecTokenType::NumberLiteral(t), line, col)) =~= acc
                + gen_toks(e, line, col));
        },
        SpecNumExpression::Variable(n) => {
            assert(u[i] == n[0]) by {
                assert(u.subrange(i, i + n.len())[0] == u[i]);
            }
            lemma_ident_scan_from(u, i, n, i);
            assert(u.subrange(i, spec_ident_end(u, i)) == n);
            assert(!(n == "print"@)) by {
                if n == "print"@ {
                    assert(!(spec_keyword_token(n) is Identifier));
                }
            }
            assert(acc.push(spec_tok(spec_keyword_token(n), line, col)) =~= acc + gen_toks(
                e,
                line,
                col,
            ));
        },
        SpecNumExpression::BinaryOp(l, op, r) => {
            lemma_glen(*l);
            lemma_glen(*r);
            let gl = glen(*l);
            let gr = glen(*r);
            let oc = spec_op_char(op);
            assert(u[i] == '(') by {
                assert(u.subrange(i, i + glen(e))[0] == u[i]);
            }
            let acc1 = acc.push(spec_tok(SpecTokenType::OpenParen, line, col));
            assert(u.subrange(i + 1, i + 1 + gl) =~= gtext(*l)) by {
                assert(forall|k: int|
                    0 <= k < gl ==> u.subrange(i, i + glen(e))[1 + k] == #[trigger] u[i + 1 + k]);
                assert(forall|k: int| 0 <= k < gl ==> gtext(e)[1 + k] == #[trigger] gtext(*l)[k]);
            }
            assert(u[i + 1 + gl] == oc) by {
                assert(u.subrange(i, i + glen(e))[1 + gl] == u[i + 1 + gl]);
                assert(gtext(e)[1 + gl] == oc);
            }
            assert(boundary(u[i + 1 + gl]));
            lemma_lex_gtext(*l, u, i + 1, line, col + 1, acc1);
            let acc2 = acc1 + gen_toks(*l, line, col + 1);
            assert(u[i + 2 + gl] == gtext(*r)[0]) by {
                assert(u.subrange(i, i + glen(e))[2 + gl] == u[i + 2 + gl]);
                assert(gtext(e)[2 + gl] == gtext(*r)[0]);
            }
            lemma_gtext_first(*r);
            assert(u[i + 2 + gl] != '/');
            let acc3 = acc2.push(spec_tok(op_tt(op), line, col + 1 + gl));
            assert(spec_lex(u, i + 1 + gl, line, col + 1 + gl, acc2) == spec_lex(
                u,
                i + 2 + gl,
                line,
                col + 2 + gl,
                acc3,
            ));
            assert(u.subrange(i + 2 + gl, i + 2 + gl + gr) =~= gtext(*r)) by {
                assert(forall|k: int|
                    0 <= k < gr ==> u.subrange(i, i + glen(e))[2 + gl + k] == #[trigger] u[i + 2
                        + gl + k]);
                assert(forall|k: int|
                    0 <= k < gr ==> gtext(e)[2 + gl + k] == #[trigger] gtext(*r)[k]);
            }
            assert(u[i + 2 + gl + gr] == ')') by {
                assert(u.subrange(i, i + glen(e))[2 + gl + gr] == u[i + 2 + gl + gr]);
                assert(gtext(e)[2 + gl + gr] == ')');
            }
            assert(boundary(u[i + 2 + gl + gr]));
            lemma_lex_gtext(*r, u, i + 2 + gl, line, col + 2 + gl, acc3);
            let acc4 = acc3 + gen_toks(*r, line, col + 2 + gl);
            let acc5 = acc4.push(spec_tok(SpecTokenType::CloseParen, line, col + 2 + gl + gr));
            assert(spec_lex(u, i + 2 + gl + gr, line, col + 2 + gl + gr, acc4) == spec_lex(
                u,
                i + 3 + gl + gr,
                line,
                col + 3 + gl + gr,
                acc5,
            ));
            assert(acc5 =~= acc + gen_toks(e, line, col));
        },
        SpecNumExpression::Grouping(inner) => {
            lemma_glen(*inner);
            let gi = glen(*inner);
            assert(u[i] == '(') by {
                assert(u.subrange(i, i + glen(e))[0] == u[i]);
            }
            let acc1 = acc.push(spec_tok(SpecTokenType::OpenParen, line, col));
            assert(u.subrange(i + 1, i + 1 + gi) =~= gtext(*inner)) by {
                assert(forall|k: int|
                    0 <= k < gi ==> u.subrange(i, i + glen(e))[1 + k] == #[trigger] u[i + 1 + k]);
                assert(forall|k: int|
                    0 <= k < gi ==> gtext(e)[1 + k] == #[trigger] gtext(*inner)[k]);
            }
            assert(u[i + 1 + gi] == ')') by {
                assert(u.subrange(i, i + glen(e))[1 + gi] == u[i + 1 + gi]);
                assert(gtext(e)[1 + gi] == ')');
            }
            assert(boundary(u[i + 1 + gi]));
            lemma_lex_gtext(*inner, u, i + 1, line, col + 1, acc1);
            let acc2 = acc1 + gen_toks(*inner, line, col + 1);
            let acc3 = acc2.push(spec_tok(SpecTokenType::CloseParen, line, col + 1 + gi));
            assert(spec_lex(u, i + 1 + gi, line, col + 1 + gi, acc2) == spec_lex(
                u,
                i + 2 + gi,
                line,
                col + 2 + gi,
                acc3,
            ));
            assert(acc3 =~= acc + gen_toks(e, line, col));
        },
    }
}

/// Lexing the generated text standalone: its tokens, then the end marker.
pub proof fn lemma_tokenize_gtext(e: SpecNumExpression)
    requires
        wf_num_expr(e),
    ensures
        spec_tokenize(gtext(e)) == Ok::<Seq<SpecToken>, crate::errors::SpecDiag>(
            gen_toks(e, 1, 1).push(spec_tok(SpecTokenType::EOF, 1, 1 + glen(e))),
        ),
{
    lemma_glen(e);
    let u = gtext(e);
    assert(u.subrange(0, glen(e)) =~= u);
    lemma_lex_gtext(e, u, 0, 1, 1, Seq::empty());
    assert(Seq::empty() + gen_toks(e, 1, 1) =~= gen_toks(e, 1, 1));
}

/// Re-parsing the generated tokens as one primary: the whole segment is
/// consumed and the tree keeps the original's skeleton.
#[verifier::rlimit(100)]
proof fn lemma_parse_gtoks(e: SpecNumExpression, ts: Seq<SpecToken>, i: int, line: int, col: int)
    requires
        wf_num_expr(e),
        0 <= i,
        i + ntoks(e) <= ts.len(),
        ts.subrange(i, i + ntoks(e)) == gen_toks(e, line, col),
    ensures
        sp_primary(ts, i) matches PRes::Done { v, next } && next == i + ntoks(e) && strip_groups(
            v,
        ) == strip_groups(e),
    decreases e,
{
    lemma_ntoks(e, line, col);
    assert(ts[i] == gen_toks(e, line, col)[0]) by {
        assert(ts.subrange(i, i + ntoks(e))[0] == ts[i]);
    }
    match e {
        SpecNumExpression::NumberLiteral(_) => {},
        SpecNumExpression::Variable(_) => {},
        SpecNumExpression::BinaryOp(l, op, r) => {
            lemma_ntoks(*l, line, col + 1);
            lemma_ntoks(*r, line, col + 2 + glen(*l));
            let nl = ntoks(*l);
            let nr = ntoks(*r);
            let gl = glen(*l);
            let lcol = col + 1;
            let rcol = col + 2 + gl;
            assert(ts.subrange(i + 1, i + 1 + nl) =~= gen_toks(*l, line, lcol)) by {
                assert(forall|k: int|
                    0 <= k < nl ==> ts.subrange(i, i + ntoks(e))[1 + k] == #[trigger] ts[i + 1
                        + k]);
                assert(forall|k: int|
                    0 <= k < nl ==> gen_toks(e, line, col)[1 + k] == #[trigger] gen_toks(
                        *l,
                        line,
                        lcol,
                    )[k]);
            }
            lemma_parse_gtoks(*l, ts, i + 1, line, lcol);
            let p = i + 1 + nl;
            assert(ts[p] == spec_tok(op_tt(op), line, col + 1 + gl)) by {
                assert(ts.subrange(i, i + ntoks(e))[1 + nl] == ts[p]);
                assert(gen_toks(e, line, col)[1 + nl] == spec_tok(op_tt(op), line, col + 1 + gl));
            }
            assert(ts.subrange(p + 1, p + 1 + nr) =~= gen_toks(*r, line, rcol)) by {
                assert(forall|k: int|
                    0 <= k < nr ==> ts.subrange(i, i + ntoks(e))[2 + nl + k] == #[trigger] ts[p + 1
                        + k]);
                assert(forall|k: int|
                    0 <= k < nr ==> gen_toks(e, line, col)[2 + nl + k] == #[trigger] gen_toks(
                        *r,
                        line,
                        rcol,
                    )[k]);
            }
            lemma_parse_gtoks(*r, ts, p + 1, line, rcol);
            let q = p + 1 + nr;
            assert(ts[q] == spec_tok(SpecTokenType::CloseParen, line, col + 2 + gl + glen(*r)))
                by {
                assert(ts.subrange(i, i + ntoks(e))[2 + nl + nr] == ts[q]);
                assert(gen_toks(e, line, col)[2 + nl + nr] == spec_tok(
                    SpecTokenType::CloseParen,
                    line,
                    col + 2 + gl + glen(*r),
                ));
            }
            let tl = sp_primary(ts, i + 1)->Done_v;
            let tr = sp_primary(ts, p + 1)->Done_v;
            assert(strip_groups(tl) == strip_groups(*l));
            assert(strip_groups(tr) == strip_groups(*r));
            assert(tok_at(ts, p) == ts[p]);
            assert(tok_at(ts, q) == ts[q]);
            let bop = SpecNumExpression::BinaryOp(Box::new(tl), op, Box::new(tr));
            let is_mul = op == BinaryOperator::Multiply || op == BinaryOperator::Divide;
            if is_mul {
                assert(sp_mul_tail(ts, q, bop) == PRes::Done::<SpecNumExpression> {
                    v: bop,
                    next: q,
                });
                assert(sp_mul_tail(ts, p, tl) == sp_mul_tail(ts, q, bop));
                assert(sp_multiplication(ts, i + 1) == PRes::Done::<SpecNumExpression> {
                    v: bop,
                    next: q,
                });
                assert(sp_add_tail(ts, q, bop) == PRes::Done::<SpecNumExpression> {
                    v: bop,
                    next: q,
                });
                assert(sp_addition(ts, i + 1) == PRes::Done::<SpecNumExpression> {
                    v: bop,
                    next: q,
                });
            } else {
                assert(sp_mul_tail(ts, p, tl) == PRes::Done::<SpecNumExpression> {
                    v: tl,
                    next: p,
                });
                assert(sp_multiplication(ts, i + 1) == PRes::Done::<SpecNumExpression> {
                    v: tl,
                    next: p,
                });
                assert(sp_mul_tail(ts, q, tr) == PRes::Done::<SpecNumExpression> {
                    v: tr,
                    next: q,
                });
                assert(sp_multiplication(ts, p + 1) == PRes::Done::<SpecNumExpression> {
                    v: tr,
                    next: q,
                });
                assert(sp_add_tail(ts, q, bop) == PRes::Done::<SpecNumExpression> {
                    v: bop,
                    next: q,
                });
                assert(sp_add_tail(ts, p, tl) == PRes::Done::<SpecNumExpression> {
                    v: bop,
                    next: q,
                });
                assert(sp_addition(ts, i + 1) == PRes::Done::<SpecNumExpression> {
                    v: bop,
                    next: q,
                });
            }
            assert(strip_groups(bop) == SpecNumExpression::BinaryOp(
                Box::new(strip_groups(*l)),
                op,
                Box::new(strip_groups(*r)),
            ));
            assert(sp_primary(ts, i) == PRes::Done::<SpecNumExpression> {
                v: SpecNumExpression::Grouping(Box::new(bop)),
                next: q + 1,
            });
        },
        SpecNumExpression::Grouping(inner) => {
            lemma_ntoks(*inner, line, col + 1);
            let ni = ntoks(*inner);
            assert(ts.subrange(i + 1, i + 1 + ni) =~= gen_toks(*inner, line, col + 1)) by {
                assert(forall|k: int|
                    0 <= k < ni ==> ts.subrange(i, i + ntoks(e))[1 + k] == #[trigger] ts[i + 1
                        + k]);
                assert(forall|k: int|
                    0 <= k < ni ==> gen_toks(e, line, col)[1 + k] == #[trigger] gen_toks(
                        *inner,
                        line,
                        col + 1,
                    )[k]);
            }
            lemma_parse_gtoks(*inner, ts, i + 1, line, col + 1);
            let q = i + 1 + ni;
            assert(ts[q] == spec_tok(SpecTokenType::CloseParen, line, col + 1 + glen(*inner)))
                by {
                assert(ts.subrange(i, i + ntoks(e))[1 + ni] == ts[q]);
                assert(gen_toks(e, line, col)[1 + ni] == spec_tok(
                    SpecTokenType::CloseParen,
                    line,
                    col + 1 + glen(*inner),
                ));
            }
            let ti = sp_primary(ts, i + 1)->Done_v;
            assert(tok_at(ts, q) == ts[q]);
            assert(sp_mul_tail(ts, q, ti) == PRes::Done::<SpecNumExpression> { v: ti, next: q });
            assert(sp_multiplication(ts, i + 1) == PRes::Done::<SpecNumExpression> {
                v: ti,
                next: q,
            });
            assert(sp_add_tail(ts, q, ti) == PRes::Done::<SpecNumExpression> { v: ti, next: q });
            assert(sp_addition(ts, i + 1) == PRes::Done::<SpecNumExpression> { v: ti, next: q });
            assert(sp_primary(ts, i) == PRes::Done::<SpecNumExpression> {
                v: SpecNumExpression::Grouping(Box::new(ti)),
                next: q + 1,
            });
        },
    }
}

/// The parenthesization law: the text the generator emits for a numeric
/// expression, read back through the lexer and the expression grammar,
/// consumes every token before the end marker and denotes a tree with the
/// original's skeleton — grouping aside, the same operations on the same
/// operands in the same order, so evaluating the emitted text under its
/// parentheses equals evaluating the original under standard precedence.
pub proof fn lemma_parenthesization_round_trip(e: SpecNumExpression, nums: Seq<Seq<char>>)
    requires
        wf_num_expr(e),
        spec_num_ok(e, nums),
    ensures
        spec_gen_num(e, nums) == Ok::<Seq<char>, Seq<char>>(gtext(e)),
        spec_tokenize(gtext(e)) is Ok,
        ({
            let ts = spec_tokenize(gtext(e))->Ok_0;
            &&& sp_num_expression(ts, 0) matches PRes::Done { v, next } && strip_groups(v)
                == strip_groups(e) && next == ts.len() - 1
            &&& ts[ts.len() - 1].token_type is EOF
        }),
{
    lemma_gen_num_is_gtext(e, nums);
    lemma_tokenize_gtext(e);
    lemma_ntoks(e, 1, 1);
    lemma_glen(e);
    let ts = gen_toks(e, 1, 1).push(spec_tok(SpecTokenType::EOF, 1, 1 + glen(e)));
    assert(ts.subrange(0, ntoks(e)) =~= gen_toks(e, 1, 1));
    lemma_parse_gtoks(e, ts, 0, 1, 1);
    let n = ntoks(e);
    assert(ts[n].token_type is EOF);
    assert(tok_at(ts, n) == ts[n]);
    let t0 = sp_primary(ts, 0)->Done_v;
    assert(sp_mul_tail(ts, n, t0) == PRes::Done::<SpecNumExpression> { v: t0, next: n });
    assert(sp_multiplication(ts, 0) == PRes::Done::<SpecNumExpression> { v: t0, next: n });
    assert(sp_add_tail(ts, n, t0) == PRes::Done::<SpecNumExpression> { v: t0, next: n });
    assert(sp_addition(ts, 0) == PRes::Done::<SpecNumExpression> { v: t0, next: n });
}


// ---------------------------------------------------------------------------
// Evaluation: grouping nodes are transparent, so trees with equal skeletons
// evaluate equally under any assignment of values.
// ---------------------------------------------------------------------------

/// Exact rational arithmetic: a value is a numerator and a denominator.
pub open spec fn rat_op(op: BinaryOperator, a: (int, int), b: (int, int)) -> (int, int) {
    match op {
        BinaryOperator::Add => (a.0 * b.1 + b.0 * a.1, a.1 * b.1),
        BinaryOperator::Subtract => (a.0 * b.1 - b.0 * a.1, a.1 * b.1),
        BinaryOperator::Multiply => (a.0 * b.0, a.1 * b.1),
        BinaryOperator::Divide => (a.0 * b.1, a.1 * b.0),
    }
}

/// Evaluation of a tree under a valuation of its literal texts and its
/// variable names: exactly the order and nesting the tree dictates.
pub open spec fn eval_rat(
    e: SpecNumExpression,
    lits: Map<Seq<char>, (int, int)>,
    vars: Map<Seq<char>, (int, int)>,
) -> (int, int)
    decreases e,
{
    match e {
        SpecNumExpression::NumberLiteral(t) => lits[t],
        SpecNumExpression::Variable(n) => vars[n],
        SpecNumExpression::BinaryOp(l, op, r) => rat_op(
            op,
            eval_rat(*l, lits, vars),
            eval_rat(*r, lits, vars),
        ),
        SpecNumExpression::Grouping(inner) => eval_rat(*inner, lits, vars),
    }
}

/// Grouping nodes do not change a tree's value.
pub proof fn lemma_groupings_transparent(
    e: SpecNumExpression,
    lits: Map<Seq<char>, (int, int)>,
    vars: Map<Seq<char>, (int, int)>,
)
    ensures
        eval_rat(strip_groups(e), lits, vars) == eval_rat(e, lits, vars),
    decreases e,
{
    match e {
        SpecNumExpression::BinaryOp(l, _, r) => {
            lemma_groupings_transparent(*l, lits, vars);
            lemma_groupings_transparent(*r, lits, vars);
        },
        SpecNumExpression::Grouping(inner) => {
            lemma_groupings_transparent(*inner, lits, vars);
        },
        _ => {},
    }
}

/// The value half of the parenthesization law: whatever values the literals
/// and names carry, the tree read back from the emitted text evaluates to
/// exactly the value of the original expression.
pub proof fn lemma_round_trip_evaluates_equally(
    e: SpecNumExpression,
    nums: Seq<Seq<char>>,
    lits: Map<Seq<char>, (int, int)>,
    vars: Map<Seq<char>, (int, int)>,
)
    requires
        wf_num_expr(e),
        spec_num_ok(e, nums),
    ensures
        spec_tokenize(gtext(e)) is Ok,
        ({
            let ts = spec_tokenize(gtext(e))->Ok_0;
            sp_num_expression(ts, 0) matches PRes::Done { v, .. } && eval_rat(v, lits, vars)
                == eval_rat(e, lits, vars)
        }),
{
    lemma_parenthesization_round_trip(e, nums);
    let ts = spec_tokenize(gtext(e))->Ok_0;
    let v = match sp_num_expression(ts, 0) {
        PRes::Done { v, .. } => v,
        PRes::Fail(_) => e,
    };
    lemma_groupings_transparent(v, lits, vars);
    lemma_groupings_transparent(e, lits, vars);
}


} // verus!

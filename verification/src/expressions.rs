use vstd::prelude::*;
use crate::error::VortError;
use crate::strutil::{lit, str_eq_chars};
use crate::tokenizer::{
    Token, SpecIToken, deep_itoks, lemma_deep_itoks_push, keyword_replaced,
    replace_operator_keywords, spec_itokenize,
};

verus! {

// Rearranging an infix expression into postfix order: operands flow through,
// operators wait on a stack until one of no higher precedence arrives, and
// parentheses fence the stack. A closing parenthesis with no opening one,
// or an opening one never closed, is a fault.

pub open spec fn spec_prec(op: Seq<char>) -> int {
    if op == "+"@ || op == "-"@ {
        2
    } else if op == "*"@ || op == "/"@ {
        3
    } else {
        0
    }
}

/// Pops every stacked operator of precedence at least `p` onto the output.
pub open spec fn spec_pop_ge(ops: Seq<SpecIToken>, out: Seq<SpecIToken>, p: int) -> (
    Seq<SpecIToken>,
    Seq<SpecIToken>,
)
    decreases ops.len(),
{
    if ops.len() > 0 && (ops.last() matches SpecIToken::Operator(so) && p <= spec_prec(so)) {
        spec_pop_ge(ops.drop_last(), out.push(ops.last()), p)
    } else {
        (ops, out)
    }
}

/// Pops to the matching opening parenthesis, or nothing if there is none.
pub open spec fn spec_pop_paren(ops: Seq<SpecIToken>, out: Seq<SpecIToken>) -> Option<
    (Seq<SpecIToken>, Seq<SpecIToken>),
>
    decreases ops.len(),
{
    if ops.len() == 0 {
        None
    } else if ops.last() is LeftParen {
        Some((ops.drop_last(), out))
    } else {
        spec_pop_paren(ops.drop_last(), out.push(ops.last()))
    }
}

/// Drains the stack at the end of the input; a parenthesis left on it means
/// the parentheses were mismatched.
pub open spec fn spec_drain(ops: Seq<SpecIToken>, out: Seq<SpecIToken>) -> Result<
    Seq<SpecIToken>,
    Seq<char>,
>
    decreases ops.len(),
{
    if ops.len() == 0 {
        Ok(out)
    } else if ops.last() is LeftParen || ops.last() is RightParen {
        Err("Mismatched parentheses"@)
    } else {
        spec_drain(ops.drop_last(), out.push(ops.last()))
    }
}

/// One step of the rearrangement over the token sequence.
pub open spec fn spec_shunt(
    ts: Seq<SpecIToken>,
    i: int,
    out: Seq<SpecIToken>,
    ops: Seq<SpecIToken>,
) -> Result<Seq<SpecIToken>, Seq<char>>
    decreases ts.len() - i,
{
    if i < 0 || i >= ts.len() {
        spec_drain(ops, out)
    } else {
        match ts[i] {
            SpecIToken::Number(_) => spec_shunt(ts, i + 1, out.push(ts[i]), ops),
            SpecIToken::Variable(_) => spec_shunt(ts, i + 1, out.push(ts[i]), ops),
            SpecIToken::LeftParen => spec_shunt(ts, i + 1, out, ops.push(ts[i])),
            SpecIToken::RightParen => match spec_pop_paren(ops, out) {
                None => Err("Mismatched parentheses"@),
                Some(po) => spec_shunt(ts, i + 1, po.1, po.0),
            },
            SpecIToken::Operator(op) => {
                let po = spec_pop_ge(ops, out, spec_prec(op));
                spec_shunt(ts, i + 1, po.1, po.0.push(SpecIToken::Operator(op)))
            },
        }
    }
}

/// What rearranging a whole expression text yields: first the keyword
/// rewrite, then tokenization, then the postfix ordering.
pub enum SpecExprErr {
    Parse(Seq<char>),
    Eval(Seq<char>),
}

pub open spec fn spec_expr_to_postfix(s: Seq<char>) -> Result<Seq<SpecIToken>, SpecExprErr> {
    match spec_itokenize(keyword_replaced(s), 0, Seq::empty()) {
        Err(m) => Err(SpecExprErr::Parse(m)),
        Ok(ts) => match spec_shunt(ts, 0, Seq::empty(), Seq::empty()) {
            Err(m) => Err(SpecExprErr::Eval(m)),
            Ok(o) => Ok(o),
        },
    }
}

fn clone_itoken(t: &Token) -> (r: Token)
    ensures
        r@ == t@,
{
    match t {
        Token::Number(s) => Token::Number(s.clone()),
        Token::Variable(s) => Token::Variable(s.clone()),
        Token::Operator(s) => Token::Operator(s.clone()),
        Token::LeftParen => Token::LeftParen,
        Token::RightParen => Token::RightParen,
    }
}

fn prec(op: &String) -> (p: u8)
    ensures
        p as int == spec_prec(op@),
{
    if str_eq_chars(op.as_str(), "+") || str_eq_chars(op.as_str(), "-") {
        2
    } else if str_eq_chars(op.as_str(), "*") || str_eq_chars(op.as_str(), "/") {
        3
    } else {
        0
    }
}

fn should_pop_operator(op_stack: &Vec<Token>, p: u8) -> (r: bool)
    ensures
        r == (deep_itoks(op_stack@).len() > 0 && (deep_itoks(op_stack@).last()
            matches SpecIToken::Operator(so) && p as int <= spec_prec(so))),
{
    if op_stack.len() == 0 {
        return false;
    }
    match &op_stack[op_stack.len() - 1] {
        Token::Operator(so) => p <= prec(so),
        _ => false,
    }
}

fn top_is_left_paren(op_stack: &Vec<Token>) -> (r: bool)
    requires
        op_stack@.len() > 0,
    ensures
        r == (deep_itoks(op_stack@).last() is LeftParen),
{
    match &op_stack[op_stack.len() - 1] {
        Token::LeftParen => true,
        _ => false,
    }
}

/// Rearranges the token sequence into postfix order, exactly as
/// `spec_shunt` says; mismatched parentheses are an evaluation fault.
pub fn shunting_yard(tokens: Vec<Token>) -> (r: Result<Vec<Token>, VortError>)
    ensures
        ({
            let g = spec_shunt(deep_itoks(tokens@), 0, Seq::empty(), Seq::empty());
            &&& (r is Ok <==> g is Ok)
            &&& (r matches Ok(out) ==> g matches Ok(go) && deep_itoks(out@) == go)
            &&& (r matches Err(e) ==> g matches Err(m) && e matches VortError::EvalError(em)
                && em@ == m)
        }),
{
    let ghost ts = deep_itoks(tokens@);
    let mut output: Vec<Token> = Vec::new();
    let mut op_stack: Vec<Token> = Vec::new();
    let mut i: usize = 0;
    proof {
        assert(deep_itoks(output@) =~= Seq::<SpecIToken>::empty());
        assert(deep_itoks(op_stack@) =~= Seq::<SpecIToken>::empty());
        assert(ts.len() == tokens@.len());
    }
    while i < tokens.len()
        invariant
            i <= tokens@.len(),
            ts == deep_itoks(tokens@),
            ts.len() == tokens@.len(),
            spec_shunt(ts, i as int, deep_itoks(output@), deep_itoks(op_stack@)) == spec_shunt(
                ts,
                0,
                Seq::empty(),
                Seq::empty(),
            ),
        decreases tokens@.len() - i,
    {
        proof {
            assert(ts[i as int] == tokens@[i as int]@);
        }
        let is_operand = match &tokens[i] {
            Token::Number(_) => true,
            Token::Variable(_) => true,
            _ => false,
        };
        if is_operand {
            let ghost out0 = output@;
            let t = clone_itoken(&tokens[i]);
            output.push(t);
            proof {
                lemma_deep_itoks_push(out0, t);
            }
        } else {
            let is_left = match &tokens[i] {
                Token::LeftParen => true,
                _ => false,
            };
            let is_right = match &tokens[i] {
                Token::RightParen => true,
                _ => false,
            };
            if is_left {
                let ghost ops0 = op_stack@;
                let t = Token::LeftParen;
                op_stack.push(t);
                proof {
                    lemma_deep_itoks_push(ops0, t);
                }
            } else if is_right {
                let ghost ops_in = deep_itoks(op_stack@);
                let ghost out_in = deep_itoks(output@);
                while op_stack.len() > 0 && !top_is_left_paren(&op_stack)
                    invariant
                        spec_pop_paren(deep_itoks(op_stack@), deep_itoks(output@))
                            == spec_pop_paren(ops_in, out_in),
                    decreases op_stack@.len(),
                {
                    let ghost ops0 = op_stack@;
                    let ghost out0 = output@;
                    match op_stack.pop() {
                        Some(t) => {
                            proof {
                                assert(deep_itoks(ops0).last() == t@);
                                assert(deep_itoks(op_stack@) =~= deep_itoks(ops0).drop_last());
                            }
                            output.push(t);
                            proof {
                                assert(deep_itoks(output@) =~= deep_itoks(out0).push(
                                    deep_itoks(ops0).last(),
                                ));
                            }
                        },
                        None => {
                            proof {
                                assert(false);
                            }
                        },
                    }
                }
                match op_stack.pop() {
                    None => {
                        proof {
                            assert(spec_pop_paren(ops_in, out_in) is None);
                        }
                        return Err(VortError::EvalError(lit("Mismatched parentheses")));
                    },
                    Some(_) => {
                        proof {
                            assert(deep_itoks(op_stack@) =~= spec_pop_paren(
                                ops_in,
                                out_in,
                            )->Some_0.0);
                            assert(deep_itoks(output@) =~= spec_pop_paren(
                                ops_in,
                                out_in,
                            )->Some_0.1);
                        }
                    },
                }
            } else {
                let op = match &tokens[i] {
                    Token::Operator(s) => s.clone(),
                    _ => {
                        proof {
                            assert(false);
                        }
                        String::new()
                    },
                };
                let p = prec(&op);
                let ghost ops_in = deep_itoks(op_stack@);
                let ghost out_in = deep_itoks(output@);
                while should_pop_operator(&op_stack, p)
                    invariant
                        spec_pop_ge(deep_itoks(op_stack@), deep_itoks(output@), p as int)
                            == spec_pop_ge(ops_in, out_in, p as int),
                    decreases op_stack@.len(),
                {
                    let ghost ops0 = op_stack@;
                    let ghost out0 = output@;
                    match op_stack.pop() {
                        Some(t) => {
                            proof {
                                assert(deep_itoks(ops0).last() == t@);
                                assert(deep_itoks(op_stack@) =~= deep_itoks(ops0).drop_last());
                            }
                            output.push(t);
                            proof {
                                assert(deep_itoks(output@) =~= deep_itoks(out0).push(
                                    deep_itoks(ops0).last(),
                                ));
                            }
                        },
                        None => {
                            proof {
                                assert(false);
                            }
                        },
                    }
                }
                let ghost ops1 = op_stack@;
                let t = Token::Operator(op);
                op_stack.push(t);
                proof {
                    lemma_deep_itoks_push(ops1, t);
                    assert(deep_itoks(op_stack@) =~= spec_pop_ge(
                        ops_in,
                        out_in,
                        p as int,
                    ).0.push(t@));
                    assert(deep_itoks(output@) == spec_pop_ge(ops_in, out_in, p as int).1);
                }
            }
        }
        i = i + 1;
    }
    let ghost ops_in = deep_itoks(op_stack@);
    let ghost out_in = deep_itoks(output@);
    while op_stack.len() > 0
        invariant
            ts == deep_itoks(tokens@),
            spec_drain(deep_itoks(op_stack@), deep_itoks(output@)) == spec_shunt(
                ts,
                0,
                Seq::empty(),
                Seq::empty(),
            ),
        decreases op_stack@.len(),
    {
        let ghost ops0 = op_stack@;
        let ghost out0 = output@;
        match op_stack.pop() {
            Some(t) => {
                let is_paren = match &t {
                    Token::LeftParen => true,
                    Token::RightParen => true,
                    _ => false,
                };
                proof {
                    assert(deep_itoks(ops0).last() == t@);
                    assert(deep_itoks(op_stack@) =~= deep_itoks(ops0).drop_last());
                }
                if is_paren {
                    proof {
                        assert(deep_itoks(ops0).last() is LeftParen || deep_itoks(
                            ops0,
                        ).last() is RightParen);
                        assert(deep_itoks(ops0).len() > 0);
                        assert(spec_drain(deep_itoks(ops0), deep_itoks(out0)) == Err::<
                            Seq<SpecIToken>,
                            Seq<char>,
                        >("Mismatched parentheses"@));
                        assert(spec_shunt(ts, 0, Seq::empty(), Seq::empty()) == Err::<
                            Seq<SpecIToken>,
                            Seq<char>,
                        >("Mismatched parentheses"@));
                    }
                    return Err(VortError::EvalError(lit("Mismatched parentheses")));
                }
                output.push(t);
                proof {
                    assert(deep_itoks(output@) =~= deep_itoks(out0).push(deep_itoks(ops0).last()));
                }
            },
            None => {
                proof {
                    assert(false);
                }
            },
        }
    }
    proof {
        assert(deep_itoks(op_stack@) =~= Seq::<SpecIToken>::empty());
    }
    Ok(output)
}

/// Rewrites operator keywords, tokenizes, and rearranges an expression text
/// into postfix order: the verified half of expression evaluation, ready for
/// a numeric back end to fold.
pub fn expression_to_postfix(expr: &str) -> (r: Result<Vec<Token>, VortError>)
    ensures
        ({
            let g = spec_expr_to_postfix(expr@);
            &&& (r is Ok <==> g is Ok)
            &&& (r matches Ok(out) ==> g matches Ok(go) && deep_itoks(out@) == go)
            &&& (r matches Err(e) ==> g matches Err(ge) && match ge {
                SpecExprErr::Parse(m) => e matches VortError::ParseError(em) && em@ == m,
                SpecExprErr::Eval(m) => e matches VortError::EvalError(em) && em@ == m,
            })
        }),
{
    let replaced = replace_operator_keywords(expr);
    let tokens = match crate::tokenizer::tokenize(replaced.as_str()) {
        Err(e) => {
            return Err(e);
        },
        Ok(tokens) => tokens,
    };
    shunting_yard(tokens)
}

} // verus!

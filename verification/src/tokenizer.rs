use vstd::prelude::*;
use crate::chars::{
    spec_is_digit, spec_is_alnum, spec_is_alpha, spec_is_space, is_digit, is_alnum_char,
    is_alpha_char, is_space_char,
};
use crate::error::VortError;
use crate::strutil::{lit, push_char, str_eq_chars, string_from_range, to_char_vec};

verus! {

// The standalone expression tokenizer: splits one arithmetic expression into
// numbers, variable names, operators and parentheses. Operator keywords are
// first rewritten to symbols by `replace_operator_keywords`.

#[derive(Debug)]
pub enum Token {
    /// A number, kept as its digits with underscores removed.
    Number(String),
    /// A variable name.
    Variable(String),
    /// One of the four operator symbols, as text.
    Operator(String),
    LeftParen,
    RightParen,
}

pub enum SpecIToken {
    Number(Seq<char>),
    Variable(Seq<char>),
    Operator(Seq<char>),
    LeftParen,
    RightParen,
}

impl View for Token {
    type V = SpecIToken;

    open spec fn view(&self) -> SpecIToken {
        match self {
            Token::Number(s) => SpecIToken::Number(s@),
            Token::Variable(s) => SpecIToken::Variable(s@),
            Token::Operator(s) => SpecIToken::Operator(s@),
            Token::LeftParen => SpecIToken::LeftParen,
            Token::RightParen => SpecIToken::RightParen,
        }
    }
}

pub open spec fn deep_itoks(ts: Seq<Token>) -> Seq<SpecIToken> {
    ts.map_values(|t: Token| t@)
}

pub proof fn lemma_deep_itoks_push(ts: Seq<Token>, t: Token)
    ensures
        deep_itoks(ts.push(t)) == deep_itoks(ts).push(t@),
{
    assert(deep_itoks(ts.push(t)) =~= deep_itoks(ts).push(t@));
}

/// End of a number run: digits, dots and underscores.
pub open spec fn spec_inum_end(s: Seq<char>, i: int) -> int
    decreases s.len() - i,
{
    if 0 <= i < s.len() && (spec_is_digit(s[i]) || s[i] == '.' || s[i] == '_') {
        spec_inum_end(s, i + 1)
    } else {
        i
    }
}

pub proof fn lemma_inum_end_bounds(s: Seq<char>, i: int)
    requires
        0 <= i <= s.len(),
    ensures
        i <= spec_inum_end(s, i) <= s.len(),
    decreases s.len() - i,
{
    if i < s.len() && (spec_is_digit(s[i]) || s[i] == '.' || s[i] == '_') {
        lemma_inum_end_bounds(s, i + 1);
    }
}

/// End of a name run: alphanumerics and underscores.
pub open spec fn spec_iword_end(s: Seq<char>, i: int) -> int
    decreases s.len() - i,
{
    if 0 <= i < s.len() && (spec_is_alnum(s[i]) || s[i] == '_') {
        spec_iword_end(s, i + 1)
    } else {
        i
    }
}

pub proof fn lemma_iword_end_bounds(s: Seq<char>, i: int)
    requires
        0 <= i <= s.len(),
    ensures
        i <= spec_iword_end(s, i) <= s.len(),
    decreases s.len() - i,
{
    if i < s.len() && (spec_is_alnum(s[i]) || s[i] == '_') {
        lemma_iword_end_bounds(s, i + 1);
    }
}

/// The text with its underscores removed.
pub open spec fn spec_strip_underscores(s: Seq<char>) -> Seq<char>
    decreases s.len(),
{
    if s.len() == 0 {
        Seq::empty()
    } else if s.first() == '_' {
        spec_strip_underscores(s.drop_first())
    } else {
        seq![s.first()] + spec_strip_underscores(s.drop_first())
    }
}

pub open spec fn spec_count(s: Seq<char>, c: char) -> int
    decreases s.len(),
{
    if s.len() == 0 {
        0
    } else {
        (if s.first() == c {
            1int
        } else {
            0int
        }) + spec_count(s.drop_first(), c)
    }
}

pub open spec fn spec_has_digit(s: Seq<char>) -> bool {
    exists|k: int| 0 <= k < s.len() && spec_is_digit(s[k])
}

/// Whether a run of digits and dots reads as one number: at least one digit
/// and at most one dot.
pub open spec fn spec_valid_number_text(s: Seq<char>) -> bool {
    spec_has_digit(s) && spec_count(s, '.') <= 1
}

/// One scan step of the expression tokenizer.
pub open spec fn spec_itokenize(s: Seq<char>, i: int, acc: Seq<SpecIToken>) -> Result<
    Seq<SpecIToken>,
    Seq<char>,
>
    decreases s.len() - i,
    via spec_itokenize_dec
{
    if i < 0 || i >= s.len() {
        Ok(acc)
    } else {
        let c = s[i];
        if spec_is_space(c) {
            spec_itokenize(s, i + 1, acc)
        } else if spec_is_digit(c) || c == '.' {
            let j = spec_inum_end(s, i);
            let t = spec_strip_underscores(s.subrange(i, j));
            if spec_valid_number_text(t) {
                spec_itokenize(s, j, acc.push(SpecIToken::Number(t)))
            } else {
                Err("invalid float literal"@)
            }
        } else if spec_is_alpha(c) || c == '_' {
            let j = spec_iword_end(s, i);
            spec_itokenize(s, j, acc.push(SpecIToken::Variable(s.subrange(i, j))))
        } else if c == '+' || c == '-' || c == '*' || c == '/' {
            spec_itokenize(s, i + 1, acc.push(SpecIToken::Operator(seq![c])))
        } else if c == '(' {
            spec_itokenize(s, i + 1, acc.push(SpecIToken::LeftParen))
        } else if c == ')' {
            spec_itokenize(s, i + 1, acc.push(SpecIToken::RightParen))
        } else {
            Err("Unexpected character: "@ + seq![c])
        }
    }
}

#[via_fn]
proof fn spec_itokenize_dec(s: Seq<char>, i: int, acc: Seq<SpecIToken>) {
    if 0 <= i < s.len() {
        lemma_inum_end_bounds(s, i + 1);
        lemma_iword_end_bounds(s, i + 1);
    }
}

fn inum_end(v: &Vec<char>, i: usize) -> (j: usize)
    requires
        i <= v@.len(),
    ensures
        j as int == spec_inum_end(v@, i as int),
        i <= j <= v@.len(),
    decreases v@.len() - i,
{
    if i < v.len() {
        let c = v[i];
        if is_digit(c) || c == '.' || c == '_' {
            return inum_end(v, i + 1);
        }
    }
    i
}

fn iword_end(v: &Vec<char>, i: usize) -> (j: usize)
    requires
        i <= v@.len(),
    ensures
        j as int == spec_iword_end(v@, i as int),
        i <= j <= v@.len(),
    decreases v@.len() - i,
{
    if i < v.len() {
        let c = v[i];
        if is_alnum_char(c) || c == '_' {
            return iword_end(v, i + 1);
        }
    }
    i
}

fn strip_underscores(v: &Vec<char>, i: usize, end: usize, acc: String) -> (r: String)
    requires
        i <= end <= v@.len(),
    ensures
        r@ == acc@ + spec_strip_underscores(v@.subrange(i as int, end as int)),
    decreases end - i,
{
    if i >= end {
        proof {
            assert(v@.subrange(i as int, end as int) =~= Seq::<char>::empty());
            assert(acc@ + spec_strip_underscores(v@.subrange(i as int, end as int)) =~= acc@);
        }
        return acc;
    }
    proof {
        assert(v@.subrange(i as int, end as int).first() == v@[i as int]);
        assert(v@.subrange(i as int, end as int).drop_first() =~= v@.subrange(
            i as int + 1,
            end as int,
        ));
    }
    let c = v[i];
    if c == '_' {
        strip_underscores(v, i + 1, end, acc)
    } else {
        let mut acc2 = acc;
        push_char(&mut acc2, c);
        let r = strip_underscores(v, i + 1, end, acc2);
        proof {
            assert(r@ =~= acc@ + spec_strip_underscores(v@.subrange(i as int, end as int)));
        }
        r
    }
}

fn valid_number_text(v: &Vec<char>) -> (r: bool)
    ensures
        r == spec_valid_number_text(v@),
{
    let mut dots: usize = 0;
    let mut digit_seen = false;
    let mut i: usize = 0;
    while i < v.len()
        invariant
            i <= v@.len(),
            dots <= i,
            dots as int == spec_count(v@.take(i as int), '.'),
            digit_seen == exists|k: int| 0 <= k < i && spec_is_digit(v@[k]),
        decreases v@.len() - i,
    {
        let c = v[i];
        proof {
            lemma_count_take_step(v@, i as int, '.');
        }
        if c == '.' {
            dots = dots + 1;
        }
        if is_digit(c) {
            digit_seen = true;
        }
        i = i + 1;
    }
    proof {
        assert(v@.take(v@.len() as int) =~= v@);
    }
    digit_seen && dots <= 1
}

pub proof fn lemma_count_take_step(s: Seq<char>, i: int, c: char)
    requires
        0 <= i < s.len(),
    ensures
        spec_count(s.take(i + 1), c) == spec_count(s.take(i), c) + (if s[i] == c {
            1int
        } else {
            0int
        }),
    decreases i,
{
    if i == 0 {
        assert(s.take(1).drop_first() =~= s.take(0));
        assert(s.take(0) =~= Seq::<char>::empty());
    } else {
        assert(s.take(i + 1).drop_first() =~= s.drop_first().take(i));
        assert(s.take(i).drop_first() =~= s.drop_first().take(i - 1));
        lemma_count_take_step(s.drop_first(), i - 1, c);
        assert(s.take(i + 1).first() == s[0]);
        assert(s.take(i).first() == s[0]);
        assert(s.drop_first()[i - 1] == s[i]);
    }
}

pub proof fn lemma_count_bounds(s: Seq<char>, c: char)
    ensures
        0 <= spec_count(s, c) <= s.len(),
    decreases s.len(),
{
    if s.len() > 0 {
        lemma_count_bounds(s.drop_first(), c);
    }
}

pub proof fn lemma_count_split(s: Seq<char>, k: int, c: char)
    requires
        0 <= k <= s.len(),
    ensures
        spec_count(s, c) == spec_count(s.take(k), c) + spec_count(s.skip(k), c),
    decreases k,
{
    if k == 0 {
        assert(s.take(0) =~= Seq::<char>::empty());
        assert(s.skip(0) =~= s);
    } else {
        lemma_count_split(s, k - 1, c);
        lemma_count_take_step(s, k - 1, c);
        assert(s.skip(k - 1).first() == s[k - 1]);
        assert(s.skip(k - 1).drop_first() =~= s.skip(k));
        assert(spec_count(s.skip(k - 1), c) == (if s[k - 1] == c {
            1int
        } else {
            0int
        }) + spec_count(s.skip(k), c));
    }
}

/// Splits one expression into tokens, exactly as `spec_itokenize` says; a
/// malformed number or a stray character is a parse fault.
pub fn tokenize(expr: &str) -> (r: Result<Vec<Token>, VortError>)
    ensures
        ({
            let g = spec_itokenize(expr@, 0, Seq::empty());
            &&& (r is Ok <==> g is Ok)
            &&& (r matches Ok(toks) ==> g matches Ok(ts) && deep_itoks(toks@) == ts)
            &&& (r matches Err(e) ==> g matches Err(m) && e matches VortError::ParseError(em)
                && em@ == m)
        }),
{
    let v = to_char_vec(expr);
    let mut tokens: Vec<Token> = Vec::new();
    let mut i: usize = 0;
    proof {
        assert(deep_itoks(tokens@) =~= Seq::<SpecIToken>::empty());
    }
    while i < v.len()
        invariant
            i <= v@.len(),
            v@ == expr@,
            spec_itokenize(expr@, i as int, deep_itoks(tokens@)) == spec_itokenize(
                expr@,
                0,
                Seq::empty(),
            ),
        decreases v@.len() - i,
    {
        let ghost toks0 = tokens@;
        let c = v[i];
        if is_space_char(c) {
            i = i + 1;
        } else if is_digit(c) || c == '.' {
            let j = inum_end(&v, i);
            proof {
                lemma_inum_end_bounds(v@, i as int + 1);
            }
            let t = strip_underscores(&v, i, j, String::new());
            proof {
                assert(t@ =~= spec_strip_underscores(v@.subrange(i as int, j as int)));
            }
            let tchars = to_char_vec(t.as_str());
            if valid_number_text(&tchars) {
                let tok = Token::Number(t);
                tokens.push(tok);
                proof {
                    lemma_deep_itoks_push(toks0, tok);
                }
                i = j;
            } else {
                return Err(VortError::ParseError(lit("invalid float literal")));
            }
        } else if is_alpha_char(c) || c == '_' {
            let j = iword_end(&v, i);
            proof {
                lemma_iword_end_bounds(v@, i as int + 1);
            }
            let w = string_from_range(&v, i, j);
            let tok = Token::Variable(w);
            tokens.push(tok);
            proof {
                lemma_deep_itoks_push(toks0, tok);
            }
            i = j;
        } else if c == '+' || c == '-' || c == '*' || c == '/' {
            let mut op = String::new();
            push_char(&mut op, c);
            proof {
                assert(op@ =~= seq![v@[i as int]]);
            }
            let tok = Token::Operator(op);
            tokens.push(tok);
            proof {
                lemma_deep_itoks_push(toks0, tok);
            }
            i = i + 1;
        } else if c == '(' {
            let tok = Token::LeftParen;
            tokens.push(tok);
            proof {
                lemma_deep_itoks_push(toks0, tok);
            }
            i = i + 1;
        } else if c == ')' {
            let tok = Token::RightParen;
            tokens.push(tok);
            proof {
                lemma_deep_itoks_push(toks0, tok);
            }
            i = i + 1;
        } else {
            let mut m = lit("Unexpected character: ");
            push_char(&mut m, c);
            proof {
                assert(m@ =~= "Unexpected character: "@ + seq![v@[i as int]]);
            }
            return Err(VortError::ParseError(m));
        }
    }
    Ok(tokens)
}

/// What `replace_operator_keywords` turns a text into.
pub uninterp spec fn keyword_replaced(s: Seq<char>) -> Seq<char>;

/// The symbol an operator keyword stands for; any other word is unchanged.
pub open spec fn spec_operator_symbol(w: Seq<char>) -> Seq<char> {
    if w == "plus"@ {
        "+"@
    } else if w == "minus"@ {
        "-"@
    } else if w == "times"@ || w == "multiply"@ {
        "*"@
    } else if w == "divide"@ {
        "/"@
    } else {
        w
    }
}

pub fn operator_symbol(word: &str) -> (r: String)
    ensures
        r@ == spec_operator_symbol(word@),
{
    if str_eq_chars(word, "plus") {
        lit("+")
    } else if str_eq_chars(word, "minus") {
        lit("-")
    } else if str_eq_chars(word, "times") || str_eq_chars(word, "multiply") {
        lit("*")
    } else if str_eq_chars(word, "divide") {
        lit("/")
    } else {
        crate::strutil::lit(word)
    }
}

/// Relies on regex's Regex::replace_all over the fixed word-boundary pattern
/// of the five operator keywords: the result depends on the text alone, and
/// a text without matches is returned unchanged.
#[verifier::external_body]
pub fn replace_operator_keywords(expr: &str) -> (r: String)
    ensures
        r@ == keyword_replaced(expr@),
        expr@.len() == 0 ==> r@ == expr@,
{
    let re = regex::Regex::new(r"\b(plus|minus|times|multiply|divide)\b").unwrap();
    re.replace_all(expr, |caps: &regex::Captures| operator_symbol(&caps[1])).into_owned()
}

} // verus!

use vstd::prelude::*;
use crate::chars::{spec_is_digit, spec_is_ascii_letter, spec_is_alnum, is_digit, is_ascii_letter, is_alnum_char};
use crate::errors::{spec_find, lemma_find_bounds, find_char, SpecDiag, spec_render_diag, ErrorPosition, format_error};
use crate::strutil::{lit, push_char, str_eq_chars, string_from_range, to_char_vec};
use crate::token::{Token, TokenType, SpecToken, SpecTokenType, deep_toks, lemma_deep_push};

verus! {

// Lexical analysis: a single left-to-right scan of the source characters.
// The meaning of the scan is pinned by `spec_tokenize`; the executable
// `tokenize` returns exactly what the specification says, or renders exactly
// the diagnostic the specification says.

pub open spec fn spec_tok(tt: SpecTokenType, line: int, col: int) -> SpecToken {
    SpecToken { token_type: tt, line: line, column: col }
}

/// End of the identifier run that starts at `i`: alphanumerics or underscores.
pub open spec fn spec_ident_end(s: Seq<char>, i: int) -> int
    decreases s.len() - i,
{
    if 0 <= i < s.len() && (spec_is_alnum(s[i]) || s[i] == '_') {
        spec_ident_end(s, i + 1)
    } else {
        i
    }
}

pub proof fn lemma_ident_end_bounds(s: Seq<char>, i: int)
    requires
        0 <= i <= s.len(),
    ensures
        i <= spec_ident_end(s, i) <= s.len(),
    decreases s.len() - i,
{
    if i < s.len() && (spec_is_alnum(s[i]) || s[i] == '_') {
        lemma_ident_end_bounds(s, i + 1);
    }
}

/// End of the number run that starts at `i`: digits with at most one dot.
pub open spec fn spec_num_end(s: Seq<char>, i: int, seen_dot: bool) -> int
    decreases s.len() - i,
{
    if 0 <= i < s.len() {
        if spec_is_digit(s[i]) {
            spec_num_end(s, i + 1, seen_dot)
        } else if s[i] == '.' && !seen_dot {
            spec_num_end(s, i + 1, true)
        } else {
            i
        }
    } else {
        i
    }
}

pub proof fn lemma_num_end_bounds(s: Seq<char>, i: int, seen_dot: bool)
    requires
        0 <= i <= s.len(),
    ensures
        i <= spec_num_end(s, i, seen_dot) <= s.len(),
    decreases s.len() - i,
{
    if i < s.len() {
        if spec_is_digit(s[i]) {
            lemma_num_end_bounds(s, i + 1, seen_dot);
        } else if s[i] == '.' && !seen_dot {
            lemma_num_end_bounds(s, i + 1, true);
        }
    }
}

/// What one escape character after a backslash stands for, if it is valid.
pub open spec fn spec_escape_map(c: char) -> Option<char> {
    if c == 'n' {
        Some('\n')
    } else if c == 't' {
        Some('\t')
    } else if c == 'r' {
        Some('\r')
    } else if c == '\\' {
        Some('\\')
    } else if c == '"' {
        Some('"')
    } else {
        None
    }
}

/// Outcome of scanning a text literal from just after its opening quote.
pub enum StrScan {
    /// The decoded content and the index just past the closing quote.
    Done { content: Seq<char>, end: int },
    /// An invalid escape: index of the character after the backslash.
    BadEscape { at: int },
    /// A raw newline before the closing quote, or the input ended first.
    Unterminated,
}

pub open spec fn spec_scan_str(s: Seq<char>, i: int, acc: Seq<char>) -> StrScan
    decreases s.len() - i,
{
    if i < 0 || i >= s.len() {
        StrScan::Unterminated
    } else if s[i] == '"' {
        StrScan::Done { content: acc, end: i + 1 }
    } else if s[i] == '\n' {
        StrScan::Unterminated
    } else if s[i] == '\\' {
        if i + 1 >= s.len() {
            StrScan::Unterminated
        } else {
            match spec_escape_map(s[i + 1]) {
                Some(e) => spec_scan_str(s, i + 2, acc.push(e)),
                None => StrScan::BadEscape { at: i + 1 },
            }
        }
    } else {
        spec_scan_str(s, i + 1, acc.push(s[i]))
    }
}

pub proof fn lemma_scan_str_bounds(s: Seq<char>, i: int, acc: Seq<char>)
    requires
        0 <= i <= s.len(),
    ensures
        spec_scan_str(s, i, acc) matches StrScan::Done { end, .. } ==> i + 1 <= end <= s.len(),
        spec_scan_str(s, i, acc) matches StrScan::BadEscape { at } ==> i <= at < s.len(),
    decreases s.len() - i,
{
    if 0 <= i < s.len() && s[i] != '"' && s[i] != '\n' {
        if s[i] == '\\' {
            if i + 1 < s.len() {
                match spec_escape_map(s[i + 1]) {
                    Some(e) => lemma_scan_str_bounds(s, i + 2, acc.push(e)),
                    None => {},
                }
            }
        } else {
            lemma_scan_str_bounds(s, i + 1, acc.push(s[i]));
        }
    }
}

/// The token a completed identifier run stands for: a keyword of the
/// language, a readable operator alias, or a plain identifier.
pub open spec fn spec_keyword_token(w: Seq<char>) -> SpecTokenType {
    if w == "print"@ {
        SpecTokenType::Print
    } else if w == "let"@ {
        SpecTokenType::Let
    } else if w == "num"@ {
        SpecTokenType::Num
    } else if w == "plus"@ {
        SpecTokenType::Plus
    } else if w == "minus"@ {
        SpecTokenType::Minus
    } else if w == "times"@ || w == "multiply"@ {
        SpecTokenType::Star
    } else if w == "divide"@ {
        SpecTokenType::Slash
    } else if w == "newfn"@ {
        SpecTokenType::NewFn
    } else if w == "callfn"@ {
        SpecTokenType::CallFn
    } else {
        SpecTokenType::Identifier(w)
    }
}

/// One scan step at position `i`, with the current 1-based line and column
/// and the tokens produced so far. This is the whole lexical grammar:
/// whitespace skipping, newline tokens, comments, punctuation, text and
/// number literals, identifiers and keywords, and the lookahead that marks
/// `print(o"` with a format-string prefix token.
pub open spec fn spec_lex(
    s: Seq<char>,
    i: int,
    line: int,
    col: int,
    acc: Seq<SpecToken>,
) -> Result<Seq<SpecToken>, SpecDiag>
    decreases s.len() - i,
    via spec_lex_dec
{
    if i < 0 || i >= s.len() {
        Ok(acc.push(spec_tok(SpecTokenType::EOF, line, col)))
    } else {
        let c = s[i];
        if c == ' ' || c == '\t' || c == '\r' {
            spec_lex(s, i + 1, line, col + 1, acc)
        } else if c == '\n' {
            spec_lex(s, i + 1, line + 1, 1, acc.push(spec_tok(SpecTokenType::Newline, line, col)))
        } else if c == '/' {
            if i + 1 < s.len() && s[i + 1] == '/' {
                let j = spec_find(s, '\n', i + 2);
                spec_lex(s, j, line, col + (j - i), acc)
            } else {
                spec_lex(s, i + 1, line, col + 1, acc.push(spec_tok(SpecTokenType::Slash, line, col)))
            }
        } else if c == '(' {
            spec_lex(s, i + 1, line, col + 1, acc.push(spec_tok(SpecTokenType::OpenParen, line, col)))
        } else if c == ')' {
            spec_lex(s, i + 1, line, col + 1, acc.push(spec_tok(SpecTokenType::CloseParen, line, col)))
        } else if c == '=' {
            spec_lex(s, i + 1, line, col + 1, acc.push(spec_tok(SpecTokenType::Equals, line, col)))
        } else if c == '+' {
            spec_lex(s, i + 1, line, col + 1, acc.push(spec_tok(SpecTokenType::Plus, line, col)))
        } else if c == '-' {
            spec_lex(s, i + 1, line, col + 1, acc.push(spec_tok(SpecTokenType::Minus, line, col)))
        } else if c == '*' {
            spec_lex(s, i + 1, line, col + 1, acc.push(spec_tok(SpecTokenType::Star, line, col)))
        } else if c == '{' {
            spec_lex(s, i + 1, line, col + 1, acc.push(spec_tok(SpecTokenType::OpenBrace, line, col)))
        } else if c == '}' {
            spec_lex(s, i + 1, line, col + 1, acc.push(spec_tok(SpecTokenType::CloseBrace, line, col)))
        } else if c == '"' {
            match spec_scan_str(s, i + 1, Seq::empty()) {
                StrScan::Done { content, end } => spec_lex(
                    s,
                    end,
                    line,
                    col + (end - i),
                    acc.push(spec_tok(SpecTokenType::StringLiteral(content), line, col)),
                ),
                StrScan::BadEscape { at } => Err(
                    SpecDiag {
                        line: line,
                        column: col + (at - i),
                        message: "Invalid escape sequence '\\"@ + seq![s[at]] + "'"@,
                        hint: "Valid escape sequences are: \\n, \\t, \\r, \\\", \\\\"@,
                    },
                ),
                StrScan::Unterminated => Err(
                    SpecDiag {
                        line: line,
                        column: col,
                        message: "Unterminated string literal"@,
                        hint: "Add a closing quote to complete the string"@,
                    },
                ),
            }
        } else if spec_is_digit(c) {
            let j = spec_num_end(s, i, false);
            spec_lex(
                s,
                j,
                line,
                col + (j - i),
                acc.push(spec_tok(SpecTokenType::NumberLiteral(s.subrange(i, j)), line, col)),
            )
        } else if spec_is_ascii_letter(c) || c == '_' {
            let j = spec_ident_end(s, i);
            let w = s.subrange(i, j);
            if w == "print"@ {
                let acc1 = acc.push(spec_tok(SpecTokenType::Print, line, col));
                if j < s.len() && s[j] == '(' {
                    let acc2 = acc1.push(spec_tok(SpecTokenType::OpenParen, line, col + (j - i)));
                    if j + 1 < s.len() && s[j + 1] == 'o' {
                        if j + 2 < s.len() {
                            if s[j + 2] == '"' {
                                spec_lex(
                                    s,
                                    j + 2,
                                    line,
                                    col + (j - i) + 2,
                                    acc2.push(
                                        spec_tok(
                                            SpecTokenType::FormatStringPrefix,
                                            line,
                                            col + (j - i) + 1,
                                        ),
                                    ),
                                )
                            } else {
                                Err(
                                    SpecDiag {
                                        line: line,
                                        column: col + (j - i) + 2,
                                        message: "Expected '\"' after 'o' prefix"@,
                                        hint: "Format strings should be written as: print(o\"...\")"@,
                                    },
                                )
                            }
                        } else {
                            spec_lex(s, j + 2, line, col + (j - i) + 2, acc2)
                        }
                    } else {
                        spec_lex(s, j + 1, line, col + (j - i) + 1, acc2)
                    }
                } else {
                    spec_lex(s, j, line, col + (j - i), acc1)
                }
            } else {
                spec_lex(
                    s,
                    j,
                    line,
                    col + (j - i),
                    acc.push(spec_tok(spec_keyword_token(w), line, col)),
                )
            }
        } else {
            Err(
                SpecDiag {
                    line: line,
                    column: col,
                    message: "Unexpected character '"@ + seq![c] + "'"@,
                    hint: "Remove or replace this character"@,
                },
            )
        }
    }
}

#[via_fn]
proof fn spec_lex_dec(s: Seq<char>, i: int, line: int, col: int, acc: Seq<SpecToken>) {
    if 0 <= i < s.len() {
        let c = s[i];
        if c == '/' && i + 1 < s.len() && s[i + 1] == '/' {
            lemma_find_bounds(s, '\n', i + 2);
        }
        if c == '"' {
            lemma_scan_str_bounds(s, i + 1, Seq::empty());
        }
        if spec_is_digit(c) {
            lemma_num_end_bounds(s, i + 1, false);
        }
        if spec_is_ascii_letter(c) || c == '_' {
            lemma_ident_end_bounds(s, i + 1, );
        }
    }
}

/// The token sequence of a whole source text, or the first lexical fault.
pub open spec fn spec_tokenize(s: Seq<char>) -> Result<Seq<SpecToken>, SpecDiag> {
    spec_lex(s, 0, 1, 1, Seq::empty())
}

fn ident_end(v: &Vec<char>, i: usize) -> (j: usize)
    requires
        i <= v@.len(),
    ensures
        j as int == spec_ident_end(v@, i as int),
        i <= j <= v@.len(),
    decreases v@.len() - i,
{
    if i < v.len() {
        let c = v[i];
        if is_alnum_char(c) || c == '_' {
            return ident_end(v, i + 1);
        }
    }
    i
}

fn num_end(v: &Vec<char>, i: usize, seen_dot: bool) -> (j: usize)
    requires
        i <= v@.len(),
    ensures
        j as int == spec_num_end(v@, i as int, seen_dot),
        i <= j <= v@.len(),
    decreases v@.len() - i,
{
    if i < v.len() {
        let c = v[i];
        if is_digit(c) {
            return num_end(v, i + 1, seen_dot);
        }
        if c == '.' && !seen_dot {
            return num_end(v, i + 1, true);
        }
    }
    i
}

fn escape_char(c: char) -> (r: Option<char>)
    ensures
        r == spec_escape_map(c),
{
    if c == 'n' {
        Some('\n')
    } else if c == 't' {
        Some('\t')
    } else if c == 'r' {
        Some('\r')
    } else if c == '\\' {
        Some('\\')
    } else if c == '"' {
        Some('"')
    } else {
        None
    }
}

enum StrScanExec {
    Done(String, usize),
    BadEscape(usize),
    Unterminated,
}

fn scan_string(v: &Vec<char>, i: usize, acc: String) -> (r: StrScanExec)
    requires
        i <= v@.len(),
    ensures
        ({
            let sc = spec_scan_str(v@, i as int, acc@);
            &&& (sc matches StrScan::Done { content, end } ==> r matches StrScanExec::Done(
                s2,
                e2,
            ) && s2@ == content && e2 as int == end && i < e2 <= v@.len())
            &&& (sc matches StrScan::BadEscape { at } ==> r matches StrScanExec::BadEscape(a2)
                && a2 as int == at && i <= a2 < v@.len())
            &&& (sc is Unterminated ==> r is Unterminated)
        }),
    decreases v@.len() - i,
{
    if i >= v.len() {
        return StrScanExec::Unterminated;
    }
    let c = v[i];
    if c == '"' {
        return StrScanExec::Done(acc, i + 1);
    }
    if c == '\n' {
        return StrScanExec::Unterminated;
    }
    if c == '\\' {
        if i + 1 >= v.len() {
            return StrScanExec::Unterminated;
        }
        let e = v[i + 1];
        match escape_char(e) {
            Some(x) => {
                let mut acc2 = acc;
                push_char(&mut acc2, x);
                scan_string(v, i + 2, acc2)
            },
            None => StrScanExec::BadEscape(i + 1),
        }
    } else {
        let mut acc2 = acc;
        push_char(&mut acc2, c);
        scan_string(v, i + 1, acc2)
    }
}

/// The token of a completed identifier run.
fn keyword_token(w: String) -> (t: TokenType)
    ensures
        t@ == spec_keyword_token(w@),
{
    if str_eq_chars(w.as_str(), "print") {
        TokenType::Print
    } else if str_eq_chars(w.as_str(), "let") {
        TokenType::Let
    } else if str_eq_chars(w.as_str(), "num") {
        TokenType::Num
    } else if str_eq_chars(w.as_str(), "plus") {
        TokenType::Plus
    } else if str_eq_chars(w.as_str(), "minus") {
        TokenType::Minus
    } else if str_eq_chars(w.as_str(), "times") || str_eq_chars(w.as_str(), "multiply") {
        TokenType::Star
    } else if str_eq_chars(w.as_str(), "divide") {
        TokenType::Slash
    } else if str_eq_chars(w.as_str(), "newfn") {
        TokenType::NewFn
    } else if str_eq_chars(w.as_str(), "callfn") {
        TokenType::CallFn
    } else {
        TokenType::Identifier(w)
    }
}

/// Turns source text into the token sequence `spec_tokenize` describes, or
/// renders the first lexical fault exactly as `format_error` does.
pub fn tokenize(source: &str, source_path: &str) -> (r: Result<Vec<Token>, String>)
    requires
        source@.len() < usize::MAX,
    ensures
        ({
            let sr = spec_tokenize(source@);
            &&& (r is Ok <==> sr is Ok)
            &&& (r matches Ok(toks) ==> sr matches Ok(ts) && deep_toks(toks@) == ts
                && crate::token::wf_tokens(deep_toks(toks@)))
            &&& (r matches Err(msg) ==> sr matches Err(d) && msg@ == spec_render_diag(
                source_path@,
                source@,
                d,
            ))
        }),
{
    let v = to_char_vec(source);
    let n = v.len();
    let mut tokens: Vec<Token> = Vec::new();
    let mut line: usize = 1;
    let mut col: usize = 1;
    let mut i: usize = 0;
    proof {
        assert(deep_toks(tokens@) =~= Seq::<SpecToken>::empty());
    }
    while i < n
        invariant
            n == v@.len(),
            v@ == source@,
            source@.len() < usize::MAX,
            i <= n,
            1 <= line && line <= i + 1,
            1 <= col && col <= i + 1,
            forall|k: int|
                0 <= k < tokens@.len() ==> (#[trigger] deep_toks(tokens@)[k]).line >= 1
                    && deep_toks(tokens@)[k].column >= 1,
            spec_lex(source@, i as int, line as int, col as int, deep_toks(tokens@))
                == spec_tokenize(source@),
        decreases n - i,
    {
        let ghost toks0 = tokens@;
        let c = v[i];
        if c == ' ' || c == '\t' || c == '\r' {
            i = i + 1;
            col = col + 1;
        } else if c == '\n' {
            let t = Token { token_type: TokenType::Newline, line, column: col };
            tokens.push(t);
            proof {
                lemma_deep_push(toks0, t);
            }
            i = i + 1;
            line = line + 1;
            col = 1;
        } else if c == '/' {
            if i + 1 < n && v[i + 1] == '/' {
                let j = find_char(&v, '\n', i + 2);
                col = col + (j - i);
                i = j;
            } else {
                let t = Token { token_type: TokenType::Slash, line, column: col };
                tokens.push(t);
                proof {
                    lemma_deep_push(toks0, t);
                }
                i = i + 1;
                col = col + 1;
            }
        } else if c == '(' || c == ')' || c == '=' || c == '+' || c == '-' || c == '*' || c == '{'
            || c == '}' {
            let tt = if c == '(' {
                TokenType::OpenParen
            } else if c == ')' {
                TokenType::CloseParen
            } else if c == '=' {
                TokenType::Equals
            } else if c == '+' {
                TokenType::Plus
            } else if c == '-' {
                TokenType::Minus
            } else if c == '*' {
                TokenType::Star
            } else if c == '{' {
                TokenType::OpenBrace
            } else {
                TokenType::CloseBrace
            };
            let t = Token { token_type: tt, line, column: col };
            tokens.push(t);
            proof {
                lemma_deep_push(toks0, t);
            }
            i = i + 1;
            col = col + 1;
        } else if c == '"' {
            match scan_string(&v, i + 1, String::new()) {
                StrScanExec::Done(content, end) => {
                    let t = Token {
                        token_type: TokenType::StringLiteral(content),
                        line,
                        column: col,
                    };
                    tokens.push(t);
                    proof {
                        lemma_deep_push(toks0, t);
                    }
                    col = col + (end - i);
                    i = end;
                },
                StrScanExec::BadEscape(at) => {
                    let mut m = lit("Invalid escape sequence '\\");
                    push_char(&mut m, v[at]);
                    push_char(&mut m, '\'');
                    proof {
                        reveal_strlit("'");
                        assert(m@ =~= "Invalid escape sequence '\\"@ + seq![v@[at as int]]
                            + "'"@);
                    }
                    return Err(
                        format_error(
                            source_path,
                            source,
                            ErrorPosition { line, column: col + (at - i) },
                            m,
                            lit("Valid escape sequences are: \\n, \\t, \\r, \\\", \\\\"),
                        ),
                    );
                },
                StrScanExec::Unterminated => {
                    return Err(
                        format_error(
                            source_path,
                            source,
                            ErrorPosition { line, column: col },
                            lit("Unterminated string literal"),
                            lit("Add a closing quote to complete the string"),
                        ),
                    );
                },
            }
        } else if is_digit(c) {
            let j = num_end(&v, i, false);
            proof {
                lemma_num_end_bounds(v@, i as int + 1, false);
            }
            let numeral = string_from_range(&v, i, j);
            let t = Token { token_type: TokenType::NumberLiteral(numeral), line, column: col };
            tokens.push(t);
            proof {
                lemma_deep_push(toks0, t);
            }
            col = col + (j - i);
            i = j;
        } else if is_ascii_letter(c) || c == '_' {
            let j = ident_end(&v, i);
            proof {
                lemma_ident_end_bounds(v@, i as int + 1);
            }
            let w = string_from_range(&v, i, j);
            let d = j - i;
            if str_eq_chars(w.as_str(), "print") {
                let t = Token { token_type: TokenType::Print, line, column: col };
                tokens.push(t);
                proof {
                    lemma_deep_push(toks0, t);
                }
                if j < n && v[j] == '(' {
                    let ghost toks1 = tokens@;
                    let t2 = Token { token_type: TokenType::OpenParen, line, column: col + d };
                    tokens.push(t2);
                    proof {
                        lemma_deep_push(toks1, t2);
                    }
                    if j + 1 < n && v[j + 1] == 'o' {
                        if j + 2 < n {
                            if v[j + 2] == '"' {
                                let ghost toks2 = tokens@;
                                let t3 = Token {
                                    token_type: TokenType::FormatStringPrefix,
                                    line,
                                    column: col + d + 1,
                                };
                                tokens.push(t3);
                                proof {
                                    lemma_deep_push(toks2, t3);
                                }
                                col = col + d + 2;
                                i = j + 2;
                            } else {
                                return Err(
                                    format_error(
                                        source_path,
                                        source,
                                        ErrorPosition { line, column: col + d + 2 },
                                        lit("Expected '\"' after 'o' prefix"),
                                        lit("Format strings should be written as: print(o\"...\")"),
                                    ),
                                );
                            }
                        } else {
                            col = col + d + 2;
                            i = j + 2;
                        }
                    } else {
                        col = col + d + 1;
                        i = j + 1;
                    }
                } else {
                    col = col + d;
                    i = j;
                }
            } else {
                let t = Token { token_type: keyword_token(w), line, column: col };
                tokens.push(t);
                proof {
                    lemma_deep_push(toks0, t);
                }
                col = col + d;
                i = j;
            }
        } else {
            let mut m = lit("Unexpected character '");
            push_char(&mut m, c);
            push_char(&mut m, '\'');
            proof {
                reveal_strlit("'");
                assert(m@ =~= "Unexpected character '"@ + seq![v@[i as int]] + "'"@);
            }
            return Err(
                format_error(
                    source_path,
                    source,
                    ErrorPosition { line, column: col },
                    m,
                    lit("Remove or replace this character"),
                ),
            );
        }
    }
    let ghost toks0 = tokens@;
    let t = Token { token_type: TokenType::EOF, line, column: col };
    tokens.push(t);
    proof {
        lemma_deep_push(toks0, t);
    }
    Ok(tokens)
}

} // verus!

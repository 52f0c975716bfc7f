use vstd::prelude::*;

verus! {

// Tokens of the language. Each token carries its 1-based source line and
// column so later stages can report precise positions.

#[derive(Debug, Clone, PartialEq)]
pub enum TokenType {
    /// The 'print' keyword.
    Print,
    /// An identifier (variable or routine name).
    Identifier(String),
    /// A text literal without its quotes, escapes already decoded.
    StringLiteral(String),
    /// A number literal, kept as its source digits (with at most one dot).
    NumberLiteral(String),
    /// '('
    OpenParen,
    /// ')'
    CloseParen,
    /// The 'let' keyword (text variable declaration).
    Let,
    /// The 'num' keyword (numeric variable declaration).
    Num,
    /// '='
    Equals,
    /// '+'
    Plus,
    /// '-'
    Minus,
    /// '*'
    Star,
    /// '/'
    Slash,
    /// The marker emitted before the literal of print(o"...").
    FormatStringPrefix,
    /// A newline, the statement separator.
    Newline,
    /// End of input.
    EOF,
    /// The 'newfn' keyword (routine definition).
    NewFn,
    /// The 'callfn' keyword (routine call).
    CallFn,
    /// '{'
    OpenBrace,
    /// '}'
    CloseBrace,
}

pub enum SpecTokenType {
    Print,
    Identifier(Seq<char>),
    StringLiteral(Seq<char>),
    NumberLiteral(Seq<char>),
    OpenParen,
    CloseParen,
    Let,
    Num,
    Equals,
    Plus,
    Minus,
    Star,
    Slash,
    FormatStringPrefix,
    Newline,
    EOF,
    NewFn,
    CallFn,
    OpenBrace,
    CloseBrace,
}

impl View for TokenType {
    type V = SpecTokenType;

    open spec fn view(&self) -> SpecTokenType {
        match self {
            TokenType::Print => SpecTokenType::Print,
            TokenType::Identifier(s) => SpecTokenType::Identifier(s@),
            TokenType::StringLiteral(s) => SpecTokenType::StringLiteral(s@),
            TokenType::NumberLiteral(s) => SpecTokenType::NumberLiteral(s@),
            TokenType::OpenParen => SpecTokenType::OpenParen,
            TokenType::CloseParen => SpecTokenType::CloseParen,
            TokenType::Let => SpecTokenType::Let,
            TokenType::Num => SpecTokenType::Num,
            TokenType::Equals => SpecTokenType::Equals,
            TokenType::Plus => SpecTokenType::Plus,
            TokenType::Minus => SpecTokenType::Minus,
            TokenType::Star => SpecTokenType::Star,
            TokenType::Slash => SpecTokenType::Slash,
            TokenType::FormatStringPrefix => SpecTokenType::FormatStringPrefix,
            TokenType::Newline => SpecTokenType::Newline,
            TokenType::EOF => SpecTokenType::EOF,
            TokenType::NewFn => SpecTokenType::NewFn,
            TokenType::CallFn => SpecTokenType::CallFn,
            TokenType::OpenBrace => SpecTokenType::OpenBrace,
            TokenType::CloseBrace => SpecTokenType::CloseBrace,
        }
    }
}

#[derive(Debug, Clone, PartialEq)]
pub struct Token {
    pub token_type: TokenType,
    pub line: usize,
    pub column: usize,
}

pub struct SpecToken {
    pub token_type: SpecTokenType,
    pub line: int,
    pub column: int,
}

impl View for Token {
    type V = SpecToken;

    open spec fn view(&self) -> SpecToken {
        SpecToken { token_type: self.token_type@, line: self.line as int, column: self.column as int }
    }
}

/// The token sequence as its mathematical model.
pub open spec fn deep_toks(ts: Seq<Token>) -> Seq<SpecToken> {
    ts.map_values(|t: Token| t@)
}

/// A token sequence the parser accepts: nonempty, terminated by the
/// end-of-input marker, every position 1-based.
pub open spec fn wf_tokens(ts: Seq<SpecToken>) -> bool {
    &&& ts.len() > 0
    &&& ts[ts.len() - 1].token_type is EOF
    &&& forall|k: int| 0 <= k < ts.len() ==> ts[k].line >= 1 && ts[k].column >= 1
}

/// A number naming each variant, so the parser can compare token kinds
/// without reading their payloads.
pub open spec fn spec_kind_num(t: SpecTokenType) -> int {
    match t {
        SpecTokenType::Print => 0,
        SpecTokenType::Identifier(_) => 1,
        SpecTokenType::StringLiteral(_) => 2,
        SpecTokenType::NumberLiteral(_) => 3,
        SpecTokenType::OpenParen => 4,
        SpecTokenType::CloseParen => 5,
        SpecTokenType::Let => 6,
        SpecTokenType::Num => 7,
        SpecTokenType::Equals => 8,
        SpecTokenType::Plus => 9,
        SpecTokenType::Minus => 10,
        SpecTokenType::Star => 11,
        SpecTokenType::Slash => 12,
        SpecTokenType::FormatStringPrefix => 13,
        SpecTokenType::Newline => 14,
        SpecTokenType::EOF => 15,
        SpecTokenType::NewFn => 16,
        SpecTokenType::CallFn => 17,
        SpecTokenType::OpenBrace => 18,
        SpecTokenType::CloseBrace => 19,
    }
}

pub fn kind_num(t: &TokenType) -> (n: u8)
    ensures
        n as int == spec_kind_num(t@),
{
    match t {
        TokenType::Print => 0,
        TokenType::Identifier(_) => 1,
        TokenType::StringLiteral(_) => 2,
        TokenType::NumberLiteral(_) => 3,
        TokenType::OpenParen => 4,
        TokenType::CloseParen => 5,
        TokenType::Let => 6,
        TokenType::Num => 7,
        TokenType::Equals => 8,
        TokenType::Plus => 9,
        TokenType::Minus => 10,
        TokenType::Star => 11,
        TokenType::Slash => 12,
        TokenType::FormatStringPrefix => 13,
        TokenType::Newline => 14,
        TokenType::EOF => 15,
        TokenType::NewFn => 16,
        TokenType::CallFn => 17,
        TokenType::OpenBrace => 18,
        TokenType::CloseBrace => 19,
    }
}

pub proof fn lemma_deep_push(ts: Seq<Token>, t: Token)
    ensures
        deep_toks(ts.push(t)) == deep_toks(ts).push(t@),
{
    assert(deep_toks(ts.push(t)) =~= deep_toks(ts).push(t@));
}

} // verus!

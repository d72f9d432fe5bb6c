//! Lexical tokens: the interface between the scanner and the parser.

use vstd::prelude::*;

verus! {

/// The category of a lexical token.
#[derive(Clone, Copy, Debug, PartialEq, Eq, Structural)]
pub enum TokenKind {
    LeftParen,
    RightParen,
    Semicolon,
    Equal,
    EqualEqual,
    BangEqual,
    Less,
    LessEqual,
    Greater,
    GreaterEqual,
    Plus,
    Minus,
    Star,
    Slash,
    Bang,
    Number,
    StringLit,
    Identifier,
    Let,
    Print,
    True,
    False,
    Null,
    Class,
    Fn,
    For,
    If,
    While,
    Return,
    Eof,
}

/// The single runtime value type of the language: a tagged union over
/// numbers, text, booleans and null.
#[derive(Debug, PartialEq)]
pub enum LiteralValue {
    Number(i64),
    Text(String),
    Bool(bool),
    Null,
}

impl Clone for LiteralValue {
    fn clone(&self) -> (res: Self)
        ensures
            res == *self,
    {
        match self {
            LiteralValue::Number(n) => LiteralValue::Number(*n),
            LiteralValue::Text(s) => LiteralValue::Text(s.clone()),
            LiteralValue::Bool(b) => LiteralValue::Bool(*b),
            LiteralValue::Null => LiteralValue::Null,
        }
    }
}

/// A token as the scanner produces it: a category, the exact source lexeme,
/// an optional parsed literal value, and a 1-based source line number.
#[derive(Debug)]
pub struct Token {
    pub kind: TokenKind,
    pub lexeme: String,
    pub literal: Option<LiteralValue>,
    pub line: u64,
}

impl Clone for Token {
    fn clone(&self) -> (res: Self)
        ensures
            res == *self,
    {
        Token {
            kind: self.kind,
            lexeme: self.lexeme.clone(),
            literal: match &self.literal {
                Some(v) => Some(v.clone()),
                None => None,
            },
            line: self.line,
        }
    }
}

/// A literal-carrying token actually carries a literal of the right tag.
pub open spec fn wf_token(t: Token) -> bool {
    match t.kind {
        TokenKind::Number => t.literal matches Some(LiteralValue::Number(_)),
        TokenKind::StringLit => t.literal matches Some(LiteralValue::Text(_)),
        _ => true,
    }
}

/// The literal value a literal-category token stands for.
pub open spec fn lit_of_token(t: Token) -> LiteralValue {
    match t.kind {
        TokenKind::True => LiteralValue::Bool(true),
        TokenKind::False => LiteralValue::Bool(false),
        TokenKind::Number | TokenKind::StringLit => t.literal.unwrap(),
        _ => LiteralValue::Null,
    }
}

/// Extract the literal value a literal-category token carries.
pub fn literal_from_token(t: &Token) -> (r: LiteralValue)
    requires
        wf_token(*t),
    ensures
        r == lit_of_token(*t),
{
    match t.kind {
        TokenKind::True => LiteralValue::Bool(true),
        TokenKind::False => LiteralValue::Bool(false),
        TokenKind::Number | TokenKind::StringLit => match &t.literal {
            Some(v) => v.clone(),
            None => LiteralValue::Null,
        },
        _ => LiteralValue::Null,
    }
}

/// The scanner's obligation: a non-empty token sequence terminated by exactly
/// one end-of-input token, every token well formed.
pub open spec fn wf_tokens(toks: Seq<Token>) -> bool {
    &&& toks.len() >= 1
    &&& toks[toks.len() - 1].kind == TokenKind::Eof
    &&& forall|i: int| 0 <= i < toks.len() - 1 ==> (#[trigger] toks[i]).kind != TokenKind::Eof
    &&& forall|i: int| 0 <= i < toks.len() ==> wf_token(#[trigger] toks[i])
}

} // verus!

//! The lexical scanner: turns ASCII source text into the flat token list
//! the parser consumes. Its contract is the scanner interface the parser
//! relies on: on success the token list is well formed — non-empty,
//! terminated by exactly one end-of-input token, every literal token
//! carrying a literal of the right tag — and every token records its
//! 1-based source line.

use vstd::prelude::*;

use crate::token::{Token, TokenKind, LiteralValue, wf_token, wf_tokens};
use vstd::utf8::is_ascii_chars;

verus! {

/// No token the scan produces is the end-of-input marker, and each is well
/// formed; the marker itself is appended once, at the end.
spec fn scanned_so_far(toks: Seq<Token>) -> bool {
    forall|k: int|
        0 <= k < toks.len() ==> (#[trigger] toks[k]).kind != TokenKind::Eof && wf_token(toks[k])
}

fn is_digit(c: u8) -> (r: bool)
    ensures
        r == (48 <= c <= 57),
{
    48 <= c && c <= 57
}

fn is_alpha(c: u8) -> (r: bool)
    ensures
        r == (65 <= c <= 90 || 97 <= c <= 122 || c == 95),
{
    (65 <= c && c <= 90) || (97 <= c && c <= 122) || c == 95
}

fn keyword_kind(lexeme: &String) -> (k: TokenKind)
    ensures
        k != TokenKind::Eof,
        k != TokenKind::Number,
        k != TokenKind::StringLit,
{
    if *lexeme == String::from_str("let") {
        TokenKind::Let
    } else if *lexeme == String::from_str("print") {
        TokenKind::Print
    } else if *lexeme == String::from_str("true") {
        TokenKind::True
    } else if *lexeme == String::from_str("false") {
        TokenKind::False
    } else if *lexeme == String::from_str("null") {
        TokenKind::Null
    } else if *lexeme == String::from_str("class") {
        TokenKind::Class
    } else if *lexeme == String::from_str("fn") {
        TokenKind::Fn
    } else if *lexeme == String::from_str("for") {
        TokenKind::For
    } else if *lexeme == String::from_str("if") {
        TokenKind::If
    } else if *lexeme == String::from_str("while") {
        TokenKind::While
    } else if *lexeme == String::from_str("return") {
        TokenKind::Return
    } else {
        TokenKind::Identifier
    }
}

/// Scans one source text into tokens.
pub struct Tokenizer {
    source: String,
}

impl Tokenizer {
    /// Hold the source to scan.
    pub fn new(source: &str) -> (r: Self) {
        Tokenizer { source: String::from_str(source) }
    }

    /// Scan the whole source. On success the token list satisfies the
    /// parser's input contract; a character outside the language, an
    /// unterminated string or an oversized number is reported as an error.
    pub fn tokenize(&mut self) -> (r: Result<Vec<Token>, String>)
        ensures
            r matches Ok(toks) ==> wf_tokens(toks@),
    {
        if !self.source.as_str().is_ascii() {
            return Err(String::from_str("Source must be ASCII"));
        }
        let n = self.source.as_str().unicode_len();
        let mut toks: Vec<Token> = Vec::new();
        let mut i: usize = 0;
        let mut line: u64 = 1;
        while i < n
            invariant
                is_ascii_chars(self.source@),
                n == self.source@.len(),
                i <= n,
                scanned_so_far(toks@),
            decreases n - i,
        {
            let c = self.source.as_str().get_ascii(i);
            if c == 32 || c == 9 || c == 13 {
                i = i + 1;
            } else if c == 10 {
                if line < u64::MAX {
                    line = line + 1;
                }
                i = i + 1;
            } else if c == 40 {
                toks.push(Token { kind: TokenKind::LeftParen, lexeme: String::from_str("("), literal: None, line });
                i = i + 1;
            } else if c == 41 {
                toks.push(Token { kind: TokenKind::RightParen, lexeme: String::from_str(")"), literal: None, line });
                i = i + 1;
            } else if c == 59 {
                toks.push(Token { kind: TokenKind::Semicolon, lexeme: String::from_str(";"), literal: None, line });
                i = i + 1;
            } else if c == 43 {
                toks.push(Token { kind: TokenKind::Plus, lexeme: String::from_str("+"), literal: None, line });
                i = i + 1;
            } else if c == 45 {
                toks.push(Token { kind: TokenKind::Minus, lexeme: String::from_str("-"), literal: None, line });
                i = i + 1;
            } else if c == 42 {
                toks.push(Token { kind: TokenKind::Star, lexeme: String::from_str("*"), literal: None, line });
                i = i + 1;
            } else if c == 47 {
                toks.push(Token { kind: TokenKind::Slash, lexeme: String::from_str("/"), literal: None, line });
                i = i + 1;
            } else if c == 61 {
                if i + 1 < n && self.source.as_str().get_ascii(i + 1) == 61 {
                    toks.push(Token { kind: TokenKind::EqualEqual, lexeme: String::from_str("=="), literal: None, line });
                    i = i + 2;
                } else {
                    toks.push(Token { kind: TokenKind::Equal, lexeme: String::from_str("="), literal: None, line });
                    i = i + 1;
                }
            } else if c == 33 {
                if i + 1 < n && self.source.as_str().get_ascii(i + 1) == 61 {
                    toks.push(Token { kind: TokenKind::BangEqual, lexeme: String::from_str("!="), literal: None, line });
                    i = i + 2;
                } else {
                    toks.push(Token { kind: TokenKind::Bang, lexeme: String::from_str("!"), literal: None, line });
                    i = i + 1;
                }
            } else if c == 60 {
                if i + 1 < n && self.source.as_str().get_ascii(i + 1) == 61 {
                    toks.push(Token { kind: TokenKind::LessEqual, lexeme: String::from_str("<="), literal: None, line });
                    i = i + 2;
                } else {
                    toks.push(Token { kind: TokenKind::Less, lexeme: String::from_str("<"), literal: None, line });
                    i = i + 1;
                }
            } else if c == 62 {
                if i + 1 < n && self.source.as_str().get_ascii(i + 1) == 61 {
                    toks.push(Token { kind: TokenKind::GreaterEqual, lexeme: String::from_str(">="), literal: None, line });
                    i = i + 2;
                } else {
                    toks.push(Token { kind: TokenKind::Greater, lexeme: String::from_str(">"), literal: None, line });
                    i = i + 1;
                }
            } else if is_digit(c) {
                let start = i;
                let mut value: i64 = 0;
                let mut overflow = false;
                let mut more = true;
                while more
                    invariant
                        is_ascii_chars(self.source@),
                        n == self.source@.len(),
                        start <= i <= n,
                        more ==> i < n,
                        0 <= value,
                        48 <= self.source@[start as int] as u8 <= 57,
                        i == start ==> more,
                    decreases n - i, (if more { 1int } else { 0int }),
                {
                    let d = self.source.as_str().get_ascii(i);
                    if is_digit(d) {
                        let dv = (d - 48) as i64;
                        if value > (i64::MAX - dv) / 10 {
                            overflow = true;
                        } else {
                            value = value * 10 + dv;
                        }
                        i = i + 1;
                        if i >= n {
                            more = false;
                        }
                    } else {
                        more = false;
                    }
                }
                if overflow {
                    return Err(String::from_str("Number literal too large"));
                }
                let lexeme = String::from_str(self.source.as_str().substring_ascii(start, i));
                toks.push(Token {
                    kind: TokenKind::Number,
                    lexeme,
                    literal: Some(LiteralValue::Number(value)),
                    line,
                });
            } else if is_alpha(c) {
                let start = i;
                let mut more = true;
                while more
                    invariant
                        is_ascii_chars(self.source@),
                        n == self.source@.len(),
                        start <= i <= n,
                        more ==> i < n,
                        65 <= self.source@[start as int] as u8 <= 90 || 97 <= self.source@[
                            start as int
                        ] as u8 <= 122 || self.source@[start as int] as u8 == 95,
                        i == start ==> more,
                    decreases n - i, (if more { 1int } else { 0int }),
                {
                    let d = self.source.as_str().get_ascii(i);
                    if is_alpha(d) || is_digit(d) {
                        i = i + 1;
                        if i >= n {
                            more = false;
                        }
                    } else {
                        more = false;
                    }
                }
                let lexeme = String::from_str(self.source.as_str().substring_ascii(start, i));
                let kind = keyword_kind(&lexeme);
                toks.push(Token { kind, lexeme, literal: None, line });
            } else if c == 34 {
                let start = i;
                i = i + 1;
                let mut closed = false;
                while !closed && i < n
                    invariant
                        is_ascii_chars(self.source@),
                        n == self.source@.len(),
                        start < i <= n,
                        closed ==> start + 2 <= i,
                    decreases n - i,
                {
                    let d = self.source.as_str().get_ascii(i);
                    i = i + 1;
                    if d == 34 {
                        closed = true;
                    }
                }
                if !closed {
                    return Err(String::from_str("Unterminated string"));
                }
                let content = String::from_str(self.source.as_str().substring_ascii(start + 1, i - 1));
                let lexeme = String::from_str(self.source.as_str().substring_ascii(start, i));
                toks.push(Token {
                    kind: TokenKind::StringLit,
                    lexeme,
                    literal: Some(LiteralValue::Text(content)),
                    line,
                });
            } else {
                return Err(String::from_str("Unexpected character"));
            }
        }
        toks.push(Token { kind: TokenKind::Eof, lexeme: String::new(), literal: None, line });
        proof {
            assert(toks@[toks@.len() - 1].kind == TokenKind::Eof);
        }
        Ok(toks)
    }
}

} // verus!

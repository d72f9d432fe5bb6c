//! Recursive-descent parser with panic-mode recovery.
//!
//! The grammar, loosest binding first; every binary level is
//! left-associative, and assignment alone associates to the right:
//!
//! ```text
//! program      := declaration* EOF
//! declaration  := "let" IDENTIFIER ( "=" expression )? ";" | statement
//! statement    := "print" expression ";" | expression ";"
//! expression   := assignment
//! assignment   := equality ( "=" assignment )?
//! equality     := comparison ( ( "==" | "!=" ) comparison )*
//! comparison   := term ( ( ">" | ">=" | "<" | "<=" ) term )*
//! term         := factor ( ( "+" | "-" ) factor )*
//! factor       := unary ( ( "*" | "/" ) unary )*
//! unary        := ( "-" | "!" ) unary | primary
//! primary      := NUMBER | STRING | "true" | "false" | "null"
//!               | "(" expression ")" | IDENTIFIER
//! ```
//!
//! The whole grammar is stated a second time as specification functions
//! (`spec_parse` and the functions under it); `Parser::parse` is proved to
//! return exactly what they say.

use vstd::prelude::*;

use crate::ast::{Expr, Stmt};
use crate::token::{Token, TokenKind, LiteralValue, wf_tokens, lit_of_token, literal_from_token};

verus! {

/// What one expression-level grammar rule yields: a node and the position
/// after it, or a diagnostic and the position where parsing stopped.
pub enum ExprRes {
    Found { e: Expr, next: int },
    Fail { msg: Seq<char>, at: int },
}

/// What one statement-level grammar rule yields.
pub enum StmtRes {
    SFound { s: Stmt, next: int },
    SFail { msg: Seq<char>, at: int },
}

/// Whether position `i` holds the end-of-input token.
pub open spec fn at_end(toks: Seq<Token>, i: int) -> bool {
    toks[i].kind == TokenKind::Eof
}

/// `j` clamped into `lo ..= toks.len() - 1`; on the runs the parser makes
/// the clamp never moves anything, and it keeps the recursion measures of
/// the grammar functions visibly decreasing.
pub open spec fn clamped(toks: Seq<Token>, lo: int, j: int) -> int {
    let c: int = if j < lo {
        lo
    } else {
        j
    };
    if c > toks.len() - 1 {
        toks.len() - 1
    } else {
        c
    }
}

pub open spec fn spec_primary(toks: Seq<Token>, i: int) -> ExprRes
    decreases toks.len() - i, 1int,
        when wf_tokens(toks) && 0 <= i < toks.len()
{
    let t = toks[i];
    if t.kind == TokenKind::LeftParen {
        match spec_expression(toks, i + 1) {
            ExprRes::Found { e, next } => {
                let p = clamped(toks, i + 1, next);
                if toks[p].kind == TokenKind::RightParen {
                    ExprRes::Found { e: Expr::Grouping { expression: Box::new(e) }, next: p + 1 }
                } else {
                    ExprRes::Fail { msg: "Expected ')'"@, at: p }
                }
            },
            fail => fail,
        }
    } else if t.kind == TokenKind::True || t.kind == TokenKind::False || t.kind == TokenKind::Null
        || t.kind == TokenKind::Number || t.kind == TokenKind::StringLit {
        ExprRes::Found { e: Expr::Literal { value: lit_of_token(t) }, next: i + 1 }
    } else if t.kind == TokenKind::Identifier {
        ExprRes::Found { e: Expr::Variable { name: t }, next: i + 1 }
    } else {
        ExprRes::Fail { msg: "Expected expression"@, at: i }
    }
}

pub open spec fn spec_unary(toks: Seq<Token>, i: int) -> ExprRes
    decreases toks.len() - i, 2int,
        when wf_tokens(toks) && 0 <= i < toks.len()
{
    let t = toks[i];
    if t.kind == TokenKind::Bang || t.kind == TokenKind::Minus {
        match spec_unary(toks, i + 1) {
            ExprRes::Found { e, next } => ExprRes::Found {
                e: Expr::Unary { operator: t.kind, right: Box::new(e) },
                next,
            },
            fail => fail,
        }
    } else {
        spec_primary(toks, i)
    }
}

pub open spec fn spec_factor_rest(toks: Seq<Token>, i: int, acc: Expr) -> ExprRes
    decreases toks.len() - i, 3int,
        when wf_tokens(toks) && 0 <= i < toks.len()
{
    let k = toks[i].kind;
    if k == TokenKind::Slash || k == TokenKind::Star {
        match spec_unary(toks, i + 1) {
            ExprRes::Found { e, next } => spec_factor_rest(
                toks,
                clamped(toks, i + 2, next),
                Expr::Binary { left: Box::new(acc), operator: k, right: Box::new(e) },
            ),
            fail => fail,
        }
    } else {
        ExprRes::Found { e: acc, next: i }
    }
}

pub open spec fn spec_factor(toks: Seq<Token>, i: int) -> ExprRes
    decreases toks.len() - i, 4int,
        when wf_tokens(toks) && 0 <= i < toks.len()
{
    match spec_unary(toks, i) {
        ExprRes::Found { e, next } => spec_factor_rest(toks, clamped(toks, i, next), e),
        fail => fail,
    }
}

pub open spec fn spec_term_rest(toks: Seq<Token>, i: int, acc: Expr) -> ExprRes
    decreases toks.len() - i, 5int,
        when wf_tokens(toks) && 0 <= i < toks.len()
{
    let k = toks[i].kind;
    if k == TokenKind::Minus || k == TokenKind::Plus {
        match spec_factor(toks, i + 1) {
            ExprRes::Found { e, next } => spec_term_rest(
                toks,
                clamped(toks, i + 2, next),
                Expr::Binary { left: Box::new(acc), operator: k, right: Box::new(e) },
            ),
            fail => fail,
        }
    } else {
        ExprRes::Found { e: acc, next: i }
    }
}

pub open spec fn spec_term(toks: Seq<Token>, i: int) -> ExprRes
    decreases toks.len() - i, 6int,
        when wf_tokens(toks) && 0 <= i < toks.len()
{
    match spec_factor(toks, i) {
        ExprRes::Found { e, next } => spec_term_rest(toks, clamped(toks, i, next), e),
        fail => fail,
    }
}

pub open spec fn spec_comparison_rest(toks: Seq<Token>, i: int, acc: Expr) -> ExprRes
    decreases toks.len() - i, 7int,
        when wf_tokens(toks) && 0 <= i < toks.len()
{
    let k = toks[i].kind;
    if k == TokenKind::Greater || k == TokenKind::GreaterEqual || k == TokenKind::Less || k
        == TokenKind::LessEqual {
        match spec_term(toks, i + 1) {
            ExprRes::Found { e, next } => spec_comparison_rest(
                toks,
                clamped(toks, i + 2, next),
                Expr::Binary { left: Box::new(acc), operator: k, right: Box::new(e) },
            ),
            fail => fail,
        }
    } else {
        ExprRes::Found { e: acc, next: i }
    }
}

pub open spec fn spec_comparison(toks: Seq<Token>, i: int) -> ExprRes
    decreases toks.len() - i, 8int,
        when wf_tokens(toks) && 0 <= i < toks.len()
{
    match spec_term(toks, i) {
        ExprRes::Found { e, next } => spec_comparison_rest(toks, clamped(toks, i, next), e),
        fail => fail,
    }
}

pub open spec fn spec_equality_rest(toks: Seq<Token>, i: int, acc: Expr) -> ExprRes
    decreases toks.len() - i, 9int,
        when wf_tokens(toks) && 0 <= i < toks.len()
{
    let k = toks[i].kind;
    if k == TokenKind::BangEqual || k == TokenKind::EqualEqual {
        match spec_comparison(toks, i + 1) {
            ExprRes::Found { e, next } => spec_equality_rest(
                toks,
                clamped(toks, i + 2, next),
                Expr::Binary { left: Box::new(acc), operator: k, right: Box::new(e) },
            ),
            fail => fail,
        }
    } else {
        ExprRes::Found { e: acc, next: i }
    }
}

pub open spec fn spec_equality(toks: Seq<Token>, i: int) -> ExprRes
    decreases toks.len() - i, 10int,
        when wf_tokens(toks) && 0 <= i < toks.len()
{
    match spec_comparison(toks, i) {
        ExprRes::Found { e, next } => spec_equality_rest(toks, clamped(toks, i, next), e),
        fail => fail,
    }
}

/// Assignment is detected after the fact: the left side parses as an
/// ordinary equality first; if an `=` follows, that side must be exactly a
/// variable, and the right side recurses into assignment itself, which
/// gives chained assignment its right associativity.
pub open spec fn spec_assignment(toks: Seq<Token>, i: int) -> ExprRes
    decreases toks.len() - i, 11int,
        when wf_tokens(toks) && 0 <= i < toks.len()
{
    match spec_equality(toks, i) {
        ExprRes::Found { e, next } => {
            let p = clamped(toks, i, next);
            if toks[p].kind == TokenKind::Equal {
                match spec_assignment(toks, p + 1) {
                    ExprRes::Found { e: v, next: next2 } => match e {
                        Expr::Variable { name } => ExprRes::Found {
                            e: Expr::Assign { name, value: Box::new(v) },
                            next: next2,
                        },
                        _ => ExprRes::Fail { msg: "Invalid assignment target"@, at: next2 },
                    },
                    fail => fail,
                }
            } else {
                ExprRes::Found { e, next: p }
            }
        },
        fail => fail,
    }
}

pub open spec fn spec_expression(toks: Seq<Token>, i: int) -> ExprRes
    decreases toks.len() - i, 12int,
        when wf_tokens(toks) && 0 <= i < toks.len()
{
    spec_assignment(toks, i)
}

pub open spec fn spec_expression_statement(toks: Seq<Token>, i: int) -> StmtRes {
    match spec_expression(toks, i) {
        ExprRes::Found { e, next } => {
            let p = clamped(toks, i, next);
            if toks[p].kind == TokenKind::Semicolon {
                StmtRes::SFound { s: Stmt::Expression { expression: e }, next: p + 1 }
            } else {
                StmtRes::SFail { msg: "Expected ';' after expression"@, at: p }
            }
        },
        ExprRes::Fail { msg, at } => StmtRes::SFail { msg, at },
    }
}

/// `i` is the position after the `print` keyword.
pub open spec fn spec_print_statement(toks: Seq<Token>, i: int) -> StmtRes {
    match spec_expression(toks, i) {
        ExprRes::Found { e, next } => {
            let p = clamped(toks, i, next);
            if toks[p].kind == TokenKind::Semicolon {
                StmtRes::SFound { s: Stmt::Print { expression: e }, next: p + 1 }
            } else {
                StmtRes::SFail { msg: "Expected ';' after value"@, at: p }
            }
        },
        ExprRes::Fail { msg, at } => StmtRes::SFail { msg, at },
    }
}

pub open spec fn spec_statement(toks: Seq<Token>, i: int) -> StmtRes {
    if toks[i].kind == TokenKind::Print {
        spec_print_statement(toks, i + 1)
    } else {
        spec_expression_statement(toks, i)
    }
}

/// `i` is the position after the `let` keyword. A missing initializer
/// defaults to the null literal.
pub open spec fn spec_let_declaration(toks: Seq<Token>, i: int) -> StmtRes {
    if toks[i].kind != TokenKind::Identifier {
        StmtRes::SFail { msg: "Expected variable name"@, at: i }
    } else {
        let name = toks[i];
        if toks[i + 1].kind == TokenKind::Equal {
            match spec_expression(toks, i + 2) {
                ExprRes::Found { e, next } => {
                    let p = clamped(toks, i + 2, next);
                    if toks[p].kind == TokenKind::Semicolon {
                        StmtRes::SFound { s: Stmt::Let { name, initializer: e }, next: p + 1 }
                    } else {
                        StmtRes::SFail {
                            msg: "Expected ';' after variable declaration"@,
                            at: p,
                        }
                    }
                },
                ExprRes::Fail { msg, at } => StmtRes::SFail { msg, at },
            }
        } else {
            if toks[i + 1].kind == TokenKind::Semicolon {
                StmtRes::SFound {
                    s: Stmt::Let { name, initializer: Expr::Literal { value: LiteralValue::Null } },
                    next: i + 2,
                }
            } else {
                StmtRes::SFail { msg: "Expected ';' after variable declaration"@, at: i + 1 }
            }
        }
    }
}

pub open spec fn spec_declaration(toks: Seq<Token>, i: int) -> StmtRes {
    if toks[i].kind == TokenKind::Let {
        spec_let_declaration(toks, i + 1)
    } else {
        spec_statement(toks, i)
    }
}

/// A token kind at which panic-mode recovery stops discarding: the start of
/// a new statement.
pub open spec fn is_sync_boundary(k: TokenKind) -> bool {
    match k {
        TokenKind::Class | TokenKind::Fn | TokenKind::Let | TokenKind::For | TokenKind::If
            | TokenKind::While | TokenKind::Print | TokenKind::Return => true,
        _ => false,
    }
}

pub open spec fn spec_sync_loop(toks: Seq<Token>, j: int) -> int
    decreases toks.len() - j,
        when wf_tokens(toks) && 1 <= j < toks.len()
{
    if at_end(toks, j) {
        j
    } else if toks[j - 1].kind == TokenKind::Semicolon {
        j
    } else if is_sync_boundary(toks[j].kind) {
        j
    } else {
        spec_sync_loop(toks, j + 1)
    }
}

/// Where the cursor stands after synchronizing from position `i`: tokens
/// are discarded until a `;` was just passed, the next token starts a
/// statement, or input ends.
pub open spec fn spec_sync(toks: Seq<Token>, i: int) -> int {
    if at_end(toks, i) {
        i
    } else {
        spec_sync_loop(toks, i + 1)
    }
}

proof fn lemma_sync_loop_ge(toks: Seq<Token>, j: int)
    requires
        wf_tokens(toks),
        1 <= j < toks.len(),
    ensures
        j <= spec_sync_loop(toks, j) < toks.len(),
    decreases toks.len() - j,
{
    if !at_end(toks, j) && toks[j - 1].kind != TokenKind::Semicolon && !is_sync_boundary(
        toks[j].kind,
    ) {
        lemma_sync_loop_ge(toks, j + 1);
    }
}

/// One round of the statement loop: parse a declaration, keep it, or record
/// its diagnostic and synchronize; stop at end of input.
pub open spec fn spec_parse_from(
    toks: Seq<Token>,
    i: int,
    ss: Seq<Stmt>,
    es: Seq<Seq<char>>,
) -> (Seq<Stmt>, Seq<Seq<char>>)
    decreases toks.len() - i,
        when wf_tokens(toks) && 0 <= i < toks.len()
{
    if at_end(toks, i) {
        (ss, es)
    } else {
        match spec_declaration(toks, i) {
            StmtRes::SFound { s, next } => spec_parse_from(
                toks,
                clamped(toks, i + 1, next),
                ss.push(s),
                es,
            ),
            StmtRes::SFail { msg, at } => spec_parse_from(
                toks,
                clamped(toks, i + 1, spec_sync(toks, clamped(toks, i, at))),
                ss,
                es.push(msg),
            ),
        }
    }
}

/// The collected diagnostics joined by newlines, in the order encountered.
pub open spec fn join_lines(es: Seq<Seq<char>>) -> Seq<char>
    decreases es.len(),
{
    if es.len() == 0 {
        Seq::<char>::empty()
    } else if es.len() == 1 {
        es[0]
    } else {
        es[0] + seq!['\n'] + join_lines(es.drop_first())
    }
}

/// What parsing from position `i` returns: the statements iff no error was
/// recorded, otherwise every diagnostic joined by newlines. Recovered
/// statements are discarded even if later ones succeed.
pub open spec fn spec_parse_result(toks: Seq<Token>, i: int) -> Result<Seq<Stmt>, Seq<char>> {
    let (ss, es) = spec_parse_from(toks, i, Seq::<Stmt>::empty(), Seq::<Seq<char>>::empty());
    if es.len() == 0 {
        Ok(ss)
    } else {
        Err(join_lines(es))
    }
}

/// What parsing a whole token stream returns.
pub open spec fn spec_parse(toks: Seq<Token>) -> Result<Seq<Stmt>, Seq<char>> {
    spec_parse_result(toks, 0)
}

/// The recursive-descent parser: a token buffer and a cursor that never
/// moves backward.
pub struct Parser {
    tokens: Vec<Token>,
    current: usize,
}

/// How an expression-level parsing method relates its result and cursor
/// movement to the grammar function it implements.
pub open spec fn expr_step(pre: Parser, post: Parser, r: Result<Expr, String>, sr: ExprRes) -> bool {
    &&& post.toks() == pre.toks()
    &&& post.wf()
    &&& pre.pos() <= post.pos()
    &&& match sr {
        ExprRes::Found { e, next } => r matches Ok(out) && out == e && post.pos() == next
            && pre.pos() < next,
        ExprRes::Fail { msg, at } => r matches Err(m) && m@ == msg && post.pos() == at,
    }
}

/// The statement-level counterpart of `expr_step`.
pub open spec fn stmt_step(pre: Parser, post: Parser, r: Result<Stmt, String>, sr: StmtRes) -> bool {
    &&& post.toks() == pre.toks()
    &&& post.wf()
    &&& pre.pos() <= post.pos()
    &&& match sr {
        StmtRes::SFound { s, next } => r matches Ok(out) && out == s && post.pos() == next
            && pre.pos() < next,
        StmtRes::SFail { msg, at } => r matches Err(m) && m@ == msg && post.pos() == at,
    }
}

impl Parser {
    /// The token buffer.
    pub closed spec fn toks(&self) -> Seq<Token> {
        self.tokens@
    }

    /// The cursor.
    pub closed spec fn pos(&self) -> int {
        self.current as int
    }

    /// The buffer is a well-formed scanner product and the cursor stands on
    /// a token (at worst on the end-of-input marker).
    pub closed spec fn wf(&self) -> bool {
        &&& wf_tokens(self.tokens@)
        &&& self.current < self.tokens@.len()
    }

    /// Take ownership of a scanned token buffer, cursor at the start.
    pub fn new(tokens: Vec<Token>) -> (r: Self)
        requires
            wf_tokens(tokens@),
        ensures
            r.wf(),
            r.toks() == tokens@,
            r.pos() == 0,
    {
        Parser { tokens, current: 0 }
    }

    fn peek(&self) -> (t: Token)
        requires
            self.wf(),
        ensures
            t == self.toks()[self.pos()],
    {
        self.tokens[self.current].clone()
    }

    fn previous(&self) -> (t: Token)
        requires
            self.wf(),
            self.pos() >= 1,
        ensures
            t == self.toks()[self.pos() - 1],
    {
        self.tokens[self.current - 1].clone()
    }

    fn is_at_end(&self) -> (b: bool)
        requires
            self.wf(),
        ensures
            b == at_end(self.toks(), self.pos()),
    {
        self.tokens[self.current].kind == TokenKind::Eof
    }

    fn advance(&mut self) -> (t: Token)
        requires
            old(self).wf(),
            old(self).pos() >= 1 || !at_end(old(self).toks(), old(self).pos()),
        ensures
            final(self).wf(),
            final(self).toks() == old(self).toks(),
            final(self).pos() == if at_end(old(self).toks(), old(self).pos()) {
                old(self).pos()
            } else {
                old(self).pos() + 1
            },
            t == old(self).toks()[final(self).pos() - 1],
    {
        if !self.is_at_end() {
            let _n: usize = self.tokens.len();
            self.current = self.current + 1;
        }
        self.previous()
    }

    fn match_token(&mut self, kind: TokenKind) -> (b: bool)
        requires
            old(self).wf(),
        ensures
            final(self).wf(),
            final(self).toks() == old(self).toks(),
            if !at_end(old(self).toks(), old(self).pos()) && old(self).toks()[old(
                self,
            ).pos()].kind == kind {
                b && final(self).pos() == old(self).pos() + 1
            } else {
                !b && final(self).pos() == old(self).pos()
            },
    {
        if self.is_at_end() {
            false
        } else {
            if self.tokens[self.current].kind == kind {
                self.advance();
                true
            } else {
                false
            }
        }
    }

    fn match_tokens(&mut self, types: &Vec<TokenKind>) -> (b: bool)
        requires
            old(self).wf(),
        ensures
            final(self).wf(),
            final(self).toks() == old(self).toks(),
            if !at_end(old(self).toks(), old(self).pos()) && types@.contains(
                old(self).toks()[old(self).pos()].kind,
            ) {
                b && final(self).pos() == old(self).pos() + 1
            } else {
                !b && final(self).pos() == old(self).pos()
            },
    {
        let mut j: usize = 0;
        while j < types.len()
            invariant
                self.wf(),
                self.toks() == old(self).toks(),
                self.pos() == old(self).pos(),
                j <= types@.len(),
                forall|k: int|
                    0 <= k < j ==> (#[trigger] types@[k]) != self.toks()[self.pos()].kind || at_end(
                        self.toks(),
                        self.pos(),
                    ),
            decreases types@.len() - j,
        {
            if self.match_token(types[j]) {
                return true;
            }
            j = j + 1;
        }
        false
    }

    fn consume(&mut self, kind: TokenKind, msg: &str) -> (r: Result<Token, String>)
        requires
            old(self).wf(),
            kind != TokenKind::Eof,
        ensures
            final(self).wf(),
            final(self).toks() == old(self).toks(),
            if old(self).toks()[old(self).pos()].kind == kind {
                r matches Ok(t) && t == old(self).toks()[old(self).pos()] && final(self).pos()
                    == old(self).pos() + 1
            } else {
                r matches Err(m) && m@ == msg@ && final(self).pos() == old(self).pos()
            },
    {
        let token = self.peek();
        if token.kind == kind {
            self.advance();
            let token = self.previous();
            Ok(token)
        } else {
            Err(String::from_str(msg))
        }
    }

    fn primary(&mut self) -> (r: Result<Expr, String>)
        requires
            old(self).wf(),
        ensures
            expr_step(*old(self), *final(self), r, spec_primary(old(self).toks(), old(self).pos())),
        decreases old(self).toks().len() - old(self).pos(), 1int,
    {
        let token = self.peek();
        match token.kind {
            TokenKind::LeftParen => {
                self.advance();
                let inner = match self.expression() {
                    Ok(e) => e,
                    Err(m) => {
                        return Err(m);
                    },
                };
                match self.consume(TokenKind::RightParen, "Expected ')'") {
                    Ok(_) => Ok(Expr::Grouping { expression: Box::new(inner) }),
                    Err(m) => Err(m),
                }
            },
            TokenKind::True | TokenKind::False | TokenKind::Null | TokenKind::Number
                | TokenKind::StringLit => {
                self.advance();
                Ok(Expr::Literal { value: literal_from_token(&token) })
            },
            TokenKind::Identifier => {
                self.advance();
                let name = self.previous();
                Ok(Expr::Variable { name })
            },
            _ => Err(String::from_str("Expected expression")),
        }
    }

    fn unary(&mut self) -> (r: Result<Expr, String>)
        requires
            old(self).wf(),
        ensures
            expr_step(*old(self), *final(self), r, spec_unary(old(self).toks(), old(self).pos())),
        decreases old(self).toks().len() - old(self).pos(), 2int,
    {
        let mut kinds: Vec<TokenKind> = Vec::new();
        kinds.push(TokenKind::Bang);
        kinds.push(TokenKind::Minus);
        proof {
            assert(kinds@ =~= seq![TokenKind::Bang, TokenKind::Minus]);
        }
        if self.match_tokens(&kinds) {
            let op = self.previous();
            let right = match self.unary() {
                Ok(e) => e,
                Err(m) => {
                    return Err(m);
                },
            };
            Ok(Expr::Unary { operator: op.kind, right: Box::new(right) })
        } else {
            self.primary()
        }
    }

    #[verifier::loop_isolation(false)]
    #[verifier::rlimit(60)]
    fn factor(&mut self) -> (r: Result<Expr, String>)
        requires
            old(self).wf(),
        ensures
            expr_step(*old(self), *final(self), r, spec_factor(old(self).toks(), old(self).pos())),
        decreases old(self).toks().len() - old(self).pos(), 4int,
    {
        let ghost toks = old(self).toks();
        let ghost i0 = old(self).pos();
        let mut expr = match self.unary() {
            Ok(e) => e,
            Err(m) => {
                return Err(m);
            },
        };
        let mut kinds: Vec<TokenKind> = Vec::new();
        kinds.push(TokenKind::Slash);
        kinds.push(TokenKind::Star);
        proof {
            assert(kinds@ =~= seq![TokenKind::Slash, TokenKind::Star]);
        }
        let mut more = self.match_tokens(&kinds);
        while more
            invariant
                self.wf(),
                self.toks() == toks,
                i0 < self.pos(),
                more ==> toks[self.pos() - 1].kind == TokenKind::Slash || toks[self.pos()
                    - 1].kind == TokenKind::Star,
                more ==> spec_factor_rest(toks, self.pos() - 1, expr) == spec_factor(toks, i0),
                !more ==> spec_factor_rest(toks, self.pos(), expr) == spec_factor(toks, i0),
                !more ==> toks[self.pos()].kind != TokenKind::Slash && toks[self.pos()].kind
                    != TokenKind::Star,
            decreases toks.len() - self.pos(),
        {
            let op = self.previous();
            let right = match self.unary() {
                Ok(e) => e,
                Err(m) => {
                    return Err(m);
                },
            };
            expr = Expr::Binary { left: Box::new(expr), operator: op.kind, right: Box::new(right) };
            more = self.match_tokens(&kinds);
        }
        Ok(expr)
    }

    #[verifier::rlimit(100)]
    #[verifier::spinoff_prover]
    fn term_rest(&mut self, acc: Expr) -> (r: Result<Expr, String>)
        requires
            old(self).wf(),
        ensures
            final(self).toks() == old(self).toks(),
            final(self).wf(),
            old(self).pos() <= final(self).pos(),
            match spec_term_rest(old(self).toks(), old(self).pos(), acc) {
                ExprRes::Found { e, next } => r matches Ok(out) && out == e && final(self).pos()
                    == next,
                ExprRes::Fail { msg, at } => r matches Err(m) && m@ == msg && final(self).pos()
                    == at,
            },
        decreases old(self).toks().len() - old(self).pos(), 5int,
    {
        let mut kinds: Vec<TokenKind> = Vec::new();
        kinds.push(TokenKind::Minus);
        kinds.push(TokenKind::Plus);
        proof {
            assert(kinds@ =~= seq![TokenKind::Minus, TokenKind::Plus]);
        }
        if self.match_tokens(&kinds) {
            let op = self.previous();
            let right = match self.factor() {
                Ok(e) => e,
                Err(m) => {
                    return Err(m);
                },
            };
            let joined = Expr::Binary {
                left: Box::new(acc),
                operator: op.kind,
                right: Box::new(right),
            };
            self.term_rest(joined)
        } else {
            Ok(acc)
        }
    }

    #[verifier::rlimit(100)]
    #[verifier::spinoff_prover]
    fn term(&mut self) -> (r: Result<Expr, String>)
        requires
            old(self).wf(),
        ensures
            expr_step(
                *old(self),
                *final(self),
                r,
                spec_term(old(self).toks(), old(self).pos()),
            ),
        decreases old(self).toks().len() - old(self).pos(), 6int,
    {
        let first = match self.factor() {
            Ok(e) => e,
            Err(m) => {
                return Err(m);
            },
        };
        self.term_rest(first)
    }

    #[verifier::rlimit(100)]
    #[verifier::spinoff_prover]
    fn comparison_rest(&mut self, acc: Expr) -> (r: Result<Expr, String>)
        requires
            old(self).wf(),
        ensures
            final(self).toks() == old(self).toks(),
            final(self).wf(),
            old(self).pos() <= final(self).pos(),
            match spec_comparison_rest(old(self).toks(), old(self).pos(), acc) {
                ExprRes::Found { e, next } => r matches Ok(out) && out == e && final(self).pos()
                    == next,
                ExprRes::Fail { msg, at } => r matches Err(m) && m@ == msg && final(self).pos()
                    == at,
            },
        decreases old(self).toks().len() - old(self).pos(), 7int,
    {
        let mut kinds: Vec<TokenKind> = Vec::new();
        kinds.push(TokenKind::Greater);
        kinds.push(TokenKind::GreaterEqual);
        kinds.push(TokenKind::Less);
        kinds.push(TokenKind::LessEqual);
        proof {
            assert(kinds@ =~= seq![TokenKind::Greater, TokenKind::GreaterEqual, TokenKind::Less, TokenKind::LessEqual]);
        }
        if self.match_tokens(&kinds) {
            let op = self.previous();
            let right = match self.term() {
                Ok(e) => e,
                Err(m) => {
                    return Err(m);
                },
            };
            let joined = Expr::Binary {
                left: Box::new(acc),
                operator: op.kind,
                right: Box::new(right),
            };
            self.comparison_rest(joined)
        } else {
            Ok(acc)
        }
    }

    #[verifier::rlimit(100)]
    #[verifier::spinoff_prover]
    fn comparison(&mut self) -> (r: Result<Expr, String>)
        requires
            old(self).wf(),
        ensures
            expr_step(
                *old(self),
                *final(self),
                r,
                spec_comparison(old(self).toks(), old(self).pos()),
            ),
        decreases old(self).toks().len() - old(self).pos(), 8int,
    {
        let first = match self.term() {
            Ok(e) => e,
            Err(m) => {
                return Err(m);
            },
        };
        self.comparison_rest(first)
    }

    #[verifier::rlimit(100)]
    #[verifier::spinoff_prover]
    fn equality_rest(&mut self, acc: Expr) -> (r: Result<Expr, String>)
        requires
            old(self).wf(),
        ensures
            final(self).toks() == old(self).toks(),
            final(self).wf(),
            old(self).pos() <= final(self).pos(),
            match spec_equality_rest(old(self).toks(), old(self).pos(), acc) {
                ExprRes::Found { e, next } => r matches Ok(out) && out == e && final(self).pos()
                    == next,
                ExprRes::Fail { msg, at } => r matches Err(m) && m@ == msg && final(self).pos()
                    == at,
            },
        decreases old(self).toks().len() - old(self).pos(), 9int,
    {
        let mut kinds: Vec<TokenKind> = Vec::new();
        kinds.push(TokenKind::BangEqual);
        kinds.push(TokenKind::EqualEqual);
        proof {
            assert(kinds@ =~= seq![TokenKind::BangEqual, TokenKind::EqualEqual]);
        }
        if self.match_tokens(&kinds) {
            let op = self.previous();
            let right = match self.comparison() {
                Ok(e) => e,
                Err(m) => {
                    return Err(m);
                },
            };
            let joined = Expr::Binary {
                left: Box::new(acc),
                operator: op.kind,
                right: Box::new(right),
            };
            self.equality_rest(joined)
        } else {
            Ok(acc)
        }
    }

    #[verifier::rlimit(100)]
    #[verifier::spinoff_prover]
    fn equality(&mut self) -> (r: Result<Expr, String>)
        requires
            old(self).wf(),
        ensures
            expr_step(
                *old(self),
                *final(self),
                r,
                spec_equality(old(self).toks(), old(self).pos()),
            ),
        decreases old(self).toks().len() - old(self).pos(), 10int,
    {
        let first = match self.comparison() {
            Ok(e) => e,
            Err(m) => {
                return Err(m);
            },
        };
        self.equality_rest(first)
    }

    #[verifier::rlimit(100)]
    #[verifier::spinoff_prover]
    fn assignment(&mut self) -> (r: Result<Expr, String>)
        requires
            old(self).wf(),
        ensures
            expr_step(
                *old(self),
                *final(self),
                r,
                spec_assignment(old(self).toks(), old(self).pos()),
            ),
        decreases old(self).toks().len() - old(self).pos(), 11int,
    {
        let expr = match self.equality() {
            Ok(e) => e,
            Err(m) => {
                return Err(m);
            },
        };
        if self.match_token(TokenKind::Equal) {
            let value = match self.assignment() {
                Ok(e) => e,
                Err(m) => {
                    return Err(m);
                },
            };
            match expr {
                Expr::Variable { name } => Ok(Expr::Assign { name, value: Box::new(value) }),
                _ => Err(String::from_str("Invalid assignment target")),
            }
        } else {
            Ok(expr)
        }
    }

    /// Parse one expression, leaving the cursor after it.
    #[verifier::rlimit(100)]
    #[verifier::spinoff_prover]
    pub fn expression(&mut self) -> (r: Result<Expr, String>)
        requires
            old(self).wf(),
        ensures
            expr_step(
                *old(self),
                *final(self),
                r,
                spec_expression(old(self).toks(), old(self).pos()),
            ),
        decreases old(self).toks().len() - old(self).pos(), 12int,
    {
        self.assignment()
    }

    fn expression_statement(&mut self) -> (r: Result<Stmt, String>)
        requires
            old(self).wf(),
        ensures
            stmt_step(
                *old(self),
                *final(self),
                r,
                spec_expression_statement(old(self).toks(), old(self).pos()),
            ),
    {
        let expr = match self.expression() {
            Ok(e) => e,
            Err(m) => {
                return Err(m);
            },
        };
        match self.consume(TokenKind::Semicolon, "Expected ';' after expression") {
            Ok(_) => Ok(Stmt::Expression { expression: expr }),
            Err(m) => Err(m),
        }
    }

    fn print_statement(&mut self) -> (r: Result<Stmt, String>)
        requires
            old(self).wf(),
        ensures
            stmt_step(
                *old(self),
                *final(self),
                r,
                spec_print_statement(old(self).toks(), old(self).pos()),
            ),
    {
        let value = match self.expression() {
            Ok(e) => e,
            Err(m) => {
                return Err(m);
            },
        };
        match self.consume(TokenKind::Semicolon, "Expected ';' after value") {
            Ok(_) => Ok(Stmt::Print { expression: value }),
            Err(m) => Err(m),
        }
    }

    fn statement(&mut self) -> (r: Result<Stmt, String>)
        requires
            old(self).wf(),
        ensures
            stmt_step(
                *old(self),
                *final(self),
                r,
                spec_statement(old(self).toks(), old(self).pos()),
            ),
    {
        if self.match_token(TokenKind::Print) {
            self.print_statement()
        } else {
            self.expression_statement()
        }
    }

    fn let_declaration(&mut self) -> (r: Result<Stmt, String>)
        requires
            old(self).wf(),
        ensures
            stmt_step(
                *old(self),
                *final(self),
                r,
                spec_let_declaration(old(self).toks(), old(self).pos()),
            ),
    {
        let token = match self.consume(TokenKind::Identifier, "Expected variable name") {
            Ok(t) => t,
            Err(m) => {
                return Err(m);
            },
        };
        let initializer: Expr;
        if self.match_token(TokenKind::Equal) {
            initializer = match self.expression() {
                Ok(e) => e,
                Err(m) => {
                    return Err(m);
                },
            };
        } else {
            initializer = Expr::Literal { value: LiteralValue::Null };
        }
        match self.consume(TokenKind::Semicolon, "Expected ';' after variable declaration") {
            Ok(_) => Ok(Stmt::Let { name: token, initializer }),
            Err(m) => Err(m),
        }
    }

    fn declaration(&mut self) -> (r: Result<Stmt, String>)
        requires
            old(self).wf(),
        ensures
            stmt_step(
                *old(self),
                *final(self),
                r,
                spec_declaration(old(self).toks(), old(self).pos()),
            ),
    {
        if self.match_token(TokenKind::Let) {
            match self.let_declaration() {
                Ok(stmt) => Ok(stmt),
                Err(msg) => Err(msg),
            }
        } else {
            self.statement()
        }
    }

    #[verifier::loop_isolation(false)]
    fn synchronize(&mut self)
        requires
            old(self).wf(),
            old(self).pos() >= 1 || !at_end(old(self).toks(), old(self).pos()),
        ensures
            final(self).wf(),
            final(self).toks() == old(self).toks(),
            final(self).pos() == spec_sync(old(self).toks(), old(self).pos()),
            old(self).pos() <= final(self).pos(),
    {
        let ghost toks = old(self).toks();
        let ghost i0 = old(self).pos();
        self.advance();
        proof {
            if !at_end(toks, i0) {
                lemma_sync_loop_ge(toks, i0 + 1);
            }
        }
        while !self.is_at_end()
            invariant
                self.wf(),
                self.toks() == toks,
                1 <= self.pos(),
                i0 <= self.pos(),
                spec_sync_loop(toks, self.pos()) == spec_sync(toks, i0),
            decreases toks.len() - self.pos(),
        {
            if self.previous().kind == TokenKind::Semicolon {
                return;
            }
            let next_kind = self.peek().kind;
            match next_kind {
                TokenKind::Class | TokenKind::Fn | TokenKind::Let | TokenKind::For | TokenKind::If
                    | TokenKind::While | TokenKind::Print | TokenKind::Return => {
                    return;
                },
                _ => {},
            }
            self.advance();
            proof {
                lemma_sync_loop_ge(toks, self.pos());
            }
        }
    }

    /// Parse the whole buffer: all statements iff no statement was
    /// malformed, otherwise one diagnostic per malformed statement, joined
    /// by newlines, in the order encountered. Never panics on malformed
    /// input; every error path advances the cursor.
    #[verifier::loop_isolation(false)]
    pub fn parse(&mut self) -> (r: Result<Vec<Stmt>, String>)
        requires
            old(self).wf(),
        ensures
            final(self).wf(),
            final(self).toks() == old(self).toks(),
            match spec_parse_result(old(self).toks(), old(self).pos()) {
                Ok(ss) => r matches Ok(v) && v@ == ss,
                Err(m) => r matches Err(s) && s@ == m,
            },
    {
        let ghost toks = old(self).toks();
        let ghost i0 = old(self).pos();
        let mut stmts: Vec<Stmt> = Vec::new();
        let mut errs: Vec<String> = Vec::new();
        proof {
            assert(stmts@ =~= Seq::<Stmt>::empty());
            assert(errs.deep_view() =~= Seq::<Seq<char>>::empty());
        }
        while !self.is_at_end()
            invariant
                self.wf(),
                self.toks() == toks,
                i0 <= self.pos(),
                spec_parse_from(toks, self.pos(), stmts@, errs.deep_view()) == spec_parse_from(
                    toks,
                    i0,
                    Seq::<Stmt>::empty(),
                    Seq::<Seq<char>>::empty(),
                ),
            decreases toks.len() - self.pos(),
        {
            let ghost pos_here = self.pos();
            let ghost stmts_here = stmts@;
            let ghost errs_here = errs.deep_view();
            let stmt = self.declaration();
            match stmt {
                Ok(s) => {
                    stmts.push(s);
                    proof {
                        assert(stmts@ =~= stmts_here.push(s));
                    }
                },
                Err(msg) => {
                    let ghost at = self.pos();
                    errs.push(msg);
                    proof {
                        assert(errs.deep_view() =~= errs_here.push(msg@));
                        assert(clamped(toks, pos_here, at) == at);
                        if at_end(toks, at) {
                            assert(at != pos_here);
                        } else {
                            lemma_sync_loop_ge(toks, at + 1);
                        }
                    }
                    self.synchronize();
                },
            }
        }
        if errs.len() == 0 {
            Ok(stmts)
        } else {
            let mut joined = String::new();
            let mut i: usize = 0;
            proof {
                assert(errs.deep_view().take(0) =~= Seq::<Seq<char>>::empty());
            }
            while i < errs.len()
                invariant
                    i <= errs@.len(),
                    joined@ == join_lines(errs.deep_view().take(i as int)),
                decreases errs@.len() - i,
            {
                if i > 0 {
                    joined.append("\n");
                }
                joined.append(errs[i].as_str());
                proof {
                    let es = errs.deep_view();
                    assert(es.take(i + 1) =~= es.take(i as int).push(es[i as int]));
                    lemma_join_lines_snoc(es.take(i as int), es[i as int]);
                    reveal_strlit("\n");
                    assert(joined@ =~= join_lines(es.take(i + 1)));
                }
                i = i + 1;
            }
            proof {
                assert(errs.deep_view().take(errs.deep_view().len() as int) =~= errs.deep_view());
            }
            Err(joined)
        }
    }
}

proof fn lemma_join_lines_snoc(es: Seq<Seq<char>>, m: Seq<char>)
    ensures
        join_lines(es.push(m)) == if es.len() == 0 {
            m
        } else {
            join_lines(es) + seq!['\n'] + m
        },
    decreases es.len(),
{
    let whole = es.push(m);
    if es.len() == 0 {
        assert(whole.len() == 1);
        assert(whole[0] == m);
    } else {
        assert(whole[0] == es[0]);
        assert(whole.drop_first() =~= es.drop_first().push(m));
        lemma_join_lines_snoc(es.drop_first(), m);
        if es.len() == 1 {
            assert(es.drop_first().len() == 0);
            assert(join_lines(whole) == es[0] + seq!['\n'] + m);
        } else {
            assert(join_lines(es) == es[0] + seq!['\n'] + join_lines(es.drop_first()));
            assert(join_lines(whole) =~= join_lines(es) + seq!['\n'] + m);
        }
    }
}

} // verus!

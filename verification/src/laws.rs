//! Laws the library states of itself, proved from the grammar and
//! evaluation specifications.

use vstd::prelude::*;

use crate::ast::{Expr, Stmt};
use crate::token::{Token, TokenKind, LiteralValue, wf_tokens, lit_of_token};
use crate::value::Val;
use crate::parser::{
    spec_parse, spec_parse_from, spec_declaration, spec_expression, spec_equality, spec_comparison,
    spec_term, spec_term_rest, spec_factor, spec_factor_rest, spec_primary, ExprRes, StmtRes,
};
use crate::interpreter::{spec_eval, spec_run, EvalOut, RunOut, RtErr};

verus! {

/// The literal expression a number token parses to.
pub open spec fn lit(t: Token) -> Expr {
    Expr::Literal { value: lit_of_token(t) }
}

/// A number token, carrying a numeric literal.
pub open spec fn num_tok(t: Token) -> bool {
    t.kind == TokenKind::Number && t.literal matches Some(LiteralValue::Number(_))
}

/// Precedence: a multiplicative operator binds tighter than an additive
/// one. For any number tokens `a`, `b`, `c`, the program `a + b * c ;`
/// parses to the single statement `(+ a (* b c))`.
pub proof fn lemma_precedence(a: Token, plus: Token, b: Token, star: Token, c: Token, semi: Token, eof: Token)
    requires
        num_tok(a),
        num_tok(b),
        num_tok(c),
        plus.kind == TokenKind::Plus,
        star.kind == TokenKind::Star,
        semi.kind == TokenKind::Semicolon,
        eof.kind == TokenKind::Eof,
    ensures
        spec_parse(seq![a, plus, b, star, c, semi, eof]) == Ok::<Seq<Stmt>, Seq<char>>(
            seq![
                Stmt::Expression {
                    expression: Expr::Binary {
                        left: Box::new(lit(a)),
                        operator: TokenKind::Plus,
                        right: Box::new(
                            Expr::Binary {
                                left: Box::new(lit(b)),
                                operator: TokenKind::Star,
                                right: Box::new(lit(c)),
                            },
                        ),
                    },
                },
            ],
        ),
{
    let toks = seq![a, plus, b, star, c, semi, eof];
    assert(wf_tokens(toks));
    assert(spec_primary(toks, 0) == ExprRes::Found { e: lit(a), next: 1 });
    assert(spec_factor(toks, 0) == ExprRes::Found { e: lit(a), next: 1 });
    assert(spec_primary(toks, 2) == ExprRes::Found { e: lit(b), next: 3 });
    assert(spec_primary(toks, 4) == ExprRes::Found { e: lit(c), next: 5 });
    let prod = Expr::Binary {
        left: Box::new(lit(b)),
        operator: TokenKind::Star,
        right: Box::new(lit(c)),
    };
    assert(spec_factor_rest(toks, 5, prod) == ExprRes::Found { e: prod, next: 5 });
    assert(spec_factor_rest(toks, 3, lit(b)) == ExprRes::Found { e: prod, next: 5 });
    assert(spec_factor(toks, 2) == ExprRes::Found { e: prod, next: 5 });
    let sum = Expr::Binary {
        left: Box::new(lit(a)),
        operator: TokenKind::Plus,
        right: Box::new(prod),
    };
    assert(spec_term_rest(toks, 5, sum) == ExprRes::Found { e: sum, next: 5 });
    assert(spec_term_rest(toks, 1, lit(a)) == ExprRes::Found { e: sum, next: 5 });
    assert(spec_term(toks, 0) == ExprRes::Found { e: sum, next: 5 });
    assert(spec_comparison(toks, 0) == ExprRes::Found { e: sum, next: 5 });
    assert(spec_equality(toks, 0) == ExprRes::Found { e: sum, next: 5 });
    assert(spec_expression(toks, 0) == ExprRes::Found { e: sum, next: 5 });
    let stmt = Stmt::Expression { expression: sum };
    assert(spec_declaration(toks, 0) == StmtRes::SFound { s: stmt, next: 6 });
    assert(spec_parse_from(toks, 6, seq![stmt], Seq::<Seq<char>>::empty()) == (
        seq![stmt],
        Seq::<Seq<char>>::empty(),
    ));
    assert(spec_parse_from(toks, 0, Seq::<Stmt>::empty(), Seq::<Seq<char>>::empty()) == (
        seq![stmt],
        Seq::<Seq<char>>::empty(),
    ));
}

/// Left-associativity: for any number tokens `a`, `b`, `c`, the program
/// `a - b - c ;` parses to the single statement `(- (- a b) c)`.
pub proof fn lemma_left_associativity(a: Token, minus1: Token, b: Token, minus2: Token, c: Token, semi: Token, eof: Token)
    requires
        num_tok(a),
        num_tok(b),
        num_tok(c),
        minus1.kind == TokenKind::Minus,
        minus2.kind == TokenKind::Minus,
        semi.kind == TokenKind::Semicolon,
        eof.kind == TokenKind::Eof,
    ensures
        spec_parse(seq![a, minus1, b, minus2, c, semi, eof]) == Ok::<Seq<Stmt>, Seq<char>>(
            seq![
                Stmt::Expression {
                    expression: Expr::Binary {
                        left: Box::new(
                            Expr::Binary {
                                left: Box::new(lit(a)),
                                operator: TokenKind::Minus,
                                right: Box::new(lit(b)),
                            },
                        ),
                        operator: TokenKind::Minus,
                        right: Box::new(lit(c)),
                    },
                },
            ],
        ),
{
    let toks = seq![a, minus1, b, minus2, c, semi, eof];
    assert(wf_tokens(toks));
    assert(spec_primary(toks, 0) == ExprRes::Found { e: lit(a), next: 1 });
    assert(spec_primary(toks, 2) == ExprRes::Found { e: lit(b), next: 3 });
    assert(spec_primary(toks, 4) == ExprRes::Found { e: lit(c), next: 5 });
    assert(spec_factor(toks, 0) == ExprRes::Found { e: lit(a), next: 1 });
    assert(spec_factor(toks, 2) == ExprRes::Found { e: lit(b), next: 3 });
    assert(spec_factor(toks, 4) == ExprRes::Found { e: lit(c), next: 5 });
    let first = Expr::Binary {
        left: Box::new(lit(a)),
        operator: TokenKind::Minus,
        right: Box::new(lit(b)),
    };
    let second = Expr::Binary {
        left: Box::new(first),
        operator: TokenKind::Minus,
        right: Box::new(lit(c)),
    };
    assert(spec_term_rest(toks, 5, second) == ExprRes::Found { e: second, next: 5 });
    assert(spec_term_rest(toks, 3, first) == ExprRes::Found { e: second, next: 5 });
    assert(spec_term_rest(toks, 1, lit(a)) == ExprRes::Found { e: second, next: 5 });
    assert(spec_term(toks, 0) == ExprRes::Found { e: second, next: 5 });
    assert(spec_expression(toks, 0) == ExprRes::Found { e: second, next: 5 });
    let stmt = Stmt::Expression { expression: second };
    assert(spec_declaration(toks, 0) == StmtRes::SFound { s: stmt, next: 6 });
    assert(spec_parse_from(toks, 6, seq![stmt], Seq::<Seq<char>>::empty()) == (
        seq![stmt],
        Seq::<Seq<char>>::empty(),
    ));
    assert(spec_parse_from(toks, 0, Seq::<Stmt>::empty(), Seq::<Seq<char>>::empty()) == (
        seq![stmt],
        Seq::<Seq<char>>::empty(),
    ));
}

/// Parentheses group: for any number tokens `a`, `b`, the program
/// `( a + b ) ;` parses to the single statement `(group (+ a b))`.
pub proof fn lemma_grouping(lp: Token, a: Token, plus: Token, b: Token, rp: Token, semi: Token, eof: Token)
    requires
        num_tok(a),
        num_tok(b),
        lp.kind == TokenKind::LeftParen,
        rp.kind == TokenKind::RightParen,
        plus.kind == TokenKind::Plus,
        semi.kind == TokenKind::Semicolon,
        eof.kind == TokenKind::Eof,
    ensures
        spec_parse(seq![lp, a, plus, b, rp, semi, eof]) == Ok::<Seq<Stmt>, Seq<char>>(
            seq![
                Stmt::Expression {
                    expression: Expr::Grouping {
                        expression: Box::new(
                            Expr::Binary {
                                left: Box::new(lit(a)),
                                operator: TokenKind::Plus,
                                right: Box::new(lit(b)),
                            },
                        ),
                    },
                },
            ],
        ),
{
    let toks = seq![lp, a, plus, b, rp, semi, eof];
    assert(wf_tokens(toks));
    assert(spec_primary(toks, 1) == ExprRes::Found { e: lit(a), next: 2 });
    assert(spec_primary(toks, 3) == ExprRes::Found { e: lit(b), next: 4 });
    assert(spec_factor(toks, 1) == ExprRes::Found { e: lit(a), next: 2 });
    assert(spec_factor(toks, 3) == ExprRes::Found { e: lit(b), next: 4 });
    let sum = Expr::Binary {
        left: Box::new(lit(a)),
        operator: TokenKind::Plus,
        right: Box::new(lit(b)),
    };
    assert(spec_term_rest(toks, 4, sum) == ExprRes::Found { e: sum, next: 4 });
    assert(spec_term_rest(toks, 2, lit(a)) == ExprRes::Found { e: sum, next: 4 });
    assert(spec_term(toks, 1) == ExprRes::Found { e: sum, next: 4 });
    assert(spec_expression(toks, 1) == ExprRes::Found { e: sum, next: 4 });
    let grouped = Expr::Grouping { expression: Box::new(sum) };
    assert(spec_primary(toks, 0) == ExprRes::Found { e: grouped, next: 5 });
    assert(spec_term(toks, 0) == ExprRes::Found { e: grouped, next: 5 });
    assert(spec_expression(toks, 0) == ExprRes::Found { e: grouped, next: 5 });
    let stmt = Stmt::Expression { expression: grouped };
    assert(spec_declaration(toks, 0) == StmtRes::SFound { s: stmt, next: 6 });
    assert(spec_parse_from(toks, 6, seq![stmt], Seq::<Seq<char>>::empty()) == (
        seq![stmt],
        Seq::<Seq<char>>::empty(),
    ));
    assert(spec_parse_from(toks, 0, Seq::<Stmt>::empty(), Seq::<Seq<char>>::empty()) == (
        seq![stmt],
        Seq::<Seq<char>>::empty(),
    ));
}

/// Reading a variable that was never defined fails with the
/// undefined-variable fault, and the remaining statements do not execute:
/// the environment and output are exactly as they stood.
pub proof fn lemma_undefined_variable_read(
    name: Token,
    ss: Seq<Stmt>,
    env: Map<Seq<char>, Val>,
    out: Seq<Seq<char>>,
)
    requires
        ss.len() >= 1,
        ss[0] == (Stmt::Expression { expression: Expr::Variable { name } }),
        !env.contains_key(name.lexeme@),
    ensures
        spec_run(ss, env, out) == (RunOut::RFail {
            err: RtErr::UndefinedVar(name.lexeme@),
            env,
            out,
        }),
{
}

/// Assigning to a variable that was never defined fails with the
/// undefined-variable fault once the right-hand side has evaluated, and the
/// remaining statements do not execute.
pub proof fn lemma_undefined_variable_assign(
    name: Token,
    value: Expr,
    ss: Seq<Stmt>,
    env: Map<Seq<char>, Val>,
    env1: Map<Seq<char>, Val>,
    v: Val,
    out: Seq<Seq<char>>,
)
    requires
        ss.len() >= 1,
        ss[0] == (Stmt::Expression {
            expression: Expr::Assign { name, value: Box::new(value) },
        }),
        spec_eval(value, env) == (EvalOut::EvOk { v, env: env1 }),
        !env1.contains_key(name.lexeme@),
    ensures
        spec_run(ss, env, out) == (RunOut::RFail {
            err: RtErr::UndefinedVar(name.lexeme@),
            env: env1,
            out,
        }),
{
}

/// Division by zero is a runtime fault, never a silent value: whenever both
/// operands of `/` evaluate to numbers and the divisor is zero, execution
/// stops there with the division-by-zero fault.
pub proof fn lemma_division_by_zero(
    left: Expr,
    right: Expr,
    ss: Seq<Stmt>,
    env: Map<Seq<char>, Val>,
    env1: Map<Seq<char>, Val>,
    env2: Map<Seq<char>, Val>,
    x: i64,
    out: Seq<Seq<char>>,
)
    requires
        ss.len() >= 1,
        ss[0] == (Stmt::Expression {
            expression: Expr::Binary {
                left: Box::new(left),
                operator: TokenKind::Slash,
                right: Box::new(right),
            },
        }),
        spec_eval(left, env) == (EvalOut::EvOk { v: Val::VNum(x), env: env1 }),
        spec_eval(right, env1) == (EvalOut::EvOk { v: Val::VNum(0), env: env2 }),
    ensures
        spec_run(ss, env, out) == (RunOut::RFail { err: RtErr::DivByZero, env: env2, out }),
{
}

} // verus!

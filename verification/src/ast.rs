//! The abstract syntax tree produced by the parser and consumed by the
//! interpreter, with its canonical fully-parenthesized prefix rendering.

use vstd::prelude::*;

use crate::token::{Token, TokenKind, LiteralValue};
use crate::value::{lit_view, val_text, value_to_string};

verus! {

/// An expression node. Each node exclusively owns its children.
#[derive(Debug)]
#[allow(inconsistent_fields)]
pub enum Expr {
    Literal { value: LiteralValue },
    /// A parenthesized sub-expression: semantically transparent but
    /// preserved for display.
    Grouping { expression: Box<Expr> },
    Unary { operator: TokenKind, right: Box<Expr> },
    Binary { left: Box<Expr>, operator: TokenKind, right: Box<Expr> },
    Variable { name: Token },
    Assign { name: Token, value: Box<Expr> },
}

/// A statement node. Program order is significant and preserved.
#[derive(Debug)]
pub enum Stmt {
    Expression { expression: Expr },
    Print { expression: Expr },
    Let { name: Token, initializer: Expr },
}

/// The source spelling of an operator token kind.
pub open spec fn op_text(k: TokenKind) -> Seq<char> {
    match k {
        TokenKind::Plus => "+"@,
        TokenKind::Minus => "-"@,
        TokenKind::Star => "*"@,
        TokenKind::Slash => "/"@,
        TokenKind::EqualEqual => "=="@,
        TokenKind::BangEqual => "!="@,
        TokenKind::Less => "<"@,
        TokenKind::LessEqual => "<="@,
        TokenKind::Greater => ">"@,
        TokenKind::GreaterEqual => ">="@,
        TokenKind::Bang => "!"@,
        TokenKind::Equal => "="@,
        _ => "?"@,
    }
}

/// The canonical prefix rendering of an expression: a binary node renders
/// as `(<op> <left> <right>)`, a grouping as `(group <inner>)`.
pub open spec fn expr_text(e: Expr) -> Seq<char>
    decreases e,
{
    match e {
        Expr::Literal { value } => val_text(lit_view(value)),
        Expr::Grouping { expression } => "(group "@ + expr_text(*expression) + ")"@,
        Expr::Unary { operator, right } => "("@ + op_text(operator) + " "@ + expr_text(*right)
            + ")"@,
        Expr::Binary { left, operator, right } => "("@ + op_text(operator) + " "@ + expr_text(
            *left,
        ) + " "@ + expr_text(*right) + ")"@,
        Expr::Variable { name } => name.lexeme@,
        Expr::Assign { name, value } => "(= "@ + name.lexeme@ + " "@ + expr_text(*value) + ")"@,
    }
}

/// The canonical rendering of a statement.
pub open spec fn stmt_text(s: Stmt) -> Seq<char> {
    match s {
        Stmt::Expression { expression } => expr_text(expression),
        Stmt::Print { expression } => "(print "@ + expr_text(expression) + ")"@,
        Stmt::Let { name, initializer } => "(let "@ + name.lexeme@ + " "@ + expr_text(initializer)
            + ")"@,
    }
}

/// The rendering of a whole program: statement renderings joined by newlines.
pub open spec fn program_text(ss: Seq<Stmt>) -> Seq<char>
    decreases ss.len(),
{
    if ss.len() == 0 {
        Seq::<char>::empty()
    } else if ss.len() == 1 {
        stmt_text(ss[0])
    } else {
        stmt_text(ss[0]) + seq!['\n'] + program_text(ss.drop_first())
    }
}

fn op_str(k: TokenKind) -> (r: &'static str)
    ensures
        r@ == op_text(k),
{
    match k {
        TokenKind::Plus => "+",
        TokenKind::Minus => "-",
        TokenKind::Star => "*",
        TokenKind::Slash => "/",
        TokenKind::EqualEqual => "==",
        TokenKind::BangEqual => "!=",
        TokenKind::Less => "<",
        TokenKind::LessEqual => "<=",
        TokenKind::Greater => ">",
        TokenKind::GreaterEqual => ">=",
        TokenKind::Bang => "!",
        TokenKind::Equal => "=",
        _ => "?",
    }
}

impl Expr {
    /// Render this expression in the canonical prefix form.
    pub fn to_display(&self) -> (r: String)
        ensures
            r@ == expr_text(*self),
        decreases *self,
    {
        match self {
            Expr::Literal { value } => value_to_string(value),
            Expr::Grouping { expression } => {
                let mut s = String::from_str("(group ");
                let inner = (&**expression).to_display();
                s.append(inner.as_str());
                s.append(")");
                s
            },
            Expr::Unary { operator, right } => {
                let mut s = String::from_str("(");
                s.append(op_str(*operator));
                s.append(" ");
                let r_text = (&**right).to_display();
                s.append(r_text.as_str());
                s.append(")");
                s
            },
            Expr::Binary { left, operator, right } => {
                let mut s = String::from_str("(");
                s.append(op_str(*operator));
                s.append(" ");
                let l_text = (&**left).to_display();
                s.append(l_text.as_str());
                s.append(" ");
                let r_text = (&**right).to_display();
                s.append(r_text.as_str());
                s.append(")");
                s
            },
            Expr::Variable { name } => name.lexeme.clone(),
            Expr::Assign { name, value } => {
                let mut s = String::from_str("(= ");
                s.append(name.lexeme.as_str());
                s.append(" ");
                let v_text = (&**value).to_display();
                s.append(v_text.as_str());
                s.append(")");
                s
            },
        }
    }
}

impl Stmt {
    /// Render this statement in the canonical prefix form.
    pub fn to_display(&self) -> (r: String)
        ensures
            r@ == stmt_text(*self),
    {
        match self {
            Stmt::Expression { expression } => expression.to_display(),
            Stmt::Print { expression } => {
                let mut s = String::from_str("(print ");
                let e_text = expression.to_display();
                s.append(e_text.as_str());
                s.append(")");
                s
            },
            Stmt::Let { name, initializer } => {
                let mut s = String::from_str("(let ");
                s.append(name.lexeme.as_str());
                s.append(" ");
                let e_text = initializer.to_display();
                s.append(e_text.as_str());
                s.append(")");
                s
            },
        }
    }
}

proof fn lemma_program_text_snoc(ss: Seq<Stmt>, s: Stmt)
    ensures
        program_text(ss.push(s)) == if ss.len() == 0 {
            stmt_text(s)
        } else {
            program_text(ss) + seq!['\n'] + stmt_text(s)
        },
    decreases ss.len(),
{
    let whole = ss.push(s);
    if ss.len() == 0 {
        assert(whole.len() == 1);
        assert(whole[0] == s);
    } else {
        assert(whole[0] == ss[0]);
        assert(whole.drop_first() =~= ss.drop_first().push(s));
        lemma_program_text_snoc(ss.drop_first(), s);
        if ss.len() == 1 {
            assert(ss.drop_first().len() == 0);
            assert(program_text(whole) == stmt_text(ss[0]) + seq!['\n'] + stmt_text(s));
        } else {
            assert(program_text(ss) == stmt_text(ss[0]) + seq!['\n'] + program_text(
                ss.drop_first(),
            ));
            assert(program_text(whole) =~= program_text(ss) + seq!['\n'] + stmt_text(s));
        }
    }
}

/// Render a whole program, one statement per line.
pub fn program_to_string(stmts: &Vec<Stmt>) -> (r: String)
    ensures
        r@ == program_text(stmts@),
{
    let mut s = String::new();
    let mut i: usize = 0;
    while i < stmts.len()
        invariant
            i <= stmts.len(),
            s@ == program_text(stmts@.take(i as int)),
        decreases stmts.len() - i,
    {
        if i > 0 {
            s.append("\n");
        }
        let line = stmts[i].to_display();
        s.append(line.as_str());
        proof {
            let prefix = stmts@.take(i as int);
            assert(stmts@.take(i + 1) =~= prefix.push(stmts@[i as int]));
            lemma_program_text_snoc(prefix, stmts@[i as int]);
            reveal_strlit("\n");
            assert(s@ =~= program_text(stmts@.take(i + 1)));
        }
        i = i + 1;
    }
    proof {
        assert(stmts@.take(stmts@.len() as int) =~= stmts@);
    }
    s
}

} // verus!

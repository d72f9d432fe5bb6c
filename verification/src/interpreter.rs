//! The tree-walking interpreter: statements execute strictly in order
//! against a single global environment, stopping at the first runtime error;
//! expressions evaluate post-order. `print` output is collected line by line
//! so that a caller decides where it goes.

use vstd::prelude::*;

use crate::ast::{Expr, Stmt};
use crate::environment::{Environment, undefined_msg};
use crate::token::{LiteralValue, TokenKind};
use crate::value::{Val, lit_view, val_eq, val_text, truthy, literal_eq, value_to_string};

verus! {

/// A runtime fault, with everything needed to phrase its message.
pub enum RtErr {
    /// Unary `-` on a value that is not a number.
    UnaryTypeErr,
    /// A binary operator applied to operands of the wrong types.
    BinTypeErr(TokenKind),
    /// Division by zero.
    DivByZero,
    /// A read of, or assignment to, a name that was never defined.
    UndefinedVar(Seq<char>),
    /// An operator kind that the language gives no unary meaning.
    UnsupportedUnary,
    /// An operator kind that the language gives no binary meaning.
    UnsupportedBinary,
}

/// The message for a binary type error names the operator.
pub open spec fn bin_type_msg(k: TokenKind) -> Seq<char> {
    match k {
        TokenKind::Plus => "Operands must be two numbers or two strings for '+'"@,
        TokenKind::Minus => "Operands must be numbers for '-'"@,
        TokenKind::Star => "Operands must be numbers for '*'"@,
        TokenKind::Slash => "Operands must be numbers for '/'"@,
        TokenKind::Greater => "Operands must be numbers for '>'"@,
        TokenKind::GreaterEqual => "Operands must be numbers for '>='"@,
        TokenKind::Less => "Operands must be numbers for '<'"@,
        TokenKind::LessEqual => "Operands must be numbers for '<='"@,
        _ => "Unsupported binary operator"@,
    }
}

/// The exact message each runtime fault reports.
pub open spec fn rt_msg(e: RtErr) -> Seq<char> {
    match e {
        RtErr::UnaryTypeErr => "Operand must be a number"@,
        RtErr::BinTypeErr(k) => bin_type_msg(k),
        RtErr::DivByZero => "Division by zero"@,
        RtErr::UndefinedVar(n) => undefined_msg(n),
        RtErr::UnsupportedUnary => "Unsupported unary operator"@,
        RtErr::UnsupportedBinary => "Unsupported binary operator"@,
    }
}

/// The outcome of evaluating one expression: a value, or a fault; either
/// way, the environment as the evaluation left it (an assignment nested in
/// a failing expression keeps its effect).
pub enum EvalOut {
    EvOk { v: Val, env: Map<Seq<char>, Val> },
    EvErr { err: RtErr, env: Map<Seq<char>, Val> },
}

/// Truncating division wrapped at the numeric domain's edge: the quotient
/// as `checked_div` gives it, with the one overflowing case pinned to the
/// smallest number.
pub open spec fn wrap_div(a: i64, b: i64) -> i64 {
    match a.checked_div(b) {
        Some(q) => q,
        None => i64::MIN,
    }
}

/// What a binary operator yields on two already-evaluated operands.
/// Arithmetic wraps on overflow; `+` also concatenates two texts; `/` by
/// zero is a fault; comparisons need numbers; equality is defined over any
/// pair of values.
pub open spec fn apply_binary(op: TokenKind, a: Val, b: Val) -> Result<Val, RtErr> {
    match op {
        TokenKind::Plus => match (a, b) {
            (Val::VNum(x), Val::VNum(y)) => Ok(Val::VNum(x.wrapping_add(y))),
            (Val::VText(x), Val::VText(y)) => Ok(Val::VText(x + y)),
            _ => Err(RtErr::BinTypeErr(TokenKind::Plus)),
        },
        TokenKind::Minus => match (a, b) {
            (Val::VNum(x), Val::VNum(y)) => Ok(Val::VNum(x.wrapping_sub(y))),
            _ => Err(RtErr::BinTypeErr(TokenKind::Minus)),
        },
        TokenKind::Star => match (a, b) {
            (Val::VNum(x), Val::VNum(y)) => Ok(Val::VNum(x.wrapping_mul(y))),
            _ => Err(RtErr::BinTypeErr(TokenKind::Star)),
        },
        TokenKind::Slash => match (a, b) {
            (Val::VNum(x), Val::VNum(y)) => if y == 0 {
                Err(RtErr::DivByZero)
            } else {
                Ok(Val::VNum(wrap_div(x, y)))
            },
            _ => Err(RtErr::BinTypeErr(TokenKind::Slash)),
        },
        TokenKind::Greater => match (a, b) {
            (Val::VNum(x), Val::VNum(y)) => Ok(Val::VBool(x > y)),
            _ => Err(RtErr::BinTypeErr(TokenKind::Greater)),
        },
        TokenKind::GreaterEqual => match (a, b) {
            (Val::VNum(x), Val::VNum(y)) => Ok(Val::VBool(x >= y)),
            _ => Err(RtErr::BinTypeErr(TokenKind::GreaterEqual)),
        },
        TokenKind::Less => match (a, b) {
            (Val::VNum(x), Val::VNum(y)) => Ok(Val::VBool(x < y)),
            _ => Err(RtErr::BinTypeErr(TokenKind::Less)),
        },
        TokenKind::LessEqual => match (a, b) {
            (Val::VNum(x), Val::VNum(y)) => Ok(Val::VBool(x <= y)),
            _ => Err(RtErr::BinTypeErr(TokenKind::LessEqual)),
        },
        TokenKind::EqualEqual => Ok(Val::VBool(val_eq(a, b))),
        TokenKind::BangEqual => Ok(Val::VBool(!val_eq(a, b))),
        _ => Err(RtErr::UnsupportedBinary),
    }
}

/// The meaning of an expression: post-order evaluation, children before the
/// parent combines them, the left operand before the right.
pub open spec fn spec_eval(e: Expr, env: Map<Seq<char>, Val>) -> EvalOut
    decreases e,
{
    match e {
        Expr::Literal { value } => EvalOut::EvOk { v: lit_view(value), env },
        Expr::Grouping { expression } => spec_eval(*expression, env),
        Expr::Unary { operator, right } => match spec_eval(*right, env) {
            EvalOut::EvOk { v, env: env1 } => if operator == TokenKind::Minus {
                match v {
                    Val::VNum(n) => EvalOut::EvOk {
                        v: Val::VNum((0i64).wrapping_sub(n)),
                        env: env1,
                    },
                    _ => EvalOut::EvErr { err: RtErr::UnaryTypeErr, env: env1 },
                }
            } else if operator == TokenKind::Bang {
                EvalOut::EvOk { v: Val::VBool(!truthy(v)), env: env1 }
            } else {
                EvalOut::EvErr { err: RtErr::UnsupportedUnary, env: env1 }
            },
            fault => fault,
        },
        Expr::Binary { left, operator, right } => match spec_eval(*left, env) {
            EvalOut::EvOk { v: l, env: env1 } => match spec_eval(*right, env1) {
                EvalOut::EvOk { v: r, env: env2 } => match apply_binary(operator, l, r) {
                    Ok(v) => EvalOut::EvOk { v, env: env2 },
                    Err(err) => EvalOut::EvErr { err, env: env2 },
                },
                fault => fault,
            },
            fault => fault,
        },
        Expr::Variable { name } => if env.contains_key(name.lexeme@) {
            EvalOut::EvOk { v: env[name.lexeme@], env }
        } else {
            EvalOut::EvErr { err: RtErr::UndefinedVar(name.lexeme@), env }
        },
        Expr::Assign { name, value } => match spec_eval(*value, env) {
            EvalOut::EvOk { v, env: env1 } => if env1.contains_key(name.lexeme@) {
                EvalOut::EvOk { v, env: env1.insert(name.lexeme@, v) }
            } else {
                EvalOut::EvErr { err: RtErr::UndefinedVar(name.lexeme@), env: env1 }
            },
            fault => fault,
        },
    }
}

/// The outcome of running statements: the environment and the output lines
/// as execution left them, and the fault that stopped it, if one did.
pub enum RunOut {
    ROk { env: Map<Seq<char>, Val>, out: Seq<Seq<char>> },
    RFail { err: RtErr, env: Map<Seq<char>, Val>, out: Seq<Seq<char>> },
}

/// The meaning of one statement.
pub open spec fn spec_exec_stmt(s: Stmt, env: Map<Seq<char>, Val>, out: Seq<Seq<char>>) -> RunOut {
    match s {
        Stmt::Expression { expression } => match spec_eval(expression, env) {
            EvalOut::EvOk { v, env: env1 } => RunOut::ROk { env: env1, out },
            EvalOut::EvErr { err, env: env1 } => RunOut::RFail { err, env: env1, out },
        },
        Stmt::Print { expression } => match spec_eval(expression, env) {
            EvalOut::EvOk { v, env: env1 } => RunOut::ROk { env: env1, out: out.push(val_text(v)) },
            EvalOut::EvErr { err, env: env1 } => RunOut::RFail { err, env: env1, out },
        },
        Stmt::Let { name, initializer } => match spec_eval(initializer, env) {
            EvalOut::EvOk { v, env: env1 } => RunOut::ROk {
                env: env1.insert(name.lexeme@, v),
                out,
            },
            EvalOut::EvErr { err, env: env1 } => RunOut::RFail { err, env: env1, out },
        },
    }
}

/// The meaning of a statement sequence: strictly in order, stopping at the
/// first fault; statements after the failing one do not execute.
pub open spec fn spec_run(ss: Seq<Stmt>, env: Map<Seq<char>, Val>, out: Seq<Seq<char>>) -> RunOut
    decreases ss.len(),
{
    if ss.len() == 0 {
        RunOut::ROk { env, out }
    } else {
        match spec_exec_stmt(ss[0], env, out) {
            RunOut::ROk { env: env1, out: out1 } => spec_run(ss.drop_first(), env1, out1),
            fault => fault,
        }
    }
}

/// Runs statement sequences against an owned environment, collecting the
/// lines that `print` produces.
pub struct Interpreter {
    env: Environment,
    output: Vec<String>,
}

impl Interpreter {
    /// The variable bindings as they currently stand.
    pub closed spec fn env_map(&self) -> Map<Seq<char>, Val> {
        self.env@
    }

    /// The lines printed so far, in order.
    pub closed spec fn out_lines(&self) -> Seq<Seq<char>> {
        self.output.deep_view()
    }

    pub closed spec fn wf(&self) -> bool {
        self.env.wf()
    }

    /// Create an interpreter with an empty environment and no output.
    pub fn new() -> (r: Self)
        ensures
            r.wf(),
            r.env_map() == Map::<Seq<char>, Val>::empty(),
            r.out_lines() == Seq::<Seq<char>>::empty(),
    {
        let r = Interpreter { env: Environment::new(), output: Vec::new() };
        proof {
            assert(r.out_lines() =~= Seq::<Seq<char>>::empty());
        }
        r
    }

    /// The output collected so far, one line per `print`.
    pub fn output(&self) -> (r: &Vec<String>)
        ensures
            r.deep_view() == self.out_lines(),
    {
        &self.output
    }

    /// Look a variable up in the current environment.
    pub fn lookup(&self, name: &String) -> (r: Result<LiteralValue, String>)
        requires
            self.wf(),
        ensures
            match r {
                Ok(v) => self.env_map().contains_key(name@) && lit_view(v)
                    == self.env_map()[name@],
                Err(m) => !self.env_map().contains_key(name@) && m@ == undefined_msg(name@),
            },
    {
        self.env.get(name)
    }

    fn apply_binary_op(op: TokenKind, a: &LiteralValue, b: &LiteralValue) -> (r: Result<
        LiteralValue,
        String,
    >)
        ensures
            match apply_binary(op, lit_view(*a), lit_view(*b)) {
                Ok(v) => r matches Ok(lv) && lit_view(lv) == v,
                Err(e) => r matches Err(m) && m@ == rt_msg(e),
            },
    {
        match op {
            TokenKind::Plus => match (a, b) {
                (LiteralValue::Number(x), LiteralValue::Number(y)) => Ok(
                    LiteralValue::Number(x.wrapping_add(*y)),
                ),
                (LiteralValue::Text(x), LiteralValue::Text(y)) => {
                    let joined = x.clone().concat(y.as_str());
                    Ok(LiteralValue::Text(joined))
                },
                _ => Err(String::from_str("Operands must be two numbers or two strings for '+'")),
            },
            TokenKind::Minus => match (a, b) {
                (LiteralValue::Number(x), LiteralValue::Number(y)) => Ok(
                    LiteralValue::Number(x.wrapping_sub(*y)),
                ),
                _ => Err(String::from_str("Operands must be numbers for '-'")),
            },
            TokenKind::Star => match (a, b) {
                (LiteralValue::Number(x), LiteralValue::Number(y)) => Ok(
                    LiteralValue::Number(x.wrapping_mul(*y)),
                ),
                _ => Err(String::from_str("Operands must be numbers for '*'")),
            },
            TokenKind::Slash => match (a, b) {
                (LiteralValue::Number(x), LiteralValue::Number(y)) => if *y == 0 {
                    Err(String::from_str("Division by zero"))
                } else {
                    let q: i64 = match x.checked_div(*y) {
                        Some(q) => q,
                        None => i64::MIN,
                    };
                    Ok(LiteralValue::Number(q))
                },
                _ => Err(String::from_str("Operands must be numbers for '/'")),
            },
            TokenKind::Greater => match (a, b) {
                (LiteralValue::Number(x), LiteralValue::Number(y)) => Ok(
                    LiteralValue::Bool(*x > *y),
                ),
                _ => Err(String::from_str("Operands must be numbers for '>'")),
            },
            TokenKind::GreaterEqual => match (a, b) {
                (LiteralValue::Number(x), LiteralValue::Number(y)) => Ok(
                    LiteralValue::Bool(*x >= *y),
                ),
                _ => Err(String::from_str("Operands must be numbers for '>='")),
            },
            TokenKind::Less => match (a, b) {
                (LiteralValue::Number(x), LiteralValue::Number(y)) => Ok(
                    LiteralValue::Bool(*x < *y),
                ),
                _ => Err(String::from_str("Operands must be numbers for '<'")),
            },
            TokenKind::LessEqual => match (a, b) {
                (LiteralValue::Number(x), LiteralValue::Number(y)) => Ok(
                    LiteralValue::Bool(*x <= *y),
                ),
                _ => Err(String::from_str("Operands must be numbers for '<='")),
            },
            TokenKind::EqualEqual => Ok(LiteralValue::Bool(literal_eq(a, b))),
            TokenKind::BangEqual => Ok(LiteralValue::Bool(!literal_eq(a, b))),
            _ => Err(String::from_str("Unsupported binary operator")),
        }
    }

    /// Evaluate one expression against the current environment.
    pub fn evaluate(&mut self, e: &Expr) -> (r: Result<LiteralValue, String>)
        requires
            old(self).wf(),
        ensures
            final(self).wf(),
            final(self).out_lines() == old(self).out_lines(),
            match spec_eval(*e, old(self).env_map()) {
                EvalOut::EvOk { v, env } => r matches Ok(lv) && lit_view(lv) == v
                    && final(self).env_map() == env,
                EvalOut::EvErr { err, env } => r matches Err(m) && m@ == rt_msg(err)
                    && final(self).env_map() == env,
            },
        decreases *e,
    {
        match e {
            Expr::Literal { value } => Ok(value.clone()),
            Expr::Grouping { expression } => self.evaluate(&**expression),
            Expr::Unary { operator, right } => {
                let v = match self.evaluate(&**right) {
                    Ok(v) => v,
                    Err(m) => {
                        return Err(m);
                    },
                };
                if *operator == TokenKind::Minus {
                    match v {
                        LiteralValue::Number(n) => Ok(
                            LiteralValue::Number((0i64).wrapping_sub(n)),
                        ),
                        _ => Err(String::from_str("Operand must be a number")),
                    }
                } else if *operator == TokenKind::Bang {
                    let t = match &v {
                        LiteralValue::Null => false,
                        LiteralValue::Bool(b) => *b,
                        _ => true,
                    };
                    Ok(LiteralValue::Bool(!t))
                } else {
                    Err(String::from_str("Unsupported unary operator"))
                }
            },
            Expr::Binary { left, operator, right } => {
                let l = match self.evaluate(&**left) {
                    Ok(v) => v,
                    Err(m) => {
                        return Err(m);
                    },
                };
                let r = match self.evaluate(&**right) {
                    Ok(v) => v,
                    Err(m) => {
                        return Err(m);
                    },
                };
                Self::apply_binary_op(*operator, &l, &r)
            },
            Expr::Variable { name } => self.env.get(&name.lexeme),
            Expr::Assign { name, value } => {
                let v = match self.evaluate(&**value) {
                    Ok(v) => v,
                    Err(m) => {
                        return Err(m);
                    },
                };
                match self.env.assign(&name.lexeme, v.clone()) {
                    Ok(()) => Ok(v),
                    Err(m) => Err(m),
                }
            },
        }
    }

    fn execute(&mut self, s: &Stmt) -> (r: Result<(), String>)
        requires
            old(self).wf(),
        ensures
            final(self).wf(),
            match spec_exec_stmt(*s, old(self).env_map(), old(self).out_lines()) {
                RunOut::ROk { env, out } => r matches Ok(()) && final(self).env_map() == env
                    && final(self).out_lines() == out,
                RunOut::RFail { err, env, out } => r matches Err(m) && m@ == rt_msg(err)
                    && final(self).env_map() == env && final(self).out_lines() == out,
            },
    {
        match s {
            Stmt::Expression { expression } => match self.evaluate(expression) {
                Ok(_) => Ok(()),
                Err(m) => Err(m),
            },
            Stmt::Print { expression } => match self.evaluate(expression) {
                Ok(v) => {
                    let line = value_to_string(&v);
                    let ghost before = self.output.deep_view();
                    self.output.push(line);
                    proof {
                        assert(self.output.deep_view() =~= before.push(line@));
                    }
                    Ok(())
                },
                Err(m) => Err(m),
            },
            Stmt::Let { name, initializer } => match self.evaluate(initializer) {
                Ok(v) => {
                    self.env.define(name.lexeme.clone(), v);
                    Ok(())
                },
                Err(m) => Err(m),
            },
        }
    }

    /// Execute the statements strictly in sequence, stopping at the first
    /// runtime error; the environment and output keep everything already
    /// done when an error stops the run.
    #[verifier::loop_isolation(false)]
    pub fn interpret(&mut self, statements: Vec<Stmt>) -> (r: Result<(), String>)
        requires
            old(self).wf(),
        ensures
            final(self).wf(),
            match spec_run(statements@, old(self).env_map(), old(self).out_lines()) {
                RunOut::ROk { env, out } => r matches Ok(()) && final(self).env_map() == env
                    && final(self).out_lines() == out,
                RunOut::RFail { err, env, out } => r matches Err(m) && m@ == rt_msg(err)
                    && final(self).env_map() == env && final(self).out_lines() == out,
            },
    {
        let ghost goal = spec_run(statements@, old(self).env_map(), old(self).out_lines());
        proof {
            assert(statements@.skip(0) =~= statements@);
        }
        let mut i: usize = 0;
        while i < statements.len()
            invariant
                old(self).wf(),
                self.wf(),
                i <= statements.len(),
                spec_run(statements@.skip(i as int), self.env_map(), self.out_lines()) == goal,
            decreases statements.len() - i,
        {
            proof {
                let rest = statements@.skip(i as int);
                assert(rest[0] == statements@[i as int]);
                assert(rest.drop_first() =~= statements@.skip(i + 1));
            }
            match self.execute(&statements[i]) {
                Ok(()) => {},
                Err(m) => {
                    return Err(m);
                },
            }
            i = i + 1;
        }
        proof {
            assert(statements@.skip(statements@.len() as int) =~= Seq::<Stmt>::empty());
        }
        Ok(())
    }
}

} // verus!

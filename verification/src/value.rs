//! The mathematical model of runtime values, and verified rendering of
//! values to their canonical text.

use vstd::prelude::*;

use crate::token::LiteralValue;

verus! {

/// A runtime value as the specifications see it: text is a sequence of
/// characters, so that two values are interchangeable exactly when they
/// mean the same thing.
pub enum Val {
    VNum(i64),
    VText(Seq<char>),
    VBool(bool),
    VNull,
}

/// The value a `LiteralValue` stands for.
pub open spec fn lit_view(v: LiteralValue) -> Val {
    match v {
        LiteralValue::Number(n) => Val::VNum(n),
        LiteralValue::Text(s) => Val::VText(s@),
        LiteralValue::Bool(b) => Val::VBool(b),
        LiteralValue::Null => Val::VNull,
    }
}

/// Language equality: equal iff same tag and equal payload; values of
/// different tags are simply unequal.
pub open spec fn val_eq(a: Val, b: Val) -> bool {
    match (a, b) {
        (Val::VNum(x), Val::VNum(y)) => x == y,
        (Val::VText(x), Val::VText(y)) => x == y,
        (Val::VBool(x), Val::VBool(y)) => x == y,
        (Val::VNull, Val::VNull) => true,
        _ => false,
    }
}

/// The truthiness rule: only `null` and `false` are falsy; everything else,
/// including numeric zero and empty text, is truthy.
pub open spec fn truthy(v: Val) -> bool {
    match v {
        Val::VNull => false,
        Val::VBool(b) => b,
        _ => true,
    }
}

/// The decimal digit character for `d` in `0 ..= 9`.
pub open spec fn digit_char(d: int) -> char {
    if d == 0 {
        '0'
    } else if d == 1 {
        '1'
    } else if d == 2 {
        '2'
    } else if d == 3 {
        '3'
    } else if d == 4 {
        '4'
    } else if d == 5 {
        '5'
    } else if d == 6 {
        '6'
    } else if d == 7 {
        '7'
    } else if d == 8 {
        '8'
    } else {
        '9'
    }
}

/// The decimal digits of a non-negative integer, most significant first.
pub open spec fn udigits(n: int) -> Seq<char>
    decreases n,
        when n >= 0
{
    if n < 10 {
        seq![digit_char(n)]
    } else {
        udigits(n / 10).push(digit_char(n % 10))
    }
}

/// The canonical decimal text of an integer.
pub open spec fn int_text(n: int) -> Seq<char> {
    if n < 0 {
        seq!['-'] + udigits(-n)
    } else {
        udigits(n)
    }
}

/// The canonical text of a value, as `print` writes it.
pub open spec fn val_text(v: Val) -> Seq<char> {
    match v {
        Val::VNum(n) => int_text(n as int),
        Val::VText(s) => s,
        Val::VBool(b) => if b {
            "true"@
        } else {
            "false"@
        },
        Val::VNull => "null"@,
    }
}

fn digit_str(d: u64) -> (r: &'static str)
    requires
        d < 10,
    ensures
        r@ == seq![digit_char(d as int)],
{
    proof {
        reveal_strlit("0");
        reveal_strlit("1");
        reveal_strlit("2");
        reveal_strlit("3");
        reveal_strlit("4");
        reveal_strlit("5");
        reveal_strlit("6");
        reveal_strlit("7");
        reveal_strlit("8");
        reveal_strlit("9");
    }
    let r: &'static str = if d == 0 {
        "0"
    } else if d == 1 {
        "1"
    } else if d == 2 {
        "2"
    } else if d == 3 {
        "3"
    } else if d == 4 {
        "4"
    } else if d == 5 {
        "5"
    } else if d == 6 {
        "6"
    } else if d == 7 {
        "7"
    } else if d == 8 {
        "8"
    } else {
        "9"
    };
    proof {
        assert(r@ =~= seq![digit_char(d as int)]);
    }
    r
}

fn u64_digits(n: u64) -> (r: String)
    ensures
        r@ == udigits(n as int),
    decreases n,
{
    if n < 10 {
        String::from_str(digit_str(n))
    } else {
        let mut s = u64_digits(n / 10);
        s.append(digit_str(n % 10));
        proof {
            assert(s@ =~= udigits(n as int));
        }
        s
    }
}

/// Render a number to its canonical decimal text.
pub fn num_to_string(n: i64) -> (r: String)
    ensures
        r@ == int_text(n as int),
{
    if n >= 0 {
        u64_digits(n as u64)
    } else {
        let mut s = String::from_str("-");
        let mag: u64 = if n == i64::MIN {
            9223372036854775808u64
        } else {
            (-n) as u64
        };
        let d = u64_digits(mag);
        s.append(d.as_str());
        proof {
            reveal_strlit("-");
            assert(s@ =~= int_text(n as int));
        }
        s
    }
}

/// Decide language equality of two literal values.
pub fn literal_eq(a: &LiteralValue, b: &LiteralValue) -> (r: bool)
    ensures
        r == val_eq(lit_view(*a), lit_view(*b)),
{
    match (a, b) {
        (LiteralValue::Number(x), LiteralValue::Number(y)) => *x == *y,
        (LiteralValue::Text(x), LiteralValue::Text(y)) => *x == *y,
        (LiteralValue::Bool(x), LiteralValue::Bool(y)) => *x == *y,
        (LiteralValue::Null, LiteralValue::Null) => true,
        _ => false,
    }
}

/// Render a value to its canonical text.
pub fn value_to_string(v: &LiteralValue) -> (r: String)
    ensures
        r@ == val_text(lit_view(*v)),
{
    match v {
        LiteralValue::Number(n) => num_to_string(*n),
        LiteralValue::Text(s) => s.clone(),
        LiteralValue::Bool(b) => if *b {
            String::from_str("true")
        } else {
            String::from_str("false")
        },
        LiteralValue::Null => String::from_str("null"),
    }
}

} // verus!

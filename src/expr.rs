use vstd::math::max;
use vstd::prelude::*;

use crate::env::Env;
use crate::error::{Error, outcome};
use crate::func_call::{FuncCall, clone_exprs};
use crate::grammar::{
    decimal_value, digit_value, lemma_decimal_prefix, read_block, read_call, read_expr, read_ident,
    read_number, read_op, read_operand, read_operation,
};
use crate::model::{ExprModel, expr_size, expr_view};
use crate::semantics::{arith, env_bound, eval_expr};
use crate::utils::{
    CharClass, extract_digits, extract_whitespace, is_digit, lemma_span_bound, lemma_strip_char,
    span, tag,
};
use crate::val::Val;

pub mod binding_usage;
pub mod block;

pub use binding_usage::BindingUsage;
pub use block::Block;
use block::clone_statements;

verus! {

/// An expression: a literal, one binary operation, a block, a name or a call.
#[derive(Debug, PartialEq)]
pub enum Expr {
    Number(Number),
    Operation { lhs: Box<Expr>, rhs: Box<Expr>, op: Op },
    Block(Block),
    BindingUsage(BindingUsage),
    FuncCall(FuncCall),
}

impl View for Expr {
    type V = ExprModel;

    open spec fn view(&self) -> ExprModel {
        expr_view(*self)
    }
}

impl Clone for Expr {
    fn clone(&self) -> (r: Self)
        ensures
            r@ == self@,
        decreases self,
    {
        match self {
            Expr::Number(n) => Expr::Number(*n),
            Expr::Operation { lhs, rhs, op } => Expr::Operation {
                lhs: Box::new((**lhs).clone()),
                rhs: Box::new((**rhs).clone()),
                op: *op,
            },
            Expr::Block(b) => Expr::Block(Block { exprs: clone_statements(&b.exprs) }),
            Expr::BindingUsage(u) => Expr::BindingUsage(BindingUsage { name: u.name.clone() }),
            Expr::FuncCall(c) => Expr::FuncCall(
                FuncCall { name: c.name.clone(), args: clone_exprs(&c.args) },
            ),
        }
    }
}

impl Expr {
    /// Evaluates the expression in `env`.
    pub fn eval(&self, env: &Env) -> (r: Result<Val, Error>)
        ensures
            outcome(r) == eval_expr(self@, env@),
        decreases max(env_bound(env@) as int, expr_size(self@) as int), expr_size(self@), 1nat,
    {
        match self {
            Expr::Number(Number(num)) => Ok(Val::Number(*num)),
            Expr::Operation { lhs, rhs, op } => {
                let l = match lhs.eval(env) {
                    Ok(v) => v,
                    Err(e) => return Err(e),
                };
                let r = match rhs.eval(env) {
                    Ok(v) => v,
                    Err(e) => return Err(e),
                };
                let a = match l.get_number() {
                    Ok(n) => n,
                    Err(e) => return Err(e),
                };
                let b = match r.get_number() {
                    Ok(n) => n,
                    Err(e) => return Err(e),
                };
                op.apply(a, b)
            },
            Expr::BindingUsage(binding) => binding.eval(env),
            Expr::Block(block) => block.eval(env),
            Expr::FuncCall(call) => call.eval(env),
        }
    }

    /// Reads an expression from the front of `s`, trying an operation, a
    /// number, a block, a call and a name, in that order.
    pub fn new(s: &str) -> (r: Result<(&str, Expr), Error>)
        ensures
            match r {
                Ok((rest, e)) => read_expr(s@) == Some((rest@, e@)) && rest@.len() < s@.len(),
                Err(err) => read_expr(s@) is None && err == Error::Syntax,
            },
        decreases s@.len(), 8nat,
    {
        if let Ok(p) = Self::new_operation(s) {
            return Ok(p);
        }
        if let Ok(p) = Self::new_number(s) {
            return Ok(p);
        }
        if let Ok(p) = Self::new_block(s) {
            return Ok(p);
        }
        if let Ok(p) = Self::new_func_call(s) {
            return Ok(p);
        }
        Self::new_binding_usage(s)
    }

    /// Reads a numeric literal.
    pub fn new_number(s: &str) -> (r: Result<(&str, Expr), Error>)
        ensures
            match r {
                Ok((rest, e)) => read_number(s@) matches Some((r2, n)) && r2 == rest@
                    && e@ == ExprModel::Number(n) && rest@.len() < s@.len(),
                Err(err) => read_number(s@) is None && err == Error::Syntax,
            },
    {
        match Number::new(s) {
            Ok((rest, number)) => Ok((rest, Expr::Number(number))),
            Err(e) => Err(e),
        }
    }

    /// Reads a block.
    pub fn new_block(s: &str) -> (r: Result<(&str, Expr), Error>)
        ensures
            match r {
                Ok((rest, e)) => read_block(s@) matches Some((r2, ss)) && r2 == rest@
                    && e@ == ExprModel::Block(ss) && rest@.len() < s@.len(),
                Err(err) => read_block(s@) is None && err == Error::Syntax,
            },
        decreases s@.len(), 4nat,
    {
        match Block::new(s) {
            Ok((rest, block)) => Ok((rest, Expr::Block(block))),
            Err(e) => Err(e),
        }
    }

    /// Reads a name used as a value.
    pub fn new_binding_usage(s: &str) -> (r: Result<(&str, Expr), Error>)
        ensures
            match r {
                Ok((rest, e)) => read_ident(s@) matches Some((r2, name)) && r2 == rest@
                    && e@ == ExprModel::BindingUsage(name) && rest@.len() < s@.len(),
                Err(err) => read_ident(s@) is None && err == Error::Syntax,
            },
    {
        match BindingUsage::new(s) {
            Ok((rest, usage)) => Ok((rest, Expr::BindingUsage(usage))),
            Err(e) => Err(e),
        }
    }

    /// Reads a function call.
    pub fn new_func_call(s: &str) -> (r: Result<(&str, Expr), Error>)
        ensures
            match r {
                Ok((rest, e)) => read_call(s@) == Some((rest@, e@)) && rest@.len() < s@.len(),
                Err(err) => read_call(s@) is None && err == Error::Syntax,
            },
        decreases s@.len(), 7nat,
    {
        match FuncCall::new(s) {
            Ok((rest, call)) => Ok((rest, Expr::FuncCall(call))),
            Err(e) => Err(e),
        }
    }

    /// Reads an operand of an operation: a number, a block or a name.
    fn new_operand(s: &str) -> (r: Result<(&str, Expr), Error>)
        ensures
            match r {
                Ok((rest, e)) => read_operand(s@) == Some((rest@, e@)) && rest@.len() < s@.len(),
                Err(err) => read_operand(s@) is None && err == Error::Syntax,
            },
        decreases s@.len(), 5nat,
    {
        if let Ok(p) = Self::new_number(s) {
            return Ok(p);
        }
        if let Ok(p) = Self::new_block(s) {
            return Ok(p);
        }
        Self::new_binding_usage(s)
    }

    /// Reads one binary operation: operand, operator, operand, with optional
    /// whitespace around the operator.
    pub fn new_operation(s: &str) -> (r: Result<(&str, Expr), Error>)
        ensures
            match r {
                Ok((rest, e)) => read_operation(s@) == Some((rest@, e@)) && rest@.len() < s@.len(),
                Err(err) => read_operation(s@) is None && err == Error::Syntax,
            },
        decreases s@.len(), 7nat,
    {
        let (remaining_exp, lhs) = match Self::new_operand(s) {
            Ok(p) => p,
            Err(e) => return Err(e),
        };
        let (remaining_exp, _) = extract_whitespace(remaining_exp);
        let (remaining_exp, op) = match Op::new(remaining_exp) {
            Ok(p) => p,
            Err(e) => return Err(e),
        };
        let (remaining_exp, _) = extract_whitespace(remaining_exp);
        let (remaining_exp, rhs) = match Self::new_operand(remaining_exp) {
            Ok(p) => p,
            Err(e) => return Err(e),
        };
        Ok((remaining_exp, Expr::Operation { lhs: Box::new(lhs), rhs: Box::new(rhs), op }))
    }
}

/// A binary arithmetic operator.
#[derive(Debug, Clone, Copy, PartialEq, Eq, Structural)]
pub enum Op {
    Addition,
    Substraction,
    Multiplication,
    Division,
}

impl Op {
    /// `a self b` on 32-bit integers. Division truncates toward zero; a
    /// zero divisor and a result outside `i32` are errors.
    pub fn apply(self, a: i32, b: i32) -> (r: Result<Val, Error>)
        ensures
            outcome(r) == arith(self, a, b),
    {
        let result = match self {
            Op::Addition => a.checked_add(b),
            Op::Substraction => a.checked_sub(b),
            Op::Multiplication => a.checked_mul(b),
            Op::Division => {
                if b == 0 {
                    return Err(Error::DivisionByZero);
                }
                a.checked_div(b)
            },
        };
        match result {
            Some(n) => Ok(Val::Number(n)),
            None => Err(Error::Overflow),
        }
    }

    /// Reads one of `+`, `-`, `/`, `*`.
    pub fn new(s: &str) -> (r: Result<(&str, Op), Error>)
        ensures
            match r {
                Ok((rest, op)) => read_op(s@) == Some((rest@, op)) && rest@.len() < s@.len(),
                Err(err) => read_op(s@) is None && err == Error::Syntax,
            },
    {
        proof {
            reveal_strlit("+");
            reveal_strlit("-");
            reveal_strlit("/");
            reveal_strlit("*");
            assert("+"@ =~= seq!['+']);
            assert("-"@ =~= seq!['-']);
            assert("/"@ =~= seq!['/']);
            assert("*"@ =~= seq!['*']);
            lemma_strip_char(s@, '+');
            lemma_strip_char(s@, '-');
            lemma_strip_char(s@, '/');
            lemma_strip_char(s@, '*');
        }
        if let Ok(rest) = tag(s, "+") {
            return Ok((rest, Op::Addition));
        }
        if let Ok(rest) = tag(s, "-") {
            return Ok((rest, Op::Substraction));
        }
        if let Ok(rest) = tag(s, "/") {
            return Ok((rest, Op::Division));
        }
        match tag(s, "*") {
            Ok(rest) => Ok((rest, Op::Multiplication)),
            Err(e) => Err(e),
        }
    }
}

/// A numeric literal.
#[derive(Debug, Clone, Copy, PartialEq, Eq, Structural)]
pub struct Number(pub i32);

impl Number {
    /// Reads a run of decimal digits; fails when there is none or when its
    /// value does not fit in an `i32`.
    pub fn new(s: &str) -> (r: Result<(&str, Number), Error>)
        ensures
            match r {
                Ok((rest, n)) => read_number(s@) == Some((rest@, n.0)) && rest@.len() < s@.len(),
                Err(err) => read_number(s@) is None && err == Error::Syntax,
            },
    {
        let (remaining_input, num_s) = match extract_digits(s) {
            Ok(p) => p,
            Err(e) => return Err(e),
        };
        proof {
            lemma_span_bound(s@, CharClass::Digit);
        }
        let ghost d = num_s@;
        assert(forall|i: int| 0 <= i < d.len() ==> is_digit(#[trigger] d[i]));
        let n = num_s.unicode_len();
        let mut acc: i32 = 0;
        let mut i: usize = 0;
        while i < n
            invariant
                d == num_s@,
                d == s@.subrange(0, span(s@, CharClass::Digit) as int),
                span(s@, CharClass::Digit) <= s@.len(),
                n == d.len(),
                0 <= i <= n,
                forall|j: int| 0 <= j < d.len() ==> is_digit(#[trigger] d[j]),
                acc as int == decimal_value(d.subrange(0, i as int)),
                0 <= acc,
            decreases n - i,
        {
            let c = num_s.get_char(i);
            let digit = (c as u32 - '0' as u32) as i32;
            assert(d.subrange(0, i + 1).drop_last() =~= d.subrange(0, i as int));
            assert(0 <= digit <= 9 && digit as int == digit_value(d[i as int]));
            assert(decimal_value(d.subrange(0, i + 1)) == 10 * acc + digit);
            let next = match acc.checked_mul(10) {
                Some(m) => m.checked_add(digit),
                None => None,
            };
            match next {
                Some(v) => {
                    acc = v;
                },
                None => {
                    proof {
                        assert(10 * acc + digit > i32::MAX);
                        lemma_decimal_prefix(d, i + 1);
                        assert(d.subrange(0, n as int) =~= d);
                    }
                    return Err(Error::Syntax);
                },
            }
            i = i + 1;
        }
        assert(d.subrange(0, n as int) =~= d);
        Ok((remaining_input, Number(acc)))
    }
}

} // verus!

//! The grammar as mathematical functions. Each `read_*` function reads one
//! production from the front of a character sequence and gives back what is
//! left together with the syntax it read, or `None` when the production does
//! not match. Alternatives are tried in a fixed order and the first that
//! matches wins.
//!
//! Where what one production leaves is handed to a further production, the
//! rest is also required to be shorter than the input. Every production
//! consumes at least one character, so the condition always holds (the
//! executable parsers prove as much); it is there so that the definitions
//! visibly terminate.

use vstd::prelude::*;
use crate::expr::Op;
use crate::model::{ExprModel, StatementModel};
use crate::utils::{CharClass, after, is_digit, ident_len, skip_spaces, skip_whitespace, span, strip_literal};

verus! {

pub open spec fn digit_value(c: char) -> int {
    (c as u32) as int - ('0' as u32) as int
}

/// The number that a sequence of decimal digits writes.
pub open spec fn decimal_value(d: Seq<char>) -> int
    decreases d.len(),
{
    if d.len() == 0 {
        0
    } else {
        10 * decimal_value(d.drop_last()) + digit_value(d.last())
    }
}

/// `digit+`, whose value fits in an `i32`.
pub open spec fn read_number(s: Seq<char>) -> Option<(Seq<char>, i32)> {
    let k = span(s, CharClass::Digit);
    let v = decimal_value(s.subrange(0, k as int));
    if k > 0 && v <= i32::MAX {
        Some((after(s, k as int), v as i32))
    } else {
        None
    }
}

/// `alpha alnum*`.
pub open spec fn read_ident(s: Seq<char>) -> Option<(Seq<char>, Seq<char>)> {
    let k = ident_len(s);
    if k > 0 {
        Some((after(s, k as int), s.subrange(0, k as int)))
    } else {
        None
    }
}

/// `"+" | "-" | "/" | "*"`.
pub open spec fn read_op(s: Seq<char>) -> Option<(Seq<char>, Op)> {
    if s.len() > 0 && s[0] == '+' {
        Some((after(s, 1), Op::Addition))
    } else if s.len() > 0 && s[0] == '-' {
        Some((after(s, 1), Op::Substraction))
    } else if s.len() > 0 && s[0] == '/' {
        Some((after(s, 1), Op::Division))
    } else if s.len() > 0 && s[0] == '*' {
        Some((after(s, 1), Op::Multiplication))
    } else {
        None
    }
}

pub open spec fn let_keyword() -> Seq<char> {
    seq!['l', 'e', 't']
}

pub open spec fn fn_keyword() -> Seq<char> {
    seq!['f', 'n']
}

pub open spec fn arrow() -> Seq<char> {
    seq!['=', '>']
}

/// `(ident WS*)*`, as many identifiers as follow one another.
pub open spec fn read_params(s: Seq<char>) -> (Seq<Seq<char>>, Seq<char>)
    decreases s.len(),
{
    match read_ident(s) {
        Some((r, name)) => if r.len() < s.len() {
            let (more, rest) = read_params(skip_whitespace(r));
            (seq![name] + more, rest)
        } else {
            (Seq::empty(), s)
        },
        None => (Seq::empty(), s),
    }
}

/// `number | block | binding_usage`: an operand of an operation.
pub open spec fn read_operand(s: Seq<char>) -> Option<(Seq<char>, ExprModel)>
    decreases s.len(), 2nat,
{
    match read_number(s) {
        Some((r, n)) => Some((r, ExprModel::Number(n))),
        None => match read_block(s) {
            Some((r, ss)) => Some((r, ExprModel::Block(ss))),
            None => match read_ident(s) {
                Some((r, name)) => Some((r, ExprModel::BindingUsage(name))),
                None => None,
            },
        },
    }
}

/// `operand WS* op WS* operand`.
pub open spec fn read_operation(s: Seq<char>) -> Option<(Seq<char>, ExprModel)>
    decreases s.len(), 3nat,
{
    match read_operand(s) {
        Some((r1, lhs)) => if r1.len() < s.len() {
            match read_op(skip_whitespace(r1)) {
                Some((r2, op)) => match read_operand(skip_whitespace(r2)) {
                    Some((r3, rhs)) => Some(
                        (r3, ExprModel::Operation { lhs: Box::new(lhs), rhs: Box::new(rhs), op }),
                    ),
                    None => None,
                },
                None => None,
            }
        } else {
            None
        },
        None => None,
    }
}

/// `"{" WS* (statement WS*)* "}"`.
pub open spec fn read_block(s: Seq<char>) -> Option<(Seq<char>, Seq<StatementModel>)>
    decreases s.len(), 1nat,
{
    match strip_literal(s, seq!['{']) {
        Some(r1) => {
            let (ss, r2) = read_statements(skip_whitespace(r1));
            match strip_literal(r2, seq!['}']) {
                Some(r3) => Some((r3, ss)),
                None => None,
            }
        },
        None => None,
    }
}

/// `(statement WS*)*`, as many statements as follow one another.
pub open spec fn read_statements(s: Seq<char>) -> (Seq<StatementModel>, Seq<char>)
    decreases s.len(), 7nat,
{
    match read_statement(s) {
        Some((r, st)) => if r.len() < s.len() {
            let (more, rest) = read_statements(skip_whitespace(r));
            (seq![st] + more, rest)
        } else {
            (Seq::empty(), s)
        },
        None => (Seq::empty(), s),
    }
}

/// `(expr " "*)*`, as many arguments as follow one another.
pub open spec fn read_args(s: Seq<char>) -> (Seq<ExprModel>, Seq<char>)
    decreases s.len(), 7nat,
{
    match read_expr(s) {
        Some((r, e)) => if r.len() < s.len() {
            let (more, rest) = read_args(skip_spaces(r));
            (seq![e] + more, rest)
        } else {
            (Seq::empty(), s)
        },
        None => (Seq::empty(), s),
    }
}

/// `ident " "* (expr " "*)+`.
pub open spec fn read_call(s: Seq<char>) -> Option<(Seq<char>, ExprModel)>
    decreases s.len(), 3nat,
{
    match read_ident(s) {
        Some((r1, name)) => if r1.len() < s.len() {
            let (args, r2) = read_args(skip_spaces(r1));
            if args.len() > 0 {
                Some((r2, ExprModel::FuncCall(name, args)))
            } else {
                None
            }
        } else {
            None
        },
        None => None,
    }
}

/// `operation | number | block | func_call | binding_usage`, in that order.
pub open spec fn read_expr(s: Seq<char>) -> Option<(Seq<char>, ExprModel)>
    decreases s.len(), 4nat,
{
    match read_operation(s) {
        Some(p) => Some(p),
        None => match read_number(s) {
            Some((r, n)) => Some((r, ExprModel::Number(n))),
            None => match read_block(s) {
                Some((r, ss)) => Some((r, ExprModel::Block(ss))),
                None => match read_call(s) {
                    Some(p) => Some(p),
                    None => match read_ident(s) {
                        Some((r, name)) => Some((r, ExprModel::BindingUsage(name))),
                        None => None,
                    },
                },
            },
        },
    }
}

/// `"let" WS+ ident WS* "=" WS* expr`.
pub open spec fn read_binding_def(s: Seq<char>) -> Option<(Seq<char>, StatementModel)>
    decreases s.len(), 5nat,
{
    match strip_literal(s, let_keyword()) {
        Some(r1) => if span(r1, CharClass::Whitespace) > 0 {
            match read_ident(skip_whitespace(r1)) {
                Some((r2, name)) => match strip_literal(skip_whitespace(r2), seq!['=']) {
                    Some(r3) => match read_expr(skip_whitespace(r3)) {
                        Some((r4, e)) => Some((r4, StatementModel::BindingDef(name, e))),
                        None => None,
                    },
                    None => None,
                },
                None => None,
            }
        } else {
            None
        },
        None => None,
    }
}

/// `"fn" WS+ ident WS+ (ident WS*)* "=>" WS+ statement`.
pub open spec fn read_func_def(s: Seq<char>) -> Option<(Seq<char>, StatementModel)>
    decreases s.len(), 5nat,
{
    match strip_literal(s, fn_keyword()) {
        Some(r1) => if span(r1, CharClass::Whitespace) > 0 {
            match read_ident(skip_whitespace(r1)) {
                Some((r2, name)) => if span(r2, CharClass::Whitespace) > 0 {
                    let (params, r3) = read_params(skip_whitespace(r2));
                    match strip_literal(r3, arrow()) {
                        Some(r4) => if span(r4, CharClass::Whitespace) > 0 && r4.len() < s.len() {
                            match read_statement(skip_whitespace(r4)) {
                                Some((r5, body)) => Some(
                                    (r5, StatementModel::FuncDef(name, params, Box::new(body))),
                                ),
                                None => None,
                            }
                        } else {
                            None
                        },
                        None => None,
                    }
                } else {
                    None
                },
                None => None,
            }
        } else {
            None
        },
        None => None,
    }
}

/// `binding_def | func_def | expr`, in that order.
pub open spec fn read_statement(s: Seq<char>) -> Option<(Seq<char>, StatementModel)>
    decreases s.len(), 6nat,
{
    match read_binding_def(s) {
        Some(p) => Some(p),
        None => match read_func_def(s) {
            Some(p) => Some(p),
            None => match read_expr(s) {
                Some((r, e)) => Some((r, StatementModel::Expr(e))),
                None => None,
            },
        },
    }
}

pub proof fn lemma_decimal_prefix(d: Seq<char>, j: int)
    requires
        0 <= j <= d.len(),
        forall|i: int| 0 <= i < d.len() ==> is_digit(#[trigger] d[i]),
    ensures
        0 <= decimal_value(d.subrange(0, j)) <= decimal_value(d),
    decreases d.len(),
{
    if j < d.len() {
        assert forall|i: int| 0 <= i < d.drop_last().len() implies is_digit(#[trigger] d.drop_last()[i]) by {
            assert(d.drop_last()[i] == d[i]);
        }
        lemma_decimal_prefix(d.drop_last(), j);
        assert(d.drop_last().subrange(0, j) =~= d.subrange(0, j));
        lemma_decimal_prefix(d.drop_last(), d.len() - 1);
        assert(d.drop_last().subrange(0, d.len() - 1) =~= d.drop_last());
        assert(is_digit(d.last()));
    } else {
        assert(d.subrange(0, j) =~= d);
        if d.len() > 0 {
            assert forall|i: int| 0 <= i < d.drop_last().len() implies is_digit(#[trigger] d.drop_last()[i]) by {
                assert(d.drop_last()[i] == d[i]);
            }
            lemma_decimal_prefix(d.drop_last(), d.len() - 1);
            assert(d.drop_last().subrange(0, d.len() - 1) =~= d.drop_last());
            assert(is_digit(d.last()));
        }
    }
}

} // verus!

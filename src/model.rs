//! The abstract syntax as mathematical values, and the view of the
//! executable syntax tree into it.

use vstd::prelude::*;
use crate::expr::{Expr, Op};
use crate::statement::Statement;

verus! {

/// An expression, with names as character sequences.
pub enum ExprModel {
    Number(i32),
    Operation { lhs: Box<ExprModel>, rhs: Box<ExprModel>, op: Op },
    Block(Seq<StatementModel>),
    BindingUsage(Seq<char>),
    FuncCall(Seq<char>, Seq<ExprModel>),
}

/// A statement, with names as character sequences.
pub enum StatementModel {
    Expr(ExprModel),
    BindingDef(Seq<char>, ExprModel),
    FuncDef(Seq<char>, Seq<Seq<char>>, Box<StatementModel>),
}

/// Number of nodes of an expression.
pub open spec fn expr_size(e: ExprModel) -> nat
    decreases e, 0nat,
{
    match e {
        ExprModel::Number(_) => 1,
        ExprModel::Operation { lhs, rhs, .. } => 1 + expr_size(*lhs) + expr_size(*rhs),
        ExprModel::Block(ss) => 1 + statements_size(ss, 0),
        ExprModel::BindingUsage(_) => 1,
        ExprModel::FuncCall(_, args) => 1 + exprs_size(args, 0),
    }
}

/// Number of nodes of the expressions of `es` from index `i` on.
pub open spec fn exprs_size(es: Seq<ExprModel>, i: int) -> nat
    decreases es, es.len() - i,
{
    if 0 <= i < es.len() {
        expr_size(es[i]) + exprs_size(es, i + 1)
    } else {
        0
    }
}

/// Number of nodes of a statement.
pub open spec fn statement_size(s: StatementModel) -> nat
    decreases s, 0nat,
{
    match s {
        StatementModel::Expr(e) => 1 + expr_size(e),
        StatementModel::BindingDef(_, e) => 1 + expr_size(e),
        StatementModel::FuncDef(_, _, body) => 1 + statement_size(*body),
    }
}

/// Number of nodes of the statements of `ss` from index `i` on.
pub open spec fn statements_size(ss: Seq<StatementModel>, i: int) -> nat
    decreases ss, ss.len() - i,
{
    if 0 <= i < ss.len() {
        statement_size(ss[i]) + statements_size(ss, i + 1)
    } else {
        0
    }
}

pub open spec fn names_view(v: Seq<String>) -> Seq<Seq<char>> {
    Seq::new(v.len(), |i: int| v[i]@)
}

pub open spec fn expr_view(e: Expr) -> ExprModel
    decreases e, 0nat,
{
    match e {
        Expr::Number(n) => ExprModel::Number(n.0),
        Expr::Operation { lhs, rhs, op } => ExprModel::Operation {
            lhs: Box::new(expr_view(*lhs)),
            rhs: Box::new(expr_view(*rhs)),
            op,
        },
        Expr::Block(b) => ExprModel::Block(statements_view(b.exprs@, b.exprs@.len() as int)),
        Expr::BindingUsage(u) => ExprModel::BindingUsage(u.name@),
        Expr::FuncCall(c) => ExprModel::FuncCall(c.name@, exprs_view(c.args@, c.args@.len() as int)),
    }
}

/// The views of the first `n` expressions of `v`.
pub open spec fn exprs_view(v: Seq<Expr>, n: int) -> Seq<ExprModel>
    decreases v, n,
{
    if n <= 0 || n > v.len() {
        Seq::empty()
    } else {
        exprs_view(v, n - 1).push(expr_view(v[n - 1]))
    }
}

pub open spec fn statement_view(s: Statement) -> StatementModel
    decreases s, 0nat,
{
    match s {
        Statement::Expr(e) => StatementModel::Expr(expr_view(e)),
        Statement::BindingDef(d) => StatementModel::BindingDef(d.name@, expr_view(d.val)),
        Statement::FuncDef(f) => StatementModel::FuncDef(
            f.name@,
            names_view(f.params@),
            Box::new(statement_view(*f.body)),
        ),
    }
}

/// The views of the first `n` statements of `v`.
pub open spec fn statements_view(v: Seq<Statement>, n: int) -> Seq<StatementModel>
    decreases v, n,
{
    if n <= 0 || n > v.len() {
        Seq::empty()
    } else {
        statements_view(v, n - 1).push(statement_view(v[n - 1]))
    }
}

pub proof fn lemma_exprs_view(v: Seq<Expr>, n: int)
    requires
        0 <= n <= v.len(),
    ensures
        exprs_view(v, n).len() == n,
        forall|i: int| 0 <= i < n ==> #[trigger] exprs_view(v, n)[i] == expr_view(v[i]),
    decreases n,
{
    if n > 0 {
        lemma_exprs_view(v, n - 1);
    }
}

pub proof fn lemma_statements_view(v: Seq<Statement>, n: int)
    requires
        0 <= n <= v.len(),
    ensures
        statements_view(v, n).len() == n,
        forall|i: int| 0 <= i < n ==> #[trigger] statements_view(v, n)[i] == statement_view(v[i]),
    decreases n,
{
    if n > 0 {
        lemma_statements_view(v, n - 1);
    }
}

pub proof fn lemma_exprs_size(es: Seq<ExprModel>, j: int, i: int)
    requires
        0 <= j <= i < es.len(),
    ensures
        expr_size(es[i]) < exprs_size(es, j) + 1,
        exprs_size(es, i + 1) < exprs_size(es, j),
    decreases i - j,
{
    reveal_with_fuel(expr_size, 1);
    if j < i {
        lemma_exprs_size(es, j + 1, i);
    }
}

pub proof fn lemma_statements_size(ss: Seq<StatementModel>, j: int, i: int)
    requires
        0 <= j <= i < ss.len(),
    ensures
        statement_size(ss[i]) < statements_size(ss, j) + 1,
        statements_size(ss, i + 1) < statements_size(ss, j),
    decreases i - j,
{
    reveal_with_fuel(statement_size, 1);
    if j < i {
        lemma_statements_size(ss, j + 1, i);
    }
}

} // verus!

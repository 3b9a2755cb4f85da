use vstd::math::max;
use vstd::prelude::*;

use crate::binding_def::BindingDef;
use crate::env::Env;
use crate::error::{Error, outcome};
use crate::expr::Expr;
use crate::func_def::FuncDef;
use crate::grammar::read_statement;
use crate::model::{StatementModel, statement_size, statement_view};
use crate::semantics::{env_bound, eval_statement};
use crate::val::Val;

verus! {

/// A binding, a function definition or an expression.
#[derive(Debug, PartialEq)]
pub enum Statement {
    Expr(Expr),
    BindingDef(BindingDef),
    FuncDef(FuncDef),
}

impl View for Statement {
    type V = StatementModel;

    open spec fn view(&self) -> StatementModel {
        statement_view(*self)
    }
}

impl Clone for Statement {
    fn clone(&self) -> (r: Self)
        ensures
            r@ == self@,
        decreases self,
    {
        match self {
            Statement::Expr(e) => Statement::Expr(e.clone()),
            Statement::BindingDef(d) => Statement::BindingDef(
                BindingDef { name: d.name.clone(), val: d.val.clone() },
            ),
            Statement::FuncDef(f) => Statement::FuncDef(f.clone()),
        }
    }
}

impl Statement {
    /// Runs the statement in `env`: a binding or a definition writes to the
    /// innermost scope and yields `Empty`; an expression yields its value.
    pub fn eval(&self, env: &mut Env) -> (r: Result<Val, Error>)
        ensures
            (outcome(r), final(env)@) == eval_statement(self@, old(env)@),
        decreases max(env_bound(old(env)@) as int, statement_size(self@) as int), statement_size(self@), 1nat,
    {
        match self {
            Statement::BindingDef(binding_def) => {
                match binding_def.eval(env) {
                    Ok(()) => Ok(Val::Empty),
                    Err(e) => Err(e),
                }
            },
            Statement::Expr(expr) => expr.eval(env),
            Statement::FuncDef(function_def) => function_def.eval(env),
        }
    }

    /// Reads a statement from the front of `s`, trying a binding, a function
    /// definition and an expression, in that order.
    pub fn new(s: &str) -> (r: Result<(&str, Statement), Error>)
        ensures
            match r {
                Ok((rest, st)) => read_statement(s@) == Some((rest@, st@)) && rest@.len() < s@.len(),
                Err(err) => read_statement(s@) is None && err == Error::Syntax,
            },
        decreases s@.len(), 10nat,
    {
        if let Ok((rest, def)) = BindingDef::new(s) {
            return Ok((rest, Statement::BindingDef(def)));
        }
        if let Ok((rest, def)) = FuncDef::new(s) {
            return Ok((rest, Statement::FuncDef(def)));
        }
        match Expr::new(s) {
            Ok((rest, expr)) => Ok((rest, Statement::Expr(expr))),
            Err(e) => Err(e),
        }
    }
}

} // verus!

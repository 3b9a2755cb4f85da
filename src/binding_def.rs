use vstd::math::max;
use vstd::prelude::*;

use crate::env::Env;
use crate::error::Error;
use crate::expr::Expr;
use crate::grammar::{let_keyword, read_binding_def};
use crate::model::{StatementModel, statement_size};
use crate::semantics::{BindingModel, env_bound, env_insert, eval_expr};
use crate::utils::{extract_iden, extract_whitespace, extract_whitespace1, tag};

verus! {

/// `let name = val`.
#[derive(Debug, PartialEq)]
pub struct BindingDef {
    pub name: String,
    pub val: Expr,
}

impl View for BindingDef {
    type V = StatementModel;

    open spec fn view(&self) -> StatementModel {
        StatementModel::BindingDef(self.name@, self.val@)
    }
}

impl BindingDef {
    /// Evaluates the expression in `env` and binds the name to its value in
    /// the innermost scope of `env`; on an error `env` is left as it was.
    pub fn eval(&self, env: &mut Env) -> (r: Result<(), Error>)
        ensures
            match eval_expr(self.val@, old(env)@) {
                Ok(v) => r is Ok && final(env)@ == env_insert(old(env)@, self.name@, BindingModel::Value(v)),
                Err(x) => r matches Err(e) && e@ == x && final(env)@ == old(env)@,
            },
        decreases max(env_bound(old(env)@) as int, statement_size(self@) as int), statement_size(self@), 0nat,
    {
        let value = match self.val.eval(env) {
            Ok(v) => v,
            Err(e) => return Err(e),
        };
        env.insert_binding(self.name.clone(), value);
        Ok(())
    }

    /// Reads `let`, whitespace, a name, `=` within optional whitespace, and an
    /// expression.
    pub fn new(s: &str) -> (r: Result<(&str, BindingDef), Error>)
        ensures
            match r {
                Ok((rest, d)) => read_binding_def(s@) == Some((rest@, d@)) && rest@.len() < s@.len(),
                Err(err) => read_binding_def(s@) is None && err == Error::Syntax,
            },
        decreases s@.len(), 9nat,
    {
        proof {
            reveal_strlit("let");
            reveal_strlit("=");
            assert("let"@ =~= let_keyword());
            assert("="@ =~= seq!['=']);
        }
        let s = match tag(s, "let") {
            Ok(rest) => rest,
            Err(e) => return Err(e),
        };
        let (s, _) = match extract_whitespace1(s) {
            Ok(p) => p,
            Err(e) => return Err(e),
        };
        let (s, name) = match extract_iden(s) {
            Ok(p) => p,
            Err(e) => return Err(e),
        };
        let (s, _) = extract_whitespace(s);
        let s = match tag(s, "=") {
            Ok(rest) => rest,
            Err(e) => return Err(e),
        };
        let (s, _) = extract_whitespace(s);
        let (s, expr) = match Expr::new(s) {
            Ok(p) => p,
            Err(e) => return Err(e),
        };
        Ok((s, BindingDef { name: name.to_string(), val: expr }))
    }
}

} // verus!

//! Front end and evaluator for a small expression language: numbers, one
//! binary operation per expression, `let` bindings, blocks with their own
//! scope, and single-statement functions.

use vstd::prelude::*;

pub mod binding_def;
pub mod env;
pub mod error;
pub mod expr;
pub mod func_call;
pub mod func_def;
pub mod grammar;
pub mod laws;
pub mod model;
pub mod semantics;
pub mod statement;
pub mod utils;
pub mod val;

pub use env::Env;
pub use error::Error;
pub use val::Val;

use error::outcome;
use grammar::read_statement;
use model::StatementModel;
use semantics::eval_statement;
use statement::Statement;

verus! {

/// A whole line of source, parsed into one statement.
pub struct Parse(pub Statement);

impl View for Parse {
    type V = StatementModel;

    open spec fn view(&self) -> StatementModel {
        self.0@
    }
}

impl Parse {
    fn new(statement: Statement) -> (r: Self)
        ensures
            r.0 == statement,
    {
        Parse(statement)
    }

    /// Runs the statement against `env`.
    pub fn eval(&self, env: &mut Env) -> (r: Result<Val, Error>)
        ensures
            (outcome(r), final(env)@) == eval_statement(self@, old(env)@),
    {
        self.0.eval(env)
    }
}

/// Parses `s` as exactly one statement: fails with a syntax error when no
/// statement starts it, and with `TrailingInput` when input is left after it.
pub fn parse(s: &str) -> (r: Result<Parse, Error>)
    ensures
        match read_statement(s@) {
            Some((rest, st)) => if rest.len() == 0 {
                r matches Ok(p) && p@ == st
            } else {
                r matches Err(e) && e == Error::TrailingInput
            },
            None => r matches Err(e) && e == Error::Syntax,
        },
{
    let (rest, statement) = match Statement::new(s) {
        Ok(p) => p,
        Err(e) => return Err(e),
    };
    if rest.unicode_len() == 0 {
        Ok(Parse::new(statement))
    } else {
        Err(Error::TrailingInput)
    }
}

} // verus!

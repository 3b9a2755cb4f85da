use vstd::prelude::*;

use crate::env::Env;
use crate::error::{Error, ErrorModel, outcome};
use crate::grammar::read_ident;
use crate::semantics::{BindingModel, lookup};
use crate::utils::extract_iden;
use crate::val::Val;

verus! {

/// A use of a bound name as a value.
#[derive(Debug, PartialEq)]
pub struct BindingUsage {
    pub name: String,
}

impl BindingUsage {
    /// The value the name is bound to in `env`.
    pub fn eval(&self, env: &Env) -> (r: Result<Val, Error>)
        ensures
            outcome(r) == match lookup(env@, self.name@) {
                None => Err(ErrorModel::UnknownBinding(self.name@)),
                Some(BindingModel::Value(v)) => Ok(v),
                Some(BindingModel::Function(_, _)) => Err(ErrorModel::NotAValue),
            },
    {
        env.get_binding_value(self.name.as_str())
    }

    /// Reads an identifier.
    pub fn new(s: &str) -> (r: Result<(&str, BindingUsage), Error>)
        ensures
            match r {
                Ok((rest, u)) => read_ident(s@) == Some((rest@, u.name@)) && rest@.len() < s@.len(),
                Err(err) => read_ident(s@) is None && err == Error::Syntax,
            },
    {
        match extract_iden(s) {
            Ok((rest, name)) => Ok((rest, BindingUsage { name: name.to_string() })),
            Err(e) => Err(e),
        }
    }
}

} // verus!

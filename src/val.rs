use vstd::prelude::*;
use crate::error::Error;

verus! {

/// The result of evaluating a statement or an expression: a number, or
/// nothing (what bindings, definitions and empty blocks produce).
#[derive(Debug, Clone, Copy, PartialEq, Eq, Structural)]
pub enum Val {
    Number(i32),
    Empty,
}

impl Val {
    /// The number this value holds; fails on `Empty`.
    pub fn get_number(&self) -> (r: Result<i32, Error>)
        ensures
            match *self {
                Val::Number(n) => r == Ok::<i32, Error>(n),
                Val::Empty => r == Err::<i32, Error>(Error::TypeMismatch),
            },
    {
        match self {
            Val::Number(num) => Ok(*num),
            Val::Empty => Err(Error::TypeMismatch),
        }
    }
}

} // verus!

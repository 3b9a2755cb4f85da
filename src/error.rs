use vstd::prelude::*;

verus! {

/// Why parsing or evaluation failed.
#[derive(Debug, PartialEq, Eq)]
pub enum Error {
    /// An expected literal or class of characters was not found.
    Syntax,
    /// The top-level statement did not consume the whole input.
    TrailingInput,
    /// The name is bound nowhere in the environment chain.
    UnknownBinding(String),
    /// A name bound to a function was used as a value.
    NotAValue,
    /// A name bound to a value was called as a function.
    NotAFunction,
    /// A call supplied `found` arguments to a function of `expected` parameters.
    ArityMismatch { name: String, expected: usize, found: usize },
    /// An arithmetic operand was not a number.
    TypeMismatch,
    /// The right operand of a division was zero.
    DivisionByZero,
    /// The result of an arithmetic operation does not fit in an `i32`.
    Overflow,
}

/// An `Error` with its names as character sequences.
pub enum ErrorModel {
    Syntax,
    TrailingInput,
    UnknownBinding(Seq<char>),
    NotAValue,
    NotAFunction,
    ArityMismatch { name: Seq<char>, expected: nat, found: nat },
    TypeMismatch,
    DivisionByZero,
    Overflow,
}

impl View for Error {
    type V = ErrorModel;

    open spec fn view(&self) -> ErrorModel {
        match self {
            Error::Syntax => ErrorModel::Syntax,
            Error::TrailingInput => ErrorModel::TrailingInput,
            Error::UnknownBinding(n) => ErrorModel::UnknownBinding(n@),
            Error::NotAValue => ErrorModel::NotAValue,
            Error::NotAFunction => ErrorModel::NotAFunction,
            Error::ArityMismatch { name, expected, found } => ErrorModel::ArityMismatch {
                name: name@,
                expected: *expected as nat,
                found: *found as nat,
            },
            Error::TypeMismatch => ErrorModel::TypeMismatch,
            Error::DivisionByZero => ErrorModel::DivisionByZero,
            Error::Overflow => ErrorModel::Overflow,
        }
    }
}

/// A result with its error seen through the error's view.
pub open spec fn outcome<T>(r: Result<T, Error>) -> Result<T, ErrorModel> {
    match r {
        Ok(v) => Ok(v),
        Err(e) => Err(e@),
    }
}

} // verus!

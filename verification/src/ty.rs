//! The type domain of the source language.

use vstd::prelude::*;

verus! {

/// A source-language type.  `Error` is the absorbing error type: it unifies
/// with anything and meets every expectation, so one type error does not
/// cascade into many.
#[derive(Clone, Copy, Debug, PartialEq, Eq, Structural)]
pub enum Ty {
    Bool,
    Int,
    Error,
}

/// What `unify_with` returns: the unified type, or the two types that refuse
/// to unify.
pub open spec fn spec_unify(a: Ty, b: Ty) -> Result<Ty, UnificationError> {
    if a is Error {
        Ok(b)
    } else if b is Error {
        Ok(a)
    } else if a == b {
        Ok(a)
    } else {
        Err(UnificationError { left: a, right: b })
    }
}

/// Whether a value of type `self` meets an expectation of type `expected`:
/// the types are equal, or `self` is the absorbing error type.
pub open spec fn spec_meets(a: Ty, expected: Ty) -> bool {
    a == expected || a is Error
}

impl Ty {
    /// Unifies two types: equal types unify with themselves, and the error
    /// type unifies with anything.
    pub fn unify_with(self, other: Ty) -> (r: Result<Ty, UnificationError>)
        ensures
            r == spec_unify(self, other),
    {
        match (self, other) {
            (Ty::Error, other) => Ok(other),
            (this, Ty::Error) => Ok(this),
            (Ty::Int, Ty::Int) => Ok(Ty::Int),
            (Ty::Bool, Ty::Bool) => Ok(Ty::Bool),
            (left, right) => Err(UnificationError { left, right }),
        }
    }

    /// Expects this type to be `bool`.
    pub fn expect_bool(&self) -> (r: Result<(), UnexpectedTypeError>)
        ensures
            r is Ok <==> spec_meets(*self, Ty::Bool),
            r matches Err(e) ==> e == (UnexpectedTypeError { expected: Ty::Bool, got: *self }),
    {
        self.expect(&Ty::Bool)
    }

    /// Expects this type to be `int`.
    pub fn expect_int(&self) -> (r: Result<(), UnexpectedTypeError>)
        ensures
            r is Ok <==> spec_meets(*self, Ty::Int),
            r matches Err(e) ==> e == (UnexpectedTypeError { expected: Ty::Int, got: *self }),
    {
        self.expect(&Ty::Int)
    }

    /// Expects this type to be `expected`; the error type always passes.
    pub fn expect(&self, expected: &Ty) -> (r: Result<(), UnexpectedTypeError>)
        ensures
            r is Ok <==> spec_meets(*self, *expected),
            r matches Err(e) ==> e == (UnexpectedTypeError { expected: *expected, got: *self }),
    {
        let matches_expectation = match (self, expected) {
            (Ty::Int, Ty::Int) => true,
            (Ty::Bool, Ty::Bool) => true,
            (Ty::Error, Ty::Error) => true,
            (Ty::Error, _) => true,
            _ => false,
        };
        if matches_expectation {
            Ok(())
        } else {
            Err(UnexpectedTypeError { expected: *expected, got: *self })
        }
    }
}

/// Two types that an expression would have to carry at once.
#[derive(Clone, Copy, Debug, PartialEq, Eq, Structural)]
pub struct UnificationError {
    pub left: Ty,
    pub right: Ty,
}

/// A type that failed to meet an expectation.
#[derive(Clone, Copy, Debug, PartialEq, Eq, Structural)]
pub struct UnexpectedTypeError {
    pub expected: Ty,
    pub got: Ty,
}

} // verus!

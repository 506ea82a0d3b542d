//! The closed set of semantic errors.
use vstd::prelude::*;
use crate::rules::one;

verus! {

#[derive(Debug, Clone, PartialEq, Eq)]
pub enum SemanticCheckError {
    /// A variable declared twice in one scope.
    DuplicatedVar(String),
    /// A method declared twice.
    DuplicatedMethod(String),
    /// A name used where no declaration of it is visible.
    UsedBeforeDeclared(String),
    /// The program does not have exactly one method named `main`.
    MainMethodShouldOnlyOne,
    /// `main` takes parameters.
    MainMethodArgsShouldEmpty,
    /// `main` does not return void.
    MainMethodShouldReturnVoid,
    /// An array declared with a length that is not positive.
    ArrayLenShouldPositive(String),
    /// The operand of a length-of is not an array.
    IdMustArray(String),
    /// An array index whose type is not int.
    TypeOfExprMustInt(String),
    /// A call whose argument count differs from the method's parameter count.
    MethodSignatureMismatch,
    /// A call argument whose type differs from its parameter's.
    InvalidMethodArgs,
    /// A `return` outside any method.
    InvalidReturn,
    /// A `return` whose value does not fit the method's return type.
    ReturnTypeMismatch,
    /// An `if` or `while` condition that is not bool.
    ConditionTypeShouldBool,
    /// Operands, or an assignment's sides, of types the operator does not take.
    OperandsTypeMismatch,
    /// An array used without index, or a scalar with one.
    LocationTypeMismatch,
    /// A `break` outside any loop.
    InvalidBreak,
    /// A `continue` outside any loop.
    InvalidContinue,
}

pub type IRResult<T> = Result<T, Vec<SemanticCheckError>>;

/// An error list holding `e` alone.
pub fn one_err(e: SemanticCheckError) -> (r: Vec<SemanticCheckError>)
    ensures
        r@ == one(e),
{
    let mut v = Vec::new();
    v.push(e);
    v
}

} // verus!

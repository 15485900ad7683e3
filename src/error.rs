use vstd::prelude::*;
use crate::sexpr::SExpr;
use crate::value::Value;

verus! {

/// Why an evaluation failed. Every failure is data, handed back to the caller.
#[derive(Debug)]
pub enum RLError {
    /// An identifier that no scope binds.
    Unbound(String),
    /// The head of an application evaluated to something that cannot be applied.
    NotAFunction(Value),
    /// A value where a number was needed.
    NotANumber(Value),
    /// An expression where an identifier was needed.
    NotAnIdentifier(SExpr),
    /// An expression where a list was needed.
    NotAList(SExpr),
    /// An expression whose value was not a boolean where one was needed.
    NotABool(SExpr),
    /// A value where a list was needed.
    ListExpected(Value),
    /// A value where a boolean was needed.
    BoolExpected(Value),
    /// A value where a struct instance was needed.
    StructExpected(Value),
    /// Expected exactly `.0` arguments, found `.1`.
    ArityExact(usize, usize),
    /// Expected at least `.0` arguments, found `.1`.
    ArityAtLeast(usize, usize),
    /// Expected at most `.0` arguments, found `.1`.
    ArityAtMost(usize, usize),
    /// An attempt to bind a reserved word.
    ReservedWord(String),
    /// A variadic marker on a parameter that is not the last.
    VariadicNotLast,
    /// `(define () ...)`.
    EmptyDefinition,
    /// `car` or `cdr` of the empty list.
    EmptyList,
    /// A value with no expression form (a closure, an intrinsic, a special form).
    NotQuotable(Value),
    /// A struct type that the registry does not hold.
    UnknownStruct(String),
    /// `apply` given something other than a function and a list.
    BadApplication(Value, Value),
    /// Evaluation nested deeper than the evaluator allows.
    DepthExceeded,
    /// A failure reported by an operator of the host program.
    Host(String),
}

pub fn arity_at_least(expected: usize, found: usize) -> (r: RLError)
    ensures
        r == RLError::ArityAtLeast(expected, found),
{
    RLError::ArityAtLeast(expected, found)
}

pub fn arity_at_most(expected: usize, found: usize) -> (r: RLError)
    ensures
        r == RLError::ArityAtMost(expected, found),
{
    RLError::ArityAtMost(expected, found)
}

pub fn arity_exact(expected: usize, found: usize) -> (r: RLError)
    ensures
        r == RLError::ArityExact(expected, found),
{
    RLError::ArityExact(expected, found)
}

pub fn unbound(ident: &str) -> (r: RLError)
    ensures
        r matches RLError::Unbound(s) && s@ == ident@,
{
    RLError::Unbound(String::from_str(ident))
}

pub fn not_a_function(val: &Value) -> (r: RLError)
    ensures
        r matches RLError::NotAFunction(v) && v@ == val@,
{
    RLError::NotAFunction(val.copy())
}

pub fn not_a_number(val: &Value) -> (r: RLError)
    ensures
        r matches RLError::NotANumber(v) && v@ == val@,
{
    RLError::NotANumber(val.copy())
}

pub fn not_an_identifier(val: &SExpr) -> (r: RLError)
    ensures
        r matches RLError::NotAnIdentifier(e) && e@ == val@,
{
    RLError::NotAnIdentifier(val.copy())
}

pub fn not_a_list(val: &SExpr) -> (r: RLError)
    ensures
        r matches RLError::NotAList(e) && e@ == val@,
{
    RLError::NotAList(val.copy())
}

pub fn not_a_bool(val: &SExpr) -> (r: RLError)
    ensures
        r matches RLError::NotABool(e) && e@ == val@,
{
    RLError::NotABool(val.copy())
}

/// Fails with an exact-arity error unless `found == expected`.
pub fn check_arity(expected: usize, found: usize) -> (r: Result<(), RLError>)
    ensures
        found == expected <==> r is Ok,
        found != expected ==> r == Err::<(), RLError>(RLError::ArityExact(expected, found)),
{
    if found != expected {
        Err(RLError::ArityExact(expected, found))
    } else {
        Ok(())
    }
}

pub fn reserved_word(val: &str) -> (r: RLError)
    ensures
        r matches RLError::ReservedWord(s) && s@ == val@,
{
    RLError::ReservedWord(String::from_str(val))
}

} // verus!

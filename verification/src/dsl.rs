//! Small builders for wire values.

use vstd::prelude::*;
use crate::value::{ValV, Value};

verus! {

/// An integer value.
pub fn int_val(n: i128) -> (r: Value)
    ensures
        r@ == ValV::Int(n as int),
{
    Value::Int(n)
}

/// A pair.
pub fn cons(car: Value, cdr: Value) -> (r: Value)
    ensures
        r@ == ValV::Cons(Box::new(car@), Box::new(cdr@)),
{
    let ghost a = car@;
    let ghost b = cdr@;
    let r = Value::Cons(Box::new(car), Box::new(cdr));
    proof {
        assert(r@ == ValV::Cons(Box::new(a), Box::new(b)));
    }
    r
}

/// The empty list.
pub fn nil() -> (r: Value)
    ensures
        r@ == ValV::Nil,
{
    Value::Nil
}

} // verus!

//! The raw tree produced by the parser: binary applications over the fixed
//! primitive vocabulary, integer literals and free symbol references.

use vstd::prelude::*;

verus! {

/// Mathematical model of a raw tree; symbols are character sequences and
/// integers unbounded.
pub enum AstV {
    Apply(Box<AstV>, Box<AstV>),
    Symbol(Seq<char>),
    Int(int),
    ADD,
    B,
    C,
    CAR,
    CDR,
    CONS,
    DIV,
    EQ,
    I,
    ISNIL,
    LT,
    MUL,
    NEG,
    NIL,
    S,
    T,
}

/// A raw tree. Applications are always binary: multi-argument application is
/// a left-nested chain of `Apply` nodes.
#[derive(Debug, PartialEq, Eq)]
pub enum Value {
    Apply(Box<Value>, Box<Value>),
    SYMBOL(String),
    INT(isize),
    ADD,
    B,
    C,
    CAR,
    CDR,
    CONS,
    DIV,
    EQ,
    I,
    ISNIL,
    LT,
    MUL,
    NEG,
    NIL,
    S,
    T,
}

/// The model of a raw tree.
pub open spec fn view_ast(v: Value) -> AstV
    decreases v,
{
    match v {
        Value::Apply(f, a) => AstV::Apply(Box::new(view_ast(*f)), Box::new(view_ast(*a))),
        Value::SYMBOL(s) => AstV::Symbol(s@),
        Value::INT(n) => AstV::Int(n as int),
        Value::ADD => AstV::ADD,
        Value::B => AstV::B,
        Value::C => AstV::C,
        Value::CAR => AstV::CAR,
        Value::CDR => AstV::CDR,
        Value::CONS => AstV::CONS,
        Value::DIV => AstV::DIV,
        Value::EQ => AstV::EQ,
        Value::I => AstV::I,
        Value::ISNIL => AstV::ISNIL,
        Value::LT => AstV::LT,
        Value::MUL => AstV::MUL,
        Value::NEG => AstV::NEG,
        Value::NIL => AstV::NIL,
        Value::S => AstV::S,
        Value::T => AstV::T,
    }
}

impl View for Value {
    type V = AstV;

    open spec fn view(&self) -> AstV {
        view_ast(*self)
    }
}

impl Clone for Value {
    fn clone(&self) -> (r: Self)
        ensures
            r@ == self@,
        decreases self,
    {
        match self {
            Value::Apply(f, a) => Value::Apply(Box::new((**f).clone()), Box::new((**a).clone())),
            Value::SYMBOL(s) => Value::SYMBOL(s.clone()),
            Value::INT(n) => Value::INT(*n),
            Value::ADD => Value::ADD,
            Value::B => Value::B,
            Value::C => Value::C,
            Value::CAR => Value::CAR,
            Value::CDR => Value::CDR,
            Value::CONS => Value::CONS,
            Value::DIV => Value::DIV,
            Value::EQ => Value::EQ,
            Value::I => Value::I,
            Value::ISNIL => Value::ISNIL,
            Value::LT => Value::LT,
            Value::MUL => Value::MUL,
            Value::NEG => Value::NEG,
            Value::NIL => Value::NIL,
            Value::S => Value::S,
            Value::T => Value::T,
        }
    }
}

/// One named top-level definition: `<name> = <right-hand side>`.
#[derive(Debug)]
pub struct Definition {
    pub name: String,
    pub value: Box<Value>,
}

impl Definition {
    pub fn new(name: String, value: Box<Value>) -> (d: Self)
        ensures
            d.name == name,
            d.value == value,
    {
        Self { name, value }
    }
}

} // verus!

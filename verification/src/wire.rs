//! The session bootstrap's own value type: the same modulation as the rest
//! of the client, with a dotted, quoted-nil textual form.

use vstd::prelude::*;
use vstd::string::{StrSliceExecFns, StringExecFns};
use crate::value;
use crate::value::ValV;

verus! {

/// A data value as the session bootstrap holds it.
#[derive(Debug)]
pub enum Value {
    Int(i128),
    Nil,
    Cons(Box<Value>, Box<Value>),
}

pub open spec fn view_wval(v: Value) -> ValV
    decreases v,
{
    match v {
        Value::Int(n) => ValV::Int(n as int),
        Value::Nil => ValV::Nil,
        Value::Cons(h, t) => ValV::Cons(Box::new(view_wval(*h)), Box::new(view_wval(*t))),
    }
}

impl View for Value {
    type V = ValV;

    open spec fn view(&self) -> ValV {
        view_wval(*self)
    }
}

fn to_core(v: &Value) -> (r: value::Value)
    ensures
        r@ == v@,
    decreases v,
{
    match v {
        Value::Int(n) => value::Value::Int(*n),
        Value::Nil => value::Value::Nil,
        Value::Cons(h, t) => value::Value::Cons(Box::new(to_core(h)), Box::new(to_core(t))),
    }
}

fn from_core(v: &value::Value) -> (r: Value)
    ensures
        r@ == v@,
    decreases v,
{
    match v {
        value::Value::Int(n) => Value::Int(*n),
        value::Value::Nil => Value::Nil,
        value::Value::Cons(h, t) => Value::Cons(Box::new(from_core(h)), Box::new(from_core(t))),
    }
}

/// Appends the modulation of `val` to `v`.
pub fn modulate(val: &Value, v: &mut Vec<bool>)
    requires
        value::val_in_range(val@),
    ensures
        final(v)@ == old(v)@ + value::mod_bits(val@),
{
    let core = to_core(val);
    value::modulate(&core, v);
}

/// Decodes one value from `bits` at `pos`.
pub fn demodulate(bits: &Vec<bool>, pos: &mut usize) -> (r: Option<Value>)
    requires
        *old(pos) <= bits@.len(),
    ensures
        *final(pos) <= bits@.len(),
        match r {
            Some(v) => value::demod_at(
                bits@,
                *old(pos) as int,
                value::dfuel(bits@, *old(pos) as int),
            ) == Some((v@, *final(pos) as int)),
            None => value::demod_at(
                bits@,
                *old(pos) as int,
                value::dfuel(bits@, *old(pos) as int),
            ) is None,
        },
{
    match value::demodulate(bits, pos) {
        Some(core) => Some(from_core(&core)),
        None => None,
    }
}

/// The modulation of a value as a string of digits.
pub fn modulate_to_string(val: &Value) -> (r: String)
    requires
        value::val_in_range(val@),
    ensures
        r@ == value::bits_text(value::mod_bits(val@)),
{
    let core = to_core(val);
    value::modulate_to_string(&core)
}

/// Decodes a whole signal string.
pub fn demodulate_from_string(s: &str) -> (r: Option<Value>)
    ensures
        match r {
            Some(v) => value::demod_at(
                value::text_bits(s@),
                0,
                value::dfuel(value::text_bits(s@), 0),
            ) matches Some((vv, j)) && vv == v@,
            None => value::demod_at(
                value::text_bits(s@),
                0,
                value::dfuel(value::text_bits(s@), 0),
            ) is None,
        },
{
    match value::demodulate_from_string(s) {
        Some(core) => Some(from_core(&core)),
        None => None,
    }
}

/// The printed form here: always dotted pairs, and nil with a quote.
pub open spec fn wval_text(v: ValV) -> Seq<char>
    decreases v,
{
    match v {
        ValV::Int(n) => crate::names::dec_int(n),
        ValV::Nil => "'nil"@,
        ValV::Cons(h, t) => "("@ + wval_text(*h) + " . "@ + wval_text(*t) + ")"@,
    }
}

impl Value {
    /// The printed form of the value.
    pub fn to_string(&self) -> (r: String)
        ensures
            r@ == wval_text(self@),
        decreases self,
    {
        match self {
            Value::Int(n) => crate::names::i128_to_string(*n),
            Value::Nil => String::from_str("'nil"),
            Value::Cons(h, t) => {
                let mut out = String::from_str("(");
                let hs = h.to_string();
                out.append(hs.as_str());
                out.append(" . ");
                let ts = t.to_string();
                out.append(ts.as_str());
                out.append(")");
                out
            },
        }
    }
}

} // verus!

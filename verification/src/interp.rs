//! The interactive runner's expression and value types: application trees
//! over atoms, the shared signal modulation, and the s-expression reader.

use vstd::prelude::*;
use vstd::string::{StrSliceExecFns, StringExecFns};
use crate::value;
use crate::value::ValV;

verus! {

/// Mathematical model of a runner expression.
pub enum ExprM {
    Lam(Seq<char>, Box<ExprM>),
    App(Box<ExprM>, Box<ExprM>),
    Atom(Seq<char>),
    Int(int),
}

/// The body of an expression node: an abstraction, an application, a named
/// atom, or an integer literal.
#[derive(Debug)]
pub enum ExprValue {
    Lam(String, Box<Expr>),
    App(Box<Expr>, Box<Expr>),
    Atom(String),
    Int(i64),
}

/// An expression node.
#[derive(Debug)]
pub struct Expr {
    pub value: Box<ExprValue>,
}

pub open spec fn view_iexpr(e: Expr) -> ExprM
    decreases e,
{
    match *e.value {
        ExprValue::Lam(x, b) => ExprM::Lam(x@, Box::new(view_iexpr(*b))),
        ExprValue::App(f, a) => ExprM::App(Box::new(view_iexpr(*f)), Box::new(view_iexpr(*a))),
        ExprValue::Atom(s) => ExprM::Atom(s@),
        ExprValue::Int(n) => ExprM::Int(n as int),
    }
}

impl View for Expr {
    type V = ExprM;

    open spec fn view(&self) -> ExprM {
        view_iexpr(*self)
    }
}

impl Expr {
    /// Wraps one node body.
    pub fn new(v: ExprValue) -> (r: Expr)
        ensures
            r.value == v,
    {
        Expr { value: Box::new(v) }
    }

    /// An atom node.
    pub fn make_atom(s: &str) -> (r: Expr)
        ensures
            r@ == ExprM::Atom(s@),
    {
        Expr::new(ExprValue::Atom(String::from_str(s)))
    }

    /// An integer node.
    pub fn make_int(n: i64) -> (r: Expr)
        ensures
            r@ == ExprM::Int(n as int),
    {
        Expr::new(ExprValue::Int(n))
    }

    /// An application node.
    pub fn make_app(f: Expr, x: Expr) -> (r: Expr)
        ensures
            r@ == ExprM::App(Box::new(f@), Box::new(x@)),
    {
        let ghost fv = f@;
        let ghost xv = x@;
        let r = Expr::new(ExprValue::App(Box::new(f), Box::new(x)));
        proof {
            assert(r@ == ExprM::App(Box::new(fv), Box::new(xv)));
        }
        r
    }
}

/// An application node.
pub fn app(f: Expr, x: Expr) -> (r: Expr)
    ensures
        r@ == ExprM::App(Box::new(f@), Box::new(x@)),
{
    Expr::make_app(f, x)
}

/// An atom node.
pub fn atom(name: &str) -> (r: Expr)
    ensures
        r@ == ExprM::Atom(name@),
{
    Expr::make_atom(name)
}

/// The true constant.
pub fn tt() -> (r: Expr)
    ensures
        r@ == ExprM::Atom("t"@),
{
    Expr::make_atom("t")
}

/// The false constant.
pub fn ff() -> (r: Expr)
    ensures
        r@ == ExprM::Atom("f"@),
{
    Expr::make_atom("f")
}

/// A boolean as its constant atom.
pub fn bool(b: core::primitive::bool) -> (r: Expr)
    ensures
        b ==> r@ == ExprM::Atom("t"@),
        !b ==> r@ == ExprM::Atom("f"@),
{
    if b {
        tt()
    } else {
        ff()
    }
}

/// An integer node.
pub fn int_node(n: i64) -> (r: Expr)
    ensures
        r@ == ExprM::Int(n as int),
{
    Expr::make_int(n)
}

/// A data value with machine-word integers, as the runner exchanges them.
#[derive(Debug, PartialEq, Eq)]
pub enum Value {
    Int(i64),
    Nil,
    Cons(Box<Value>, Box<Value>),
}

pub open spec fn view_ival(v: Value) -> ValV
    decreases v,
{
    match v {
        Value::Int(n) => ValV::Int(n as int),
        Value::Nil => ValV::Nil,
        Value::Cons(h, t) => ValV::Cons(Box::new(view_ival(*h)), Box::new(view_ival(*t))),
    }
}

impl View for Value {
    type V = ValV;

    open spec fn view(&self) -> ValV {
        view_ival(*self)
    }
}

impl Value {
    /// The empty list.
    pub fn nil() -> (r: Value)
        ensures
            r@ == ValV::Nil,
    {
        Value::Nil
    }

    /// A pair.
    pub fn cons(a: Value, b: Value) -> (r: Value)
        ensures
            r@ == ValV::Cons(Box::new(a@), Box::new(b@)),
    {
        let ghost av = a@;
        let ghost bv = b@;
        let r = Value::Cons(Box::new(a), Box::new(b));
        proof {
            assert(r@ == ValV::Cons(Box::new(av), Box::new(bv)));
        }
        r
    }

    /// An integer value.
    pub fn int_val(n: i64) -> (r: Value)
        ensures
            r@ == ValV::Int(n as int),
    {
        Value::Int(n)
    }

    /// A proper list of the given elements.
    pub fn list(v: Vec<Value>) -> (r: Value)
        ensures
            r@ == list_of(v@.map_values(|x: Value| x@)),
    {
        let ghost vs = v@.map_values(|x: Value| x@);
        let mut ret = Value::Nil;
        let mut v = v;
        proof {
            assert(vs.skip(vs.len() as int) =~= Seq::<ValV>::empty());
        }
        while v.len() > 0
            invariant
                v@.len() <= vs.len(),
                vs == v@.map_values(|x: Value| x@) + vs.skip(v@.len() as int),
                ret@ == list_of(vs.skip(v@.len() as int)),
            decreases v@.len(),
        {
            let ghost vlen = v@.len();
            let x = v.pop().unwrap();
            proof {
                assert(v@.map_values(|x2: Value| x2@) =~= vs.take(vlen - 1));
                assert(vs.skip(vlen - 1)[0] == vs[vlen - 1]);
                assert(vs[vlen - 1] == x@);
                assert(vs.skip(vlen - 1).skip(1) =~= vs.skip(vlen as int));
            }
            ret = Value::cons(x, ret);
            proof {
                assert(v@.map_values(|x2: Value| x2@) + vs.skip(v@.len() as int) =~= vs);
            }
        }
        proof {
            assert(vs.skip(0) =~= vs);
        }
        ret
    }

    /// Appends the modulation of the value to `v`.
    pub fn modulate(&self, v: &mut Vec<bool>)
        ensures
            final(v)@ == old(v)@ + value::mod_bits(self@),
    {
        proof {
            lemma_ival_fits(*self);
        }
        let core = to_core(self);
        value::modulate(&core, v);
    }

    /// Decodes one value from `bits` at `pos`; integers beyond the machine
    /// word are rejected.
    pub fn demodulate(bits: &Vec<bool>, pos: &mut usize) -> (r: Option<Value>)
        requires
            *old(pos) <= bits@.len(),
        ensures
            *final(pos) <= bits@.len(),
            r matches Some(v) ==> value::demod_at(
                bits@,
                *old(pos) as int,
                value::dfuel(bits@, *old(pos) as int),
            ) matches Some((vv, j)) && vv == v@ && j == *final(pos) as int,
    {
        match value::demodulate(bits, pos) {
            Some(core) => from_core(&core),
            None => None,
        }
    }

    /// The dotted printed form.
    pub fn print(&self) -> (r: String)
        ensures
            r@ == ival_text(self@),
        decreases self,
    {
        match self {
            Value::Int(n) => crate::names::i64_to_string(*n),
            Value::Nil => String::from_str("nil"),
            Value::Cons(h, t) => {
                let mut out = String::from_str("(");
                let hs = h.print();
                out.append(hs.as_str());
                out.append(" . ");
                let ts = t.print();
                out.append(ts.as_str());
                out.append(")");
                out
            },
        }
    }

    /// The s-expression form: like the dotted form, with `()` for nil.
    pub fn to_sexp(&self) -> (r: String)
        ensures
            r@ == ival_sexp(self@),
        decreases self,
    {
        match self {
            Value::Int(n) => crate::names::i64_to_string(*n),
            Value::Nil => String::from_str("()"),
            Value::Cons(h, t) => {
                let mut out = String::from_str("(");
                let hs = h.to_sexp();
                out.append(hs.as_str());
                out.append(" . ");
                let ts = t.to_sexp();
                out.append(ts.as_str());
                out.append(")");
                out
            },
        }
    }

    /// The raw wire form, with explicit `ap ap cons` applications.
    pub fn to_raw(&self) -> (r: String)
        ensures
            r@ == ival_raw(self@),
        decreases self,
    {
        match self {
            Value::Int(n) => crate::names::i64_to_string(*n),
            Value::Nil => String::from_str("nil"),
            Value::Cons(h, t) => {
                let mut out = String::from_str("ap ap cons ");
                let hs = h.to_raw();
                out.append(hs.as_str());
                out.append(" ");
                let ts = t.to_raw();
                out.append(ts.as_str());
                out
            },
        }
    }
}

/// A proper list value with the given elements.
pub open spec fn list_of(vs: Seq<ValV>) -> ValV
    decreases vs.len(),
{
    if vs.len() == 0 {
        ValV::Nil
    } else {
        ValV::Cons(Box::new(vs[0]), Box::new(list_of(vs.skip(1))))
    }
}

pub open spec fn ival_text(v: ValV) -> Seq<char>
    decreases v,
{
    match v {
        ValV::Int(n) => crate::names::dec_int(n),
        ValV::Nil => "nil"@,
        ValV::Cons(h, t) => "("@ + ival_text(*h) + " . "@ + ival_text(*t) + ")"@,
    }
}

pub open spec fn ival_sexp(v: ValV) -> Seq<char>
    decreases v,
{
    match v {
        ValV::Int(n) => crate::names::dec_int(n),
        ValV::Nil => "()"@,
        ValV::Cons(h, t) => "("@ + ival_sexp(*h) + " . "@ + ival_sexp(*t) + ")"@,
    }
}

pub open spec fn ival_raw(v: ValV) -> Seq<char>
    decreases v,
{
    match v {
        ValV::Int(n) => crate::names::dec_int(n),
        ValV::Nil => "nil"@,
        ValV::Cons(h, t) => "ap ap cons "@ + ival_raw(*h) + " "@ + ival_raw(*t),
    }
}

pub open spec fn fits_word(v: ValV) -> bool
    decreases v,
{
    match v {
        ValV::Int(n) => i64::MIN <= n <= i64::MAX,
        ValV::Nil => true,
        ValV::Cons(h, t) => fits_word(*h) && fits_word(*t),
    }
}

proof fn lemma_ival_fits(v: Value)
    ensures
        value::val_in_range(view_ival(v)),
    decreases v,
{
    match v {
        Value::Cons(h, t) => {
            lemma_ival_fits(*h);
            lemma_ival_fits(*t);
        },
        _ => {},
    }
}

fn to_core(v: &Value) -> (r: value::Value)
    ensures
        r@ == v@,
    decreases v,
{
    match v {
        Value::Int(n) => value::Value::Int(*n as i128),
        Value::Nil => value::Value::Nil,
        Value::Cons(h, t) => value::Value::Cons(Box::new(to_core(h)), Box::new(to_core(t))),
    }
}

fn from_core(v: &value::Value) -> (r: Option<Value>)
    ensures
        r matches Some(v2) ==> v2@ == v@,
        r is None ==> !fits_word(v@),
    decreases v,
{
    match v {
        value::Value::Int(n) => {
            if *n >= i64::MIN as i128 && *n <= i64::MAX as i128 {
                Some(Value::Int(*n as i64))
            } else {
                None
            }
        },
        value::Value::Nil => Some(Value::Nil),
        value::Value::Cons(h, t) => {
            let h2 = from_core(h)?;
            let t2 = from_core(t)?;
            Some(Value::Cons(Box::new(h2), Box::new(t2)))
        },
    }
}

/// The modulation of a value as a bit vector.
pub fn modulate(v: &Value) -> (r: Vec<bool>)
    ensures
        r@ == value::mod_bits(v@),
{
    let mut ret: Vec<bool> = Vec::new();
    v.modulate(&mut ret);
    proof {
        assert(Seq::<bool>::empty() + value::mod_bits(v@) =~= value::mod_bits(v@));
    }
    ret
}

/// Decodes a whole bit vector: the signal must hold exactly one value.
pub fn demodulate(v: &Vec<bool>) -> (r: Option<Value>)
    ensures
        r matches Some(val) ==> value::demod_at(v@, 0, value::dfuel(v@, 0)) matches Some(
            (vv, j),
        ) && vv == val@ && j == v@.len(),
{
    let mut pos: usize = 0;
    let ret = Value::demodulate(v, &mut pos);
    match ret {
        Some(val) => {
            if pos == v.len() {
                Some(val)
            } else {
                None
            }
        },
        None => None,
    }
}

/// A bit vector as a string of `0` and `1`.
pub fn encode(v: &Vec<bool>) -> (r: String)
    ensures
        r@ == value::bits_text(v@),
{
    crate::modtool::vec_to_str(v)
}

/// A string as a bit vector.
pub fn decode(s: &str) -> (r: Vec<bool>)
    ensures
        r@ == value::text_bits(s@),
{
    crate::modtool::vec_from_str(s)
}

impl Value {
    /// Reads an s-expression: integers, `()`, proper lists `(a b c)` and
    /// dotted tails `(a b . c)`, over whitespace-separated pieces.
    pub fn parse_sexp_str(s: &str) -> (r: Option<Value>)
    {
        let len = s.unicode_len();
        let mut pos: usize = 0;
        let v = Value::parse_sexp_at(s, len, &mut pos, 0)?;
        // nothing but whitespace may follow
        while pos < len
            invariant
                pos <= len,
                len == s@.len(),
            decreases len - pos,
        {
            let c = s.get_char(pos);
            if !(c == ' ' || c == '\t' || c == '\n' || c == '\r') {
                return None;
            }
            pos = pos + 1;
        }
        Some(v)
    }

    #[verifier::loop_isolation(false)]
    fn parse_sexp_at(s: &str, len: usize, pos: &mut usize, depth: usize) -> (r: Option<Value>)
        requires
            len == s@.len(),
            *old(pos) <= len,
            depth <= len,
        ensures
            *final(pos) <= len,
        decreases len - depth, 1int,
    {
        Value::skip_ws(s, len, pos);
        if *pos >= len {
            return None;
        }
        let c = s.get_char(*pos);
        if c == '(' {
            if depth >= len {
                return None;
            }
            *pos = *pos + 1;
            let mut elems: Vec<Value> = Vec::new();
            loop
                invariant
                    *pos <= len,
                decreases len - *pos,
            {
                Value::skip_ws(s, len, pos);
                if *pos >= len {
                    return None;
                }
                let c2 = s.get_char(*pos);
                if c2 == ')' {
                    *pos = *pos + 1;
                    return Some(Value::list(elems));
                }
                if c2 == '.' {
                    *pos = *pos + 1;
                    let mut tail = Value::parse_sexp_at(s, len, pos, depth + 1)?;
                    Value::skip_ws(s, len, pos);
                    if *pos >= len || s.get_char(*pos) != ')' {
                        return None;
                    }
                    *pos = *pos + 1;
                    let mut i = elems.len();
                    while i > 0
                        invariant
                            i == elems@.len(),
                        decreases i,
                    {
                        i = i - 1;
                        let x = elems.pop().unwrap();
                        tail = Value::cons(x, tail);
                    }
                    return Some(tail);
                }
                let pos0 = *pos;
                let e = Value::parse_sexp_at(s, len, pos, depth + 1)?;
                elems.push(e);
                if *pos <= pos0 {
                    // no progress: reject rather than spin
                    return None;
                }
            }
        } else if c == '-' || ('0' <= c && c <= '9') {
            let neg = c == '-';
            let mut x: i64 = if neg {
                0
            } else {
                (c as u32 as i64) - 48
            };
            if x < 0 || x > 9 {
                return None;
            }
            *pos = *pos + 1;
            let mut any = !neg;
            while *pos < len && '0' <= s.get_char(*pos) && s.get_char(*pos) <= '9'
                invariant
                    *pos <= len,
                    0 <= x,
                decreases len - *pos,
            {
                let d = (s.get_char(*pos) as u32 as i64) - 48;
                if d < 0 || d > 9 {
                    return None;
                }
                if x > 922_337_203_685_477_579i64 {
                    return None;
                }
                x = x * 10 + d;
                any = true;
                *pos = *pos + 1;
            }
            if !any {
                return None;
            }
            Some(Value::Int(if neg {
                -x
            } else {
                x
            }))
        } else {
            None
        }
    }

    fn skip_ws(s: &str, len: usize, pos: &mut usize)
        requires
            len == s@.len(),
            *old(pos) <= len,
        ensures
            *old(pos) <= *final(pos) <= len,
    {
        while *pos < len
            invariant
                *old(pos) <= *pos <= len,
                len == s@.len(),
            decreases len - *pos,
        {
            let c = s.get_char(*pos);
            if !(c == ' ' || c == '\t' || c == '\n' || c == '\r') {
                return ;
            }
            *pos = *pos + 1;
        }
    }
}

} // verus!

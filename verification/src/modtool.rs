//! The stand-alone modulation tool's value type: machine-word integers, a
//! comma-separated textual form, and the shared signal modulation.

use vstd::prelude::*;
use vstd::string::{StrSliceExecFns, StringExecFns};
use crate::value;
use crate::value::ValV;

verus! {

/// A data value with machine-word integers.
#[derive(Debug)]
pub enum Value {
    Int(i64),
    Nil,
    Cons(Box<Value>, Box<Value>),
}

/// The model of a tool value, shared with the core modulation.
pub open spec fn view_mval(v: Value) -> ValV
    decreases v,
{
    match v {
        Value::Int(n) => ValV::Int(n as int),
        Value::Nil => ValV::Nil,
        Value::Cons(h, t) => ValV::Cons(Box::new(view_mval(*h)), Box::new(view_mval(*t))),
    }
}

impl View for Value {
    type V = ValV;

    open spec fn view(&self) -> ValV {
        view_mval(*self)
    }
}

/// Every integer of the value fits the machine word here.
pub open spec fn fits_i64(v: ValV) -> bool
    decreases v,
{
    match v {
        ValV::Int(n) => i64::MIN <= n <= i64::MAX,
        ValV::Nil => true,
        ValV::Cons(h, t) => fits_i64(*h) && fits_i64(*t),
    }
}

fn to_core(v: &Value) -> (r: value::Value)
    ensures
        r@ == v@,
    decreases v,
{
    match v {
        Value::Int(n) => value::Value::Int(*n as i128),
        Value::Nil => value::Value::Nil,
        Value::Cons(h, t) => value::Value::Cons(Box::new(to_core(h)), Box::new(to_core(t))),
    }
}

fn from_core(v: &value::Value) -> (r: Option<Value>)
    ensures
        r matches Some(v2) ==> v2@ == v@ && fits_i64(v@),
        r is None ==> !fits_i64(v@),
    decreases v,
{
    match v {
        value::Value::Int(n) => {
            if *n >= i64::MIN as i128 && *n <= i64::MAX as i128 {
                Some(Value::Int(*n as i64))
            } else {
                None
            }
        },
        value::Value::Nil => Some(Value::Nil),
        value::Value::Cons(h, t) => {
            let h2 = from_core(h)?;
            let t2 = from_core(t)?;
            Some(Value::Cons(Box::new(h2), Box::new(t2)))
        },
    }
}

/// Appends the modulation of `val` to `v`.
pub fn modulate(val: &Value, v: &mut Vec<bool>)
    ensures
        final(v)@ == old(v)@ + value::mod_bits(val@),
{
    proof {
        lemma_mval_fits(*val);
        lemma_fits_range(val@);
    }
    let core = to_core(val);
    value::modulate(&core, v);
}

/// A tool value's integers always fit the machine word, so its modulation is
/// always in range.
proof fn lemma_mval_fits(v: Value)
    ensures
        fits_i64(view_mval(v)),
    decreases v,
{
    match v {
        Value::Cons(h, t) => {
            lemma_mval_fits(*h);
            lemma_mval_fits(*t);
        },
        _ => {},
    }
}

proof fn lemma_fits_range(v: ValV)
    ensures
        fits_i64(v) ==> value::val_in_range(v),
    decreases v,
{
    match v {
        ValV::Cons(h, t) => {
            lemma_fits_range(*h);
            lemma_fits_range(*t);
        },
        _ => {},
    }
}


/// Decodes one value; integers beyond the machine word are rejected.
pub fn demodulate(bits: &Vec<bool>, pos: &mut usize) -> (r: Option<Value>)
    requires
        *old(pos) <= bits@.len(),
    ensures
        *final(pos) <= bits@.len(),
        match r {
            Some(v) => value::demod_at(
                bits@,
                *old(pos) as int,
                value::dfuel(bits@, *old(pos) as int),
            ) matches Some((vv, j)) && vv == v@ && j == *final(pos) as int,
            None => value::demod_at(
                bits@,
                *old(pos) as int,
                value::dfuel(bits@, *old(pos) as int),
            ) matches Some((vv, j)) ==> !fits_i64(vv),
        },
{
    match value::demodulate(bits, pos) {
        Some(core) => from_core(&core),
        None => None,
    }
}

/// The modulation of a value as a string of digits.
pub fn modulate_to_string(val: &Value) -> (r: String)
    ensures
        r@ == value::bits_text(value::mod_bits(val@)),
{
    let mut v: Vec<bool> = Vec::new();
    modulate(val, &mut v);
    proof {
        assert(Seq::<bool>::empty() + value::mod_bits(val@) =~= value::mod_bits(val@));
    }
    vec_to_str(&v)
}

/// A bit vector as a string of `0` and `1`.
pub fn vec_to_str(v: &Vec<bool>) -> (r: String)
    ensures
        r@ == value::bits_text(v@),
{
    let mut out = String::new();
    let mut i: usize = 0;
    proof {
        assert(out@ =~= value::bits_text(v@).take(0));
    }
    while i < v.len()
        invariant
            i <= v@.len(),
            out@ == value::bits_text(v@).take(i as int),
        decreases v@.len() - i,
    {
        if v[i] {
            out.append("1");
        } else {
            out.append("0");
        }
        proof {
            reveal_strlit("0");
            reveal_strlit("1");
            assert(value::bits_text(v@)[i as int] == (if v@[i as int] {
                '1'
            } else {
                '0'
            }));
            assert(out@ =~= value::bits_text(v@).take(i + 1));
        }
        i = i + 1;
    }
    proof {
        assert(value::bits_text(v@).take(v@.len() as int) =~= value::bits_text(v@));
    }
    out
}

/// A string as a bit vector: `1` is set, anything else clear.
pub fn vec_from_str(s: &str) -> (r: Vec<bool>)
    ensures
        r@ == value::text_bits(s@),
{
    let len = s.unicode_len();
    let mut bits: Vec<bool> = Vec::new();
    let mut i: usize = 0;
    proof {
        assert(bits@ =~= value::text_bits(s@).take(0));
    }
    while i < len
        invariant
            i <= len,
            len == s@.len(),
            bits@ == value::text_bits(s@).take(i as int),
        decreases len - i,
    {
        let c = s.get_char(i);
        bits.push(c == '1');
        proof {
            assert(value::text_bits(s@)[i as int] == (s@[i as int] == '1'));
            assert(bits@ =~= value::text_bits(s@).take(i + 1));
        }
        i = i + 1;
    }
    proof {
        assert(value::text_bits(s@).take(s@.len() as int) =~= value::text_bits(s@));
    }
    bits
}

/// The printed form of a tool value: pairs as `(car, cdr)`.
pub open spec fn mval_text(v: ValV) -> Seq<char>
    decreases v,
{
    match v {
        ValV::Int(n) => crate::names::dec_int(n),
        ValV::Nil => "nil"@,
        ValV::Cons(h, t) => "("@ + mval_text(*h) + ", "@ + mval_text(*t) + ")"@,
    }
}

impl Value {
    /// The printed form of the value.
    pub fn to_string(&self) -> (r: String)
        ensures
            r@ == mval_text(self@),
        decreases self,
    {
        match self {
            Value::Int(n) => crate::names::i64_to_string(*n),
            Value::Nil => String::from_str("nil"),
            Value::Cons(h, t) => {
                let mut out = String::from_str("(");
                let hs = h.to_string();
                out.append(hs.as_str());
                out.append(", ");
                let ts = t.to_string();
                out.append(ts.as_str());
                out.append(")");
                out
            },
        }
    }

    /// Reads a value back from its printed form: an integer, `nil`, or a
    /// parenthesised `(car, cdr)` pair, with spaces allowed before each
    /// piece. Rejects anything else.
    pub fn from_str(s: &str) -> (r: Option<Value>)
        ensures
            r matches Some(v) ==> fits_i64(v@),
    {
        let len = s.unicode_len();
        let mut pos: usize = 0;
        Value::parse_at(s, len, &mut pos, 0)
    }

    /// One recursive descent step; the depth counter bounds nesting by the
    /// remaining text.
    #[verifier::loop_isolation(false)]
    fn parse_at(s: &str, len: usize, pos: &mut usize, depth: usize) -> (r: Option<Value>)
        requires
            len == s@.len(),
            *old(pos) <= len,
            depth <= len,
        ensures
            *final(pos) <= len,
            r matches Some(v) ==> fits_i64(v@),
        decreases len - depth,
    {
        // skip spaces
        while *pos < len && s.get_char(*pos) == ' '
            invariant
                *pos <= len,
            decreases len - *pos,
        {
            *pos = *pos + 1;
        }
        if *pos >= len {
            return None;
        }
        let c = s.get_char(*pos);
        if c == '(' {
            if depth >= len {
                return None;
            }
            *pos = *pos + 1;
            let x = Value::parse_at(s, len, pos, depth + 1)?;
            // find the comma
            while *pos < len && s.get_char(*pos) != ','
                invariant
                    *pos <= len,
                decreases len - *pos,
            {
                *pos = *pos + 1;
            }
            if *pos >= len {
                return None;
            }
            *pos = *pos + 1;
            let y = Value::parse_at(s, len, pos, depth + 1)?;
            while *pos < len && s.get_char(*pos) != ')'
                invariant
                    *pos <= len,
                decreases len - *pos,
            {
                *pos = *pos + 1;
            }
            if *pos >= len {
                return None;
            }
            *pos = *pos + 1;
            Some(Value::Cons(Box::new(x), Box::new(y)))
        } else if c == 'n' {
            *pos = if len - *pos >= 3 {
                *pos + 3
            } else {
                len
            };
            Some(Value::Nil)
        } else if c == '-' || ('0' <= c && c <= '9') {
            let neg = c == '-';
            let mut x: i64 = if neg {
                0
            } else {
                (c as u32 as i64) - 48
            };
            if x < 0 || x > 9 {
                return None;
            }
            *pos = *pos + 1;
            while *pos < len && '0' <= s.get_char(*pos) && s.get_char(*pos) <= '9'
                invariant
                    *pos <= len,
                    0 <= x,
                decreases len - *pos,
            {
                let d = (s.get_char(*pos) as u32 as i64) - 48;
                if d < 0 || d > 9 {
                    return None;
                }
                if x > 922_337_203_685_477_579i64 {
                    return None;
                }
                x = x * 10 + d;
                *pos = *pos + 1;
            }
            Some(Value::Int(if neg {
                -x
            } else {
                x
            }))
        } else {
            None
        }
    }
}

} // verus!

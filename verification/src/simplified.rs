//! The structural simplifier: recognizes the two closed boolean-false
//! encodings and folds fully applied `cons` chains into literal list nodes.

use vstd::prelude::*;
use crate::lambda;
use crate::lambda::LamV;
use crate::names::str_eq;

verus! {

/// Mathematical model of a simplified tree.
pub enum SimpV {
    Func(Seq<char>, Box<SimpV>),
    Apply(Box<SimpV>, Box<SimpV>),
    List(Seq<SimpV>),
    Symbol(Seq<char>),
    Int(int),
    ADD,
    CAR,
    CDR,
    CONS,
    DIV,
    EQ,
    ISNIL,
    LT,
    MUL,
    NEG,
    T,
    F,
}

/// A simplified tree: the lambda vocabulary with `nil` replaced by literal
/// lists, plus a literal boolean-false node.
#[derive(Debug, PartialEq, Eq)]
pub enum Value {
    Func(String, Box<Value>),
    Apply(Box<Value>, Box<Value>),
    List(Vec<Value>),
    SYMBOL(String),
    INT(isize),
    ADD,
    CAR,
    CDR,
    CONS,
    DIV,
    EQ,
    ISNIL,
    LT,
    MUL,
    NEG,
    T,
    F,
}

/// The model of a simplified tree.
pub open spec fn view_simp(v: Value) -> SimpV
    decreases v,
{
    match v {
        Value::Func(p, b) => SimpV::Func(p@, Box::new(view_simp(*b))),
        Value::Apply(f, a) => SimpV::Apply(Box::new(view_simp(*f)), Box::new(view_simp(*a))),
        Value::List(l) => SimpV::List(view_simp_list(l@)),
        Value::SYMBOL(s) => SimpV::Symbol(s@),
        Value::INT(n) => SimpV::Int(n as int),
        Value::ADD => SimpV::ADD,
        Value::CAR => SimpV::CAR,
        Value::CDR => SimpV::CDR,
        Value::CONS => SimpV::CONS,
        Value::DIV => SimpV::DIV,
        Value::EQ => SimpV::EQ,
        Value::ISNIL => SimpV::ISNIL,
        Value::LT => SimpV::LT,
        Value::MUL => SimpV::MUL,
        Value::NEG => SimpV::NEG,
        Value::T => SimpV::T,
        Value::F => SimpV::F,
    }
}

/// The models of a sequence of simplified trees.
pub open spec fn view_simp_list(s: Seq<Value>) -> Seq<SimpV>
    decreases s,
{
    if s.len() == 0 {
        Seq::empty()
    } else {
        seq![view_simp(s[0])] + view_simp_list(s.skip(1))
    }
}

pub proof fn lemma_view_simp_list(s: Seq<Value>)
    ensures
        view_simp_list(s).len() == s.len(),
        forall|i: int| 0 <= i < s.len() ==> view_simp_list(s)[i] == view_simp(s[i]),
    decreases s.len(),
{
    if s.len() > 0 {
        lemma_view_simp_list(s.skip(1));
        assert forall|i: int| 0 <= i < s.len() implies view_simp_list(s)[i] == view_simp(
            s[i],
        ) by {
            if i > 0 {
                assert(view_simp_list(s)[i] == view_simp_list(s.skip(1))[i - 1]);
                assert(s.skip(1)[i - 1] == s[i]);
            }
        }
    }
}

impl View for Value {
    type V = SimpV;

    open spec fn view(&self) -> SimpV {
        view_simp(*self)
    }
}

impl Clone for Value {
    #[verifier::loop_isolation(false)]
    fn clone(&self) -> (r: Self)
        ensures
            r@ == self@,
        decreases self,
    {
        match self {
            Value::Func(p, b) => Value::Func(p.clone(), Box::new((**b).clone())),
            Value::Apply(f, a) => Value::Apply(Box::new((**f).clone()), Box::new((**a).clone())),
            Value::List(l) => {
                let mut l2: Vec<Value> = Vec::new();
                let mut i: usize = 0;
                while i < l.len()
                    invariant
                        i <= l@.len(),
                        l2@.len() == i,
                        forall|j: int|
                            0 <= j < i ==> #[trigger] view_simp(l2@[j]) == view_simp(l@[j]),
                    decreases l@.len() - i,
                {
                    proof {
                        let ghost a = *self;
                        assert(a->List_0 == *l);
                        assert(decreases_to!(a => a->List_0));
                        assert(decreases_to!(*l => l@));
                        assert(decreases_to!(l@ => l@[i as int]));
                    }
                    l2.push(l[i].clone());
                    i = i + 1;
                }
                let r = Value::List(l2);
                proof {
                    lemma_view_simp_list(l2@);
                    lemma_view_simp_list(l@);
                    assert forall|j: int| 0 <= j < l@.len() implies view_simp_list(l2@)[j]
                        == view_simp_list(l@)[j] by {
                        assert(view_simp(l2@[j]) == view_simp(l@[j]));
                    }
                    assert(view_simp_list(l2@) =~= view_simp_list(l@));
                }
                r
            },
            Value::SYMBOL(s) => Value::SYMBOL(s.clone()),
            Value::INT(n) => Value::INT(*n),
            Value::ADD => Value::ADD,
            Value::CAR => Value::CAR,
            Value::CDR => Value::CDR,
            Value::CONS => Value::CONS,
            Value::DIV => Value::DIV,
            Value::EQ => Value::EQ,
            Value::ISNIL => Value::ISNIL,
            Value::LT => Value::LT,
            Value::MUL => Value::MUL,
            Value::NEG => Value::NEG,
            Value::T => Value::T,
            Value::F => Value::F,
        }
    }
}

/// The first false idiom: a function value of the shape
/// `λx.λy.((t y) (x y))`.
pub open spec fn is_false1_spec(v: LamV) -> bool {
    match v {
        LamV::Func(p1, b1) => match *b1 {
            LamV::Func(p2, b2) => match *b2 {
                LamV::Apply(l, r) => match (*l, *r) {
                    (LamV::Apply(lt, ly), LamV::Apply(rx, ry)) => (*lt == LamV::T) && (*ly
                        == LamV::Symbol(p2)) && (*rx == LamV::Symbol(p1)) && (*ry == LamV::Symbol(
                        p2,
                    )),
                    _ => false,
                },
                _ => false,
            },
            _ => false,
        },
        _ => false,
    }
}

/// The second false idiom: the true constant applied to the identity,
/// `t (λx.x)`.
pub open spec fn is_false2_spec(v: LamV) -> bool {
    match v {
        LamV::Apply(f, a) => *f == LamV::T && match *a {
            LamV::Func(p, b) => *b == LamV::Symbol(p),
            _ => false,
        },
        _ => false,
    }
}

/// Either encoding of boolean false. Both shapes occur, depending on how far
/// the evaluator's two passes reduced the definition.
pub open spec fn is_false_spec(v: LamV) -> bool {
    is_false1_spec(v) || is_false2_spec(v)
}

/// The simplifier: false idioms become the literal false node, `nil` becomes
/// the empty list, and an application of a partially applied `cons` to a
/// literal list is folded into a longer literal list. Everything else passes
/// through structurally.
pub open spec fn simplify_spec(v: LamV) -> SimpV
    decreases v,
{
    if is_false_spec(v) {
        SimpV::F
    } else {
        match v {
            LamV::Func(p, b) => SimpV::Func(p, Box::new(simplify_spec(*b))),
            LamV::Apply(f, a) => {
                let f2 = simplify_spec(*f);
                let a2 = simplify_spec(*a);
                match (f2, a2) {
                    (SimpV::Apply(g, arg0), SimpV::List(l)) => if *g == SimpV::CONS {
                        SimpV::List(seq![*arg0] + l)
                    } else {
                        SimpV::Apply(
                            Box::new(SimpV::Apply(g, arg0)),
                            Box::new(SimpV::List(l)),
                        )
                    },
                    (f2, a2) => SimpV::Apply(Box::new(f2), Box::new(a2)),
                }
            },
            LamV::Symbol(s) => SimpV::Symbol(s),
            LamV::Int(i) => SimpV::Int(i),
            LamV::ADD => SimpV::ADD,
            LamV::CAR => SimpV::CAR,
            LamV::CDR => SimpV::CDR,
            LamV::CONS => SimpV::CONS,
            LamV::DIV => SimpV::DIV,
            LamV::EQ => SimpV::EQ,
            LamV::ISNIL => SimpV::ISNIL,
            LamV::LT => SimpV::LT,
            LamV::MUL => SimpV::MUL,
            LamV::NEG => SimpV::NEG,
            LamV::NIL => SimpV::List(Seq::empty()),
            LamV::T => SimpV::T,
        }
    }
}

fn is_false1(val: &lambda::Value) -> (r: bool)
    ensures
        r == is_false1_spec(val@),
{
    proof {
        reveal_with_fuel(lambda::view_lam, 8);
    }
    match val {
        lambda::Value::Func(p1, b1) => match &**b1 {
            lambda::Value::Func(p2, b2) => match &**b2 {
                lambda::Value::Apply(l, r) => match (&**l, &**r) {
                    (lambda::Value::Apply(lt, ly), lambda::Value::Apply(rx, ry)) => {
                        let t_ok = match &**lt {
                            lambda::Value::T => true,
                            _ => false,
                        };
                        let ly_ok = match &**ly {
                            lambda::Value::SYMBOL(s) => str_eq(s.as_str(), p2.as_str()),
                            _ => false,
                        };
                        let rx_ok = match &**rx {
                            lambda::Value::SYMBOL(s) => str_eq(s.as_str(), p1.as_str()),
                            _ => false,
                        };
                        let ry_ok = match &**ry {
                            lambda::Value::SYMBOL(s) => str_eq(s.as_str(), p2.as_str()),
                            _ => false,
                        };
                        t_ok && ly_ok && rx_ok && ry_ok
                    },
                    _ => false,
                },
                _ => false,
            },
            _ => false,
        },
        _ => false,
    }
}

fn is_false2(val: &lambda::Value) -> (r: bool)
    ensures
        r == is_false2_spec(val@),
{
    proof {
        reveal_with_fuel(lambda::view_lam, 8);
    }
    match val {
        lambda::Value::Apply(f, a) => {
            let f_ok = match &**f {
                lambda::Value::T => true,
                _ => false,
            };
            if !f_ok {
                return false;
            }
            match &**a {
                lambda::Value::Func(p, b) => match &**b {
                    lambda::Value::SYMBOL(s) => str_eq(s.as_str(), p.as_str()),
                    _ => false,
                },
                _ => false,
            }
        },
        _ => false,
    }
}

fn is_false(val: &lambda::Value) -> (r: bool)
    ensures
        r == is_false_spec(val@),
{
    is_false1(val) || is_false2(val)
}

/// Rewrites a lambda tree into a simplified tree, recognizing false idioms
/// and folding finished `cons` chains into literal lists.
pub fn simplify(value: lambda::Value) -> (r: Value)
    ensures
        r@ == simplify_spec(value@),
    decreases value,
{
    proof {
        reveal_with_fuel(lambda::view_lam, 4);
        reveal_with_fuel(view_simp, 4);
    }
    if is_false(&value) {
        return Value::F;
    }
    match value {
        lambda::Value::Func(p, b) => Value::Func(p, Box::new(simplify(*b))),
        lambda::Value::Apply(f, a) => {
            let f2 = simplify(*f);
            let a2 = simplify(*a);
            match (f2, a2) {
                (Value::Apply(g, arg0), Value::List(vlist)) => {
                    let g_is_cons = match &*g {
                        Value::CONS => true,
                        _ => false,
                    };
                    if g_is_cons {
                        let ghost arg0v = arg0@;
                        let ghost vl = vlist@;
                        let ghost lv = view_simp_list(vlist@);
                        let mut result: Vec<Value> = Vec::new();
                        result.push(*arg0);
                        let mut vlist = vlist;
                        result.append(&mut vlist);
                        let r = Value::List(result);
                        proof {
                            lemma_view_simp_list(result@);
                            lemma_view_simp_list(vl);
                            assert(view_simp_list(result@) =~= seq![arg0v] + lv);
                        }
                        r
                    } else {
                        Value::Apply(Box::new(Value::Apply(g, arg0)), Box::new(Value::List(vlist)))
                    }
                },
                (f2, a2) => Value::Apply(Box::new(f2), Box::new(a2)),
            }
        },
        lambda::Value::SYMBOL(s) => Value::SYMBOL(s),
        lambda::Value::INT(v) => Value::INT(v),
        lambda::Value::ADD => Value::ADD,
        lambda::Value::CAR => Value::CAR,
        lambda::Value::CDR => Value::CDR,
        lambda::Value::CONS => Value::CONS,
        lambda::Value::DIV => Value::DIV,
        lambda::Value::EQ => Value::EQ,
        lambda::Value::ISNIL => Value::ISNIL,
        lambda::Value::LT => Value::LT,
        lambda::Value::MUL => Value::MUL,
        lambda::Value::NEG => Value::NEG,
        lambda::Value::NIL => {
            let r = Value::List(Vec::new());
            proof {
                assert(view_simp_list(Seq::<Value>::empty()) =~= Seq::<SimpV>::empty());
            }
            r
        },
        lambda::Value::T => Value::T,
    }
}

} // verus!

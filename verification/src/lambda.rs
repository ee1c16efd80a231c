//! The combinator eliminator and the evaluator. `lamdify` replaces the
//! closed combinators S, I, B and C with explicit function values over
//! freshly generated parameter names; `eval` then shrinks the term with two
//! passes: linear inlining of variables used exactly once, and eager
//! substitution of atomic arguments.

use vstd::prelude::*;
use vstd::string::{StrSliceExecFns, StringExecFns};
use crate::ast;
use crate::ast::AstV;
use crate::names::{dec_digits, u64_to_string};

verus! {

/// Mathematical model of a lambda tree.
pub enum LamV {
    Func(Seq<char>, Box<LamV>),
    Apply(Box<LamV>, Box<LamV>),
    Symbol(Seq<char>),
    Int(int),
    ADD,
    CAR,
    CDR,
    CONS,
    DIV,
    EQ,
    ISNIL,
    LT,
    MUL,
    NEG,
    NIL,
    T,
}

/// A lambda tree: the raw vocabulary minus S/I/B/C, plus function values
/// carrying one bound-variable name.
#[derive(Debug, PartialEq, Eq)]
pub enum Value {
    Func(String, Box<Value>),
    Apply(Box<Value>, Box<Value>),
    SYMBOL(String),
    INT(isize),
    ADD,
    CAR,
    CDR,
    CONS,
    DIV,
    EQ,
    ISNIL,
    LT,
    MUL,
    NEG,
    NIL,
    T,
}

/// The model of a lambda tree.
pub open spec fn view_lam(v: Value) -> LamV
    decreases v,
{
    match v {
        Value::Func(p, b) => LamV::Func(p@, Box::new(view_lam(*b))),
        Value::Apply(f, a) => LamV::Apply(Box::new(view_lam(*f)), Box::new(view_lam(*a))),
        Value::SYMBOL(s) => LamV::Symbol(s@),
        Value::INT(n) => LamV::Int(n as int),
        Value::ADD => LamV::ADD,
        Value::CAR => LamV::CAR,
        Value::CDR => LamV::CDR,
        Value::CONS => LamV::CONS,
        Value::DIV => LamV::DIV,
        Value::EQ => LamV::EQ,
        Value::ISNIL => LamV::ISNIL,
        Value::LT => LamV::LT,
        Value::MUL => LamV::MUL,
        Value::NEG => LamV::NEG,
        Value::NIL => LamV::NIL,
        Value::T => LamV::T,
    }
}

impl View for Value {
    type V = LamV;

    open spec fn view(&self) -> LamV {
        view_lam(*self)
    }
}

impl Clone for Value {
    fn clone(&self) -> (r: Self)
        ensures
            r@ == self@,
        decreases self,
    {
        match self {
            Value::Func(p, b) => Value::Func(p.clone(), Box::new((**b).clone())),
            Value::Apply(f, a) => Value::Apply(Box::new((**f).clone()), Box::new((**a).clone())),
            Value::SYMBOL(s) => Value::SYMBOL(s.clone()),
            Value::INT(n) => Value::INT(*n),
            Value::ADD => Value::ADD,
            Value::CAR => Value::CAR,
            Value::CDR => Value::CDR,
            Value::CONS => Value::CONS,
            Value::DIV => Value::DIV,
            Value::EQ => Value::EQ,
            Value::ISNIL => Value::ISNIL,
            Value::LT => Value::LT,
            Value::MUL => Value::MUL,
            Value::NEG => Value::NEG,
            Value::NIL => Value::NIL,
            Value::T => Value::T,
        }
    }
}

/// The number of nodes of a raw tree.
pub open spec fn size_ast(v: AstV) -> nat
    decreases v,
{
    match v {
        AstV::Apply(f, a) => 1 + size_ast(*f) + size_ast(*a),
        _ => 1,
    }
}

/// The number of nodes of a lambda tree.
pub open spec fn size_lam(v: LamV) -> nat
    decreases v,
{
    match v {
        LamV::Func(_, b) => 1 + size_lam(*b),
        LamV::Apply(f, a) => 1 + size_lam(*f) + size_lam(*a),
        _ => 1,
    }
}

/// The generated parameter name for counter value `id`.
pub open spec fn gen_name(id: nat) -> Seq<char> {
    "x"@ + dec_digits(id)
}

/// `I` becomes the identity function.
pub open spec fn i_value(n: nat) -> LamV {
    LamV::Func(gen_name(n), Box::new(LamV::Symbol(gen_name(n))))
}

/// `B` becomes composition.
pub open spec fn b_value(n: nat) -> LamV {
    LamV::Func(
        gen_name(n),
        Box::new(
            LamV::Func(
                gen_name(n + 1),
                Box::new(
                    LamV::Func(
                        gen_name(n + 2),
                        Box::new(
                            LamV::Apply(
                                Box::new(LamV::Symbol(gen_name(n))),
                                Box::new(
                                    LamV::Apply(
                                        Box::new(LamV::Symbol(gen_name(n + 1))),
                                        Box::new(LamV::Symbol(gen_name(n + 2))),
                                    ),
                                ),
                            ),
                        ),
                    ),
                ),
            ),
        ),
    )
}

/// `C` becomes argument flipping.
pub open spec fn c_value(n: nat) -> LamV {
    LamV::Func(
        gen_name(n),
        Box::new(
            LamV::Func(
                gen_name(n + 1),
                Box::new(
                    LamV::Func(
                        gen_name(n + 2),
                        Box::new(
                            LamV::Apply(
                                Box::new(
                                    LamV::Apply(
                                        Box::new(LamV::Symbol(gen_name(n))),
                                        Box::new(LamV::Symbol(gen_name(n + 2))),
                                    ),
                                ),
                                Box::new(LamV::Symbol(gen_name(n + 1))),
                            ),
                        ),
                    ),
                ),
            ),
        ),
    )
}

/// `S` becomes argument sharing.
pub open spec fn s_value(n: nat) -> LamV {
    LamV::Func(
        gen_name(n),
        Box::new(
            LamV::Func(
                gen_name(n + 1),
                Box::new(
                    LamV::Func(
                        gen_name(n + 2),
                        Box::new(
                            LamV::Apply(
                                Box::new(
                                    LamV::Apply(
                                        Box::new(LamV::Symbol(gen_name(n))),
                                        Box::new(LamV::Symbol(gen_name(n + 2))),
                                    ),
                                ),
                                Box::new(
                                    LamV::Apply(
                                        Box::new(LamV::Symbol(gen_name(n + 1))),
                                        Box::new(LamV::Symbol(gen_name(n + 2))),
                                    ),
                                ),
                            ),
                        ),
                    ),
                ),
            ),
        ),
    )
}

/// Combinator elimination: S/I/B/C become function values over fresh names
/// drawn from a counter; everything else is copied structurally. Returns the
/// new tree and the counter after it.
pub open spec fn lamdify_spec(v: AstV, next: nat) -> (LamV, nat)
    decreases v,
{
    match v {
        AstV::Apply(f, a) => {
            let (f2, n1) = lamdify_spec(*f, next);
            let (a2, n2) = lamdify_spec(*a, n1);
            (LamV::Apply(Box::new(f2), Box::new(a2)), n2)
        },
        AstV::Symbol(s) => (LamV::Symbol(s), next),
        AstV::Int(i) => (LamV::Int(i), next),
        AstV::ADD => (LamV::ADD, next),
        AstV::CAR => (LamV::CAR, next),
        AstV::CDR => (LamV::CDR, next),
        AstV::CONS => (LamV::CONS, next),
        AstV::DIV => (LamV::DIV, next),
        AstV::EQ => (LamV::EQ, next),
        AstV::ISNIL => (LamV::ISNIL, next),
        AstV::LT => (LamV::LT, next),
        AstV::MUL => (LamV::MUL, next),
        AstV::NEG => (LamV::NEG, next),
        AstV::NIL => (LamV::NIL, next),
        AstV::T => (LamV::T, next),
        AstV::I => (i_value(next), next + 1),
        AstV::B => (b_value(next), next + 3),
        AstV::C => (c_value(next), next + 3),
        AstV::S => (s_value(next), next + 3),
    }
}

/// Elimination advances the counter by at most three per node.
pub proof fn lemma_lamdify_next(v: AstV, next: nat)
    ensures
        next <= lamdify_spec(v, next).1 <= next + 3 * size_ast(v),
    decreases v,
{
    match v {
        AstV::Apply(f, a) => {
            lemma_lamdify_next(*f, next);
            lemma_lamdify_next(*a, lamdify_spec(*f, next).1);
        },
        _ => {},
    }
}

fn gen_name_exec(id: usize) -> (s: String)
    ensures
        s@ == gen_name(id as nat),
{
    proof {
        reveal_strlit("x");
    }
    let mut s = String::from_str("x");
    let digits = u64_to_string(id as u64);
    s.append(digits.as_str());
    s
}

fn lamdify_rec(value: &ast::Value, next_id: &mut usize) -> (r: Value)
    requires
        *old(next_id) + 3 * size_ast(value@) <= usize::MAX,
    ensures
        (r@, *final(next_id) as nat) == lamdify_spec(value@, *old(next_id) as nat),
    decreases value,
{
    match value {
        ast::Value::Apply(f, a) => {
            let f2 = lamdify_rec(f, next_id);
            proof {
                lemma_lamdify_next(f@, *old(next_id) as nat);
                lemma_lamdify_next(a@, *next_id as nat);
            }
            let a2 = lamdify_rec(a, next_id);
            let ghost f2v = f2@;
            let ghost a2v = a2@;
            let r = Value::Apply(Box::new(f2), Box::new(a2));
            proof {
                assert(r@ == LamV::Apply(Box::new(f2v), Box::new(a2v)));
                let o = *old(next_id) as nat;
                let (fs, n1) = lamdify_spec(f@, o);
                let (as2, n2) = lamdify_spec(a@, n1);
                assert(value@ == AstV::Apply(Box::new(f@), Box::new(a@)));
                assert(lamdify_spec(value@, o) == (
                    LamV::Apply(Box::new(fs), Box::new(as2)),
                    n2,
                ));
                assert(f2v == fs);
                assert(a2v == as2);
                assert(*next_id as nat == n2);
            }
            r
        },
        ast::Value::SYMBOL(s) => Value::SYMBOL(s.clone()),
        ast::Value::INT(n) => Value::INT(*n),
        ast::Value::ADD => Value::ADD,
        ast::Value::CAR => Value::CAR,
        ast::Value::CDR => Value::CDR,
        ast::Value::CONS => Value::CONS,
        ast::Value::DIV => Value::DIV,
        ast::Value::EQ => Value::EQ,
        ast::Value::ISNIL => Value::ISNIL,
        ast::Value::LT => Value::LT,
        ast::Value::MUL => Value::MUL,
        ast::Value::NEG => Value::NEG,
        ast::Value::NIL => Value::NIL,
        ast::Value::T => Value::T,
        ast::Value::I => {
            let x = gen_name_exec(*next_id);
            *next_id = *next_id + 1;
            let r = Value::Func(x.clone(), Box::new(Value::SYMBOL(x)));
            proof {
                reveal_with_fuel(view_lam, 12);
                assert(r@ == i_value(*old(next_id) as nat));
            }
            r
        },
        ast::Value::B => {
            let x0 = gen_name_exec(*next_id);
            let x1 = gen_name_exec(*next_id + 1);
            let x2 = gen_name_exec(*next_id + 2);
            *next_id = *next_id + 3;
            let r = Value::Func(
                x0.clone(),
                Box::new(
                    Value::Func(
                        x1.clone(),
                        Box::new(
                            Value::Func(
                                x2.clone(),
                                Box::new(
                                    Value::Apply(
                                        Box::new(Value::SYMBOL(x0)),
                                        Box::new(
                                            Value::Apply(
                                                Box::new(Value::SYMBOL(x1)),
                                                Box::new(Value::SYMBOL(x2)),
                                            ),
                                        ),
                                    ),
                                ),
                            ),
                        ),
                    ),
                ),
            );
            proof {
                reveal_with_fuel(view_lam, 12);
                assert(r@ == b_value(*old(next_id) as nat));
            }
            r        },
        ast::Value::C => {
            let x0 = gen_name_exec(*next_id);
            let x1 = gen_name_exec(*next_id + 1);
            let x2 = gen_name_exec(*next_id + 2);
            *next_id = *next_id + 3;
            let r = Value::Func(
                x0.clone(),
                Box::new(
                    Value::Func(
                        x1.clone(),
                        Box::new(
                            Value::Func(
                                x2.clone(),
                                Box::new(
                                    Value::Apply(
                                        Box::new(
                                            Value::Apply(
                                                Box::new(Value::SYMBOL(x0)),
                                                Box::new(Value::SYMBOL(x2)),
                                            ),
                                        ),
                                        Box::new(Value::SYMBOL(x1)),
                                    ),
                                ),
                            ),
                        ),
                    ),
                ),
            );
            proof {
                reveal_with_fuel(view_lam, 12);
                assert(r@ == c_value(*old(next_id) as nat));
            }
            r        },
        ast::Value::S => {
            let x0 = gen_name_exec(*next_id);
            let x1 = gen_name_exec(*next_id + 1);
            let x2 = gen_name_exec(*next_id + 2);
            *next_id = *next_id + 3;
            let r = Value::Func(
                x0.clone(),
                Box::new(
                    Value::Func(
                        x1.clone(),
                        Box::new(
                            Value::Func(
                                x2.clone(),
                                Box::new(
                                    Value::Apply(
                                        Box::new(
                                            Value::Apply(
                                                Box::new(Value::SYMBOL(x0)),
                                                Box::new(Value::SYMBOL(x2.clone())),
                                            ),
                                        ),
                                        Box::new(
                                            Value::Apply(
                                                Box::new(Value::SYMBOL(x1)),
                                                Box::new(Value::SYMBOL(x2)),
                                            ),
                                        ),
                                    ),
                                ),
                            ),
                        ),
                    ),
                ),
            );
            proof {
                reveal_with_fuel(view_lam, 12);
                assert(r@ == s_value(*old(next_id) as nat));
            }
            r        },
    }
}

/// Eliminates S/I/B/C from a raw tree, starting the fresh-name counter at
/// zero. Pure and total; the bound on the tree size only keeps the counter
/// within the machine word.
pub fn lamdify(value: &ast::Value) -> (r: Value)
    requires
        3 * size_ast(value@) <= usize::MAX,
    ensures
        r@ == lamdify_spec(value@, 0).0,
{
    let mut next_id: usize = 0;
    lamdify_rec(value, &mut next_id)
}

/// How many times `name` occurs as a symbol reference anywhere in the term,
/// bound occurrences included.
pub open spec fn occurrences(v: LamV, name: Seq<char>) -> nat
    decreases v,
{
    match v {
        LamV::Func(_, b) => occurrences(*b, name),
        LamV::Apply(f, a) => occurrences(*f, name) + occurrences(*a, name),
        LamV::Symbol(s) => if s == name {
            1nat
        } else {
            0nat
        },
        _ => 0,
    }
}

/// Counts occurrences, saturating at two: the evaluator only ever asks
/// whether a name occurs exactly once.
fn occurs_capped(v: &Value, name: &str) -> (r: u8)
    ensures
        r as nat == if occurrences(v@, name@) < 2 {
            occurrences(v@, name@)
        } else {
            2nat
        },
    decreases v,
{
    match v {
        Value::Func(_, b) => occurs_capped(b, name),
        Value::Apply(f, a) => {
            let cf = occurs_capped(f, name);
            let ca = occurs_capped(a, name);
            if cf as u32 + ca as u32 >= 2 {
                2
            } else {
                cf + ca
            }
        },
        Value::SYMBOL(s) => {
            if crate::names::str_eq(s.as_str(), name) {
                1
            } else {
                0
            }
        },
        _ => 0,
    }
}

/// An environment: bindings from generated names to terms, newest last.
pub type EnvV = Seq<(Seq<char>, LamV)>;

/// The model of an executable environment.
pub open spec fn env_view(env: Seq<(String, Value)>) -> EnvV {
    env.map_values(|p: (String, Value)| (p.0@, p.1@))
}

/// Looks the newest binding of `s` up and removes it: a binding is consumed
/// by its one use.
pub open spec fn env_take(env: EnvV, s: Seq<char>) -> Option<(LamV, EnvV)>
    decreases env.len(),
{
    if env.len() == 0 {
        None
    } else if env.last().0 == s {
        Some((env.last().1, env.drop_last()))
    } else {
        match env_take(env.drop_last(), s) {
            Some((v, e)) => Some((v, e.push(env.last()))),
            None => None,
        }
    }
}

/// The newest binding of `s`, if any.
pub open spec fn env_get(env: EnvV, s: Seq<char>) -> Option<LamV>
    decreases env.len(),
{
    if env.len() == 0 {
        None
    } else if env.last().0 == s {
        Some(env.last().1)
    } else {
        env_get(env.drop_last(), s)
    }
}

/// Removes the newest binding of `s`, if any.
pub open spec fn env_remove(env: EnvV, s: Seq<char>) -> EnvV
    decreases env.len(),
{
    if env.len() == 0 {
        env
    } else if env.last().0 == s {
        env.drop_last()
    } else {
        env_remove(env.drop_last(), s).push(env.last())
    }
}

/// Pass 1: bottom-up linear inlining. At an application whose reduced
/// function side is a function value whose parameter occurs exactly once in
/// the whole original term, the argument is bound in the environment and
/// substituted at its single use site, which consumes the binding. The fuel
/// bounds the recursion; the caller passes enough for the terms it handles.
pub open spec fn subst1(v: LamV, env: EnvV, root: LamV, fuel: nat) -> (LamV, EnvV)
    decreases fuel,
{
    if fuel == 0 {
        (v, env)
    } else {
        match v {
            LamV::Func(p, b) => {
                let (b2, e2) = subst1(*b, env, root, (fuel - 1) as nat);
                (LamV::Func(p, Box::new(b2)), e2)
            },
            LamV::Apply(f, a) => {
                let (f2, e1) = subst1(*f, env, root, (fuel - 1) as nat);
                let (a2, e2) = subst1(*a, e1, root, (fuel - 1) as nat);
                match f2 {
                    LamV::Func(p, b) => {
                        if occurrences(root, p) == 1 {
                            let (r, e4) = subst1(*b, e2.push((p, a2)), root, (fuel - 1) as nat);
                            (r, env_remove(e4, p))
                        } else {
                            (
                                LamV::Apply(
                                    Box::new(LamV::Func(p, b)),
                                    Box::new(a2),
                                ),
                                e2,
                            )
                        }
                    },
                    f2 => (LamV::Apply(Box::new(f2), Box::new(a2)), e2),
                }
            },
            LamV::Symbol(s) => match env_take(env, s) {
                Some((val, e2)) => (val, e2),
                None => (LamV::Symbol(s), env),
            },
            v => (v, env),
        }
    }
}

/// Follows reference-to-reference aliasing until a non-reference value or an
/// unresolved reference is reached.
pub open spec fn resolve(env: EnvV, s: Seq<char>, fuel: nat) -> LamV
    decreases fuel,
{
    if fuel == 0 {
        LamV::Symbol(s)
    } else {
        match env_get(env, s) {
            None => LamV::Symbol(s),
            Some(val) => match val {
                LamV::Symbol(s2) => resolve(env, s2, (fuel - 1) as nat),
                v => v,
            },
        }
    }
}

/// Whether a term is atomic: a bare reference or a bare integer literal.
pub open spec fn is_atom(v: LamV) -> bool {
    v is Symbol || v is Int
}

/// Pass 2: atom-driven substitution. Unlike pass 1 this descends into
/// function bodies, and substitutes an argument regardless of its occurrence
/// count whenever the argument is atomic, since substituting an atom cannot
/// duplicate computation.
pub open spec fn relabel_s(v: LamV, env: EnvV, fuel: nat) -> (LamV, EnvV)
    decreases fuel,
{
    if fuel == 0 {
        (v, env)
    } else {
        match v {
            LamV::Func(p, b) => {
                let (b2, e2) = relabel_s(*b, env, (fuel - 1) as nat);
                (LamV::Func(p, Box::new(b2)), e2)
            },
            LamV::Apply(f, a) => {
                let (f2, e1) = relabel_s(*f, env, (fuel - 1) as nat);
                let (a2, e2) = relabel_s(*a, e1, (fuel - 1) as nat);
                match f2 {
                    LamV::Func(p, b) => {
                        if is_atom(a2) {
                            let (r, e4) = relabel_s(*b, e2.push((p, a2)), (fuel - 1) as nat);
                            (r, env_remove(e4, p))
                        } else {
                            (LamV::Apply(Box::new(LamV::Func(p, b)), Box::new(a2)), e2)
                        }
                    },
                    f2 => (LamV::Apply(Box::new(f2), Box::new(a2)), e2),
                }
            },
            LamV::Symbol(s) => (resolve(env, s, env.len()), env),
            v => (v, env),
        }
    }
}

/// The size cap that the evaluator's fuel computation saturates at.
pub open spec fn capped(n: nat) -> nat {
    if n > 0x1000_0000_0000_0000 {
        0x1000_0000_0000_0000
    } else {
        n
    }
}

/// The whole evaluator: pass 1 with fresh occurrence counts, then pass 2.
/// The fuel of each pass is one more than the size of the term it starts
/// from, which the recursion never exhausts on terms the passes shrink.
pub open spec fn eval_spec(v: LamV) -> LamV {
    let (s1, e1) = subst1(v, Seq::empty(), v, size_lam(v) + 1);
    relabel_s(s1, Seq::empty(), capped(size_lam(s1)) + 1).0
}

/// The saturating node count of a term.
fn size_capped(v: &Value) -> (r: u64)
    ensures
        r as nat == capped(size_lam(v@)),
    decreases v,
{
    match v {
        Value::Func(_, b) => {
            let sb = size_capped(b);
            if sb >= 0x1000_0000_0000_0000u64 {
                0x1000_0000_0000_0000u64
            } else {
                1 + sb
            }
        },
        Value::Apply(f, a) => {
            let sf = size_capped(f);
            let sa = size_capped(a);
            if sf + sa >= 0x1000_0000_0000_0000u64 {
                0x1000_0000_0000_0000u64
            } else {
                1 + sf + sa
            }
        },
        _ => 1,
    }
}

#[verifier::loop_isolation(false)]
fn env_take_exec(env: &mut Vec<(String, Value)>, s: &str) -> (r: Option<Value>)
    ensures
        match r {
            Some(v) => env_take(env_view(old(env)@), s@) == Some(
                (v@, env_view(final(env)@)),
            ),
            None => env_take(env_view(old(env)@), s@) is None && final(env)@ == old(env)@,
        },
{
    let ghost oldenv = env@;
    let mut i = env.len();
    while i > 0
        invariant
            i <= env@.len(),
            env@ == oldenv,
            forall|j: int| i <= j < env@.len() ==> #[trigger] env@[j].0@ != s@,
        decreases i,
    {
        i = i - 1;
        if crate::names::str_eq(env[i].0.as_str(), s) {
            let (_, v) = env.remove(i);
            proof {
                assert forall|j: int| (i as int) < j < oldenv.len() implies #[trigger] env_view(
                    oldenv,
                )[j].0 != s@ by {
                    assert(env_view(oldenv)[j] == (oldenv[j].0@, oldenv[j].1@));
                }
                assert(env_view(oldenv)[i as int] == (oldenv[i as int].0@, oldenv[i as int].1@));
                lemma_env_take_at(env_view(oldenv), s@, i as int);
                assert(env_view(env@) =~= env_view(oldenv).remove(i as int));
            }
            return Some(v);
        }
    }
    proof {
        assert forall|j: int| 0 <= j < oldenv.len() implies #[trigger] env_view(oldenv)[j].0
            != s@ by {
            assert(env_view(oldenv)[j] == (oldenv[j].0@, oldenv[j].1@));
        }
        lemma_env_take_none(env_view(oldenv), s@);
    }
    None
}

/// If every entry at or after `i` except `i` itself misses `s`, and entry
/// `i` matches, taking `s` yields entry `i`'s value and drops that entry.
proof fn lemma_env_take_at(env: EnvV, s: Seq<char>, i: int)
    requires
        0 <= i < env.len(),
        env[i].0 == s,
        forall|j: int| i < j < env.len() ==> #[trigger] env[j].0 != s,
    ensures
        env_take(env, s) == Some((env[i].1, env.remove(i))),
    decreases env.len(),
{
    if i == env.len() - 1 {
        assert(env.remove(i) =~= env.drop_last());
    } else {
        assert(env.last().0 != s);
        lemma_env_take_at(env.drop_last(), s, i);
        assert(env.drop_last()[i] == env[i]);
        assert(env.drop_last().remove(i).push(env.last()) =~= env.remove(i));
    }
}

/// If no entry binds `s`, taking `s` fails.
proof fn lemma_env_take_none(env: EnvV, s: Seq<char>)
    requires
        forall|j: int| 0 <= j < env.len() ==> #[trigger] env[j].0 != s,
    ensures
        env_take(env, s) is None,
        env_get(env, s) is None,
    decreases env.len(),
{
    if env.len() > 0 {
        lemma_env_take_none(env.drop_last(), s);
    }
}

#[verifier::loop_isolation(false)]
fn env_get_exec<'a>(env: &'a Vec<(String, Value)>, s: &str) -> (r: Option<&'a Value>)
    ensures
        match r {
            Some(v) => env_get(env_view(env@), s@) == Some(v@),
            None => env_get(env_view(env@), s@) is None,
        },
{
    let mut i = env.len();
    while i > 0
        invariant
            i <= env@.len(),
            forall|j: int| i <= j < env@.len() ==> #[trigger] env@[j].0@ != s@,
        decreases i,
    {
        i = i - 1;
        if crate::names::str_eq(env[i].0.as_str(), s) {
            proof {
                assert forall|j: int| (i as int) < j < env@.len() implies #[trigger] env_view(
                    env@,
                )[j].0 != s@ by {
                    assert(env_view(env@)[j] == (env@[j].0@, env@[j].1@));
                }
                assert(env_view(env@)[i as int] == (env@[i as int].0@, env@[i as int].1@));
                lemma_env_get_at(env_view(env@), s@, i as int);
            }
            return Some(&env[i].1);
        }
    }
    proof {
        assert forall|j: int| 0 <= j < env@.len() implies #[trigger] env_view(env@)[j].0 != s@ by {
            assert(env_view(env@)[j] == (env@[j].0@, env@[j].1@));
        }
        lemma_env_take_none(env_view(env@), s@);
    }
    None
}

proof fn lemma_env_get_at(env: EnvV, s: Seq<char>, i: int)
    requires
        0 <= i < env.len(),
        env[i].0 == s,
        forall|j: int| i < j < env.len() ==> #[trigger] env[j].0 != s,
    ensures
        env_get(env, s) == Some(env[i].1),
    decreases env.len(),
{
    if i < env.len() - 1 {
        lemma_env_get_at(env.drop_last(), s, i);
    }
}

#[verifier::loop_isolation(false)]
fn env_remove_exec(env: &mut Vec<(String, Value)>, s: &str)
    ensures
        env_view(final(env)@) == env_remove(env_view(old(env)@), s@),
{
    let ghost oldenv = env@;
    let mut i = env.len();
    while i > 0
        invariant
            i <= env@.len(),
            env@ == oldenv,
            forall|j: int| i <= j < env@.len() ==> #[trigger] env@[j].0@ != s@,
        decreases i,
    {
        i = i - 1;
        if crate::names::str_eq(env[i].0.as_str(), s) {
            let _ = env.remove(i);
            proof {
                assert forall|j: int| (i as int) < j < oldenv.len() implies #[trigger] env_view(
                    oldenv,
                )[j].0 != s@ by {
                    assert(env_view(oldenv)[j] == (oldenv[j].0@, oldenv[j].1@));
                }
                assert(env_view(oldenv)[i as int] == (oldenv[i as int].0@, oldenv[i as int].1@));
                lemma_env_remove_at(env_view(oldenv), s@, i as int);
                assert(env_view(env@) =~= env_view(oldenv).remove(i as int));
            }
            return ;
        }
    }
    proof {
        assert forall|j: int| 0 <= j < oldenv.len() implies #[trigger] env_view(oldenv)[j].0
            != s@ by {
            assert(env_view(oldenv)[j] == (oldenv[j].0@, oldenv[j].1@));
        }
        lemma_env_remove_none(env_view(oldenv), s@);
    }
}

proof fn lemma_env_remove_at(env: EnvV, s: Seq<char>, i: int)
    requires
        0 <= i < env.len(),
        env[i].0 == s,
        forall|j: int| i < j < env.len() ==> #[trigger] env[j].0 != s,
    ensures
        env_remove(env, s) == env.remove(i),
    decreases env.len(),
{
    if i == env.len() - 1 {
        assert(env.remove(i) =~= env.drop_last());
    } else {
        assert(env.last().0 != s);
        lemma_env_remove_at(env.drop_last(), s, i);
        assert(env.drop_last()[i] == env[i]);
        assert(env.drop_last().remove(i).push(env.last()) =~= env.remove(i));
    }
}

proof fn lemma_env_remove_none(env: EnvV, s: Seq<char>)
    requires
        forall|j: int| 0 <= j < env.len() ==> #[trigger] env[j].0 != s,
    ensures
        env_remove(env, s) == env,
    decreases env.len(),
{
    if env.len() > 0 {
        lemma_env_remove_none(env.drop_last(), s);
        assert(env.drop_last().push(env.last()) =~= env);
    }
}

fn substitute(value: Value, env: &mut Vec<(String, Value)>, root: &Value, fuel: u64) -> (r: Value)
    ensures
        (r@, env_view(final(env)@)) == subst1(value@, env_view(old(env)@), root@, fuel as nat),
    decreases fuel,
{
    if fuel == 0 {
        return value;
    }
    match value {
        Value::Func(p, b) => {
            let b2 = substitute(*b, env, root, fuel - 1);
            Value::Func(p, Box::new(b2))
        },
        Value::Apply(f, a) => {
            let f2 = substitute(*f, env, root, fuel - 1);
            let a2 = substitute(*a, env, root, fuel - 1);
            match f2 {
                Value::Func(p, b) => {
                    if occurs_capped(root, p.as_str()) == 1 {
                        let ghost e2 = env_view(env@);
                        let ghost a2v = a2@;
                        env.push((p.clone(), a2));
                        proof {
                            assert(env_view(env@) =~= e2.push((p@, a2v)));
                        }
                        let r = substitute(*b, env, root, fuel - 1);
                        env_remove_exec(env, p.as_str());
                        r
                    } else {
                        Value::Apply(Box::new(Value::Func(p, b)), Box::new(a2))
                    }
                },
                f2 => Value::Apply(Box::new(f2), Box::new(a2)),
            }
        },
        Value::SYMBOL(s) => {
            match env_take_exec(env, s.as_str()) {
                Some(v) => v,
                None => Value::SYMBOL(s),
            }
        },
        v => v,
    }
}

#[verifier::loop_isolation(false)]
fn resolve_exec(env: &Vec<(String, Value)>, s: String) -> (r: Value)
    ensures
        r@ == resolve(env_view(env@), s@, env_view(env@).len()),
{
    let ghost s0 = s@;
    let mut cur: String = s;
    let mut fuel: usize = env.len();
    loop
        invariant
            fuel <= env@.len(),
            env_view(env@).len() == env@.len(),
            resolve(env_view(env@), cur@, fuel as nat) == resolve(
                env_view(env@),
                s0,
                env_view(env@).len(),
            ),
        decreases fuel,
    {
        if fuel == 0 {
            return Value::SYMBOL(cur);
        }
        match env_get_exec(env, cur.as_str()) {
            None => {
                return Value::SYMBOL(cur);
            },
            Some(v) => {
                match v {
                    Value::SYMBOL(s2) => {
                        let next = s2.clone();
                        cur = next;
                        fuel = fuel - 1;
                    },
                    v => {
                        return v.clone();
                    },
                }
            },
        }
    }
}

/// Evaluates a lambda tree: linear inlining, then atom substitution. Neither
/// pass fully normalises; a term that matches no reduction rule is returned
/// unchanged. The size bound keeps the pass-one fuel within the machine word.
pub fn eval(value: Value) -> (r: Value)
    requires
        size_lam(value@) <= 0x1000_0000,
    ensures
        r@ == eval_spec(value@),
{
    let root = value.clone();
    let fuel1 = size_capped(&root) + 1;
    let mut env: Vec<(String, Value)> = Vec::new();
    proof {
        assert(env_view(env@) =~= Seq::<(Seq<char>, LamV)>::empty());
    }
    let substituted = substitute(value, &mut env, &root, fuel1);
    let fuel2 = size_capped(&substituted) + 1;
    let mut env2: Vec<(String, Value)> = Vec::new();
    proof {
        assert(env_view(env2@) =~= Seq::<(Seq<char>, LamV)>::empty());
    }
    relabel(substituted, &mut env2, fuel2)
}

fn relabel(value: Value, env: &mut Vec<(String, Value)>, fuel: u64) -> (r: Value)
    ensures
        (r@, env_view(final(env)@)) == relabel_s(value@, env_view(old(env)@), fuel as nat),
    decreases fuel,
{
    if fuel == 0 {
        return value;
    }
    match value {
        Value::Func(p, b) => {
            let b2 = relabel(*b, env, fuel - 1);
            Value::Func(p, Box::new(b2))
        },
        Value::Apply(f, a) => {
            let f2 = relabel(*f, env, fuel - 1);
            let a2 = relabel(*a, env, fuel - 1);
            match f2 {
                Value::Func(p, b) => {
                    let atom = match &a2 {
                        Value::SYMBOL(_) => true,
                        Value::INT(_) => true,
                        _ => false,
                    };
                    if atom {
                        let ghost e2 = env_view(env@);
                        let ghost a2v = a2@;
                        env.push((p.clone(), a2));
                        proof {
                            assert(env_view(env@) =~= e2.push((p@, a2v)));
                        }
                        let r = relabel(*b, env, fuel - 1);
                        env_remove_exec(env, p.as_str());
                        r
                    } else {
                        Value::Apply(Box::new(Value::Func(p, b)), Box::new(a2))
                    }
                },
                f2 => Value::Apply(Box::new(f2), Box::new(a2)),
            }
        },
        Value::SYMBOL(s) => resolve_exec(env, s),
        v => v,
    }
}

/// Capture-naive substitution of `w` for the free occurrences of `name`:
/// sufficient for the closed combinator values, whose bound names are fresh.
pub open spec fn subst_all(v: LamV, name: Seq<char>, w: LamV) -> LamV
    decreases v,
{
    match v {
        LamV::Symbol(s) => if s == name {
            w
        } else {
            LamV::Symbol(s)
        },
        LamV::Apply(f, a) => LamV::Apply(
            Box::new(subst_all(*f, name, w)),
            Box::new(subst_all(*a, name, w)),
        ),
        LamV::Func(p, b) => if p == name {
            LamV::Func(p, b)
        } else {
            LamV::Func(p, Box::new(subst_all(*b, name, w)))
        },
        v2 => v2,
    }
}

/// One reduction step: a function value applied to an argument becomes its
/// body with the argument substituted for the parameter.
pub open spec fn apply1(f: LamV, a: LamV) -> LamV {
    match f {
        LamV::Func(p, b) => subst_all(*b, p, a),
        f2 => LamV::Apply(Box::new(f2), Box::new(a)),
    }
}

/// Substituting for a name that does not occur changes nothing.
pub proof fn lemma_subst_absent(v: LamV, name: Seq<char>, w: LamV)
    requires
        occurrences(v, name) == 0,
    ensures
        subst_all(v, name, w) == v,
    decreases v,
{
    match v {
        LamV::Apply(f, a) => {
            lemma_subst_absent(*f, name, w);
            lemma_subst_absent(*a, name, w);
        },
        LamV::Func(p, b) => {
            if p != name {
                lemma_subst_absent(*b, name, w);
            }
        },
        _ => {},
    }
}

/// Distinct counter values give distinct generated names.
pub proof fn lemma_gen_name_injective(a: nat, b: nat)
    requires
        gen_name(a) == gen_name(b),
    ensures
        a == b,
{
    reveal_strlit("x");
    assert(gen_name(a).skip(1) =~= dec_digits(a));
    assert(gen_name(b).skip(1) =~= dec_digits(b));
    crate::names::lemma_dec_digits_injective(a, b);
}

/// The eliminated `I` applied to any value reduces to that value.
pub proof fn lemma_lamdify_i(n: nat, x: LamV)
    ensures
        apply1(i_value(n), x) == x,
{
}

/// The eliminated `B` applied to `f`, `g` and `x` reduces to `f (g x)`,
/// whenever `f` and `g` do not mention the freshly generated names.
pub proof fn lemma_lamdify_b(n: nat, f: LamV, g: LamV, x: LamV)
    requires
        occurrences(f, gen_name(n + 1)) == 0,
        occurrences(f, gen_name(n + 2)) == 0,
        occurrences(g, gen_name(n + 2)) == 0,
    ensures
        apply1(apply1(apply1(b_value(n), f), g), x) == LamV::Apply(
            Box::new(f),
            Box::new(LamV::Apply(Box::new(g), Box::new(x))),
        ),
{
    let x0 = gen_name(n);
    let x1 = gen_name(n + 1);
    let x2 = gen_name(n + 2);
    if x0 == x1 {
        lemma_gen_name_injective(n, n + 1);
    }
    if x0 == x2 {
        lemma_gen_name_injective(n, n + 2);
    }
    if x1 == x2 {
        lemma_gen_name_injective(n + 1, n + 2);
    }
    reveal_with_fuel(subst_all, 10);
    let step1 = apply1(b_value(n), f);
    assert(step1 == LamV::Func(
        x1,
        Box::new(
            LamV::Func(
                x2,
                Box::new(
                    LamV::Apply(
                        Box::new(f),
                        Box::new(
                            LamV::Apply(Box::new(LamV::Symbol(x1)), Box::new(LamV::Symbol(x2))),
                        ),
                    ),
                ),
            ),
        ),
    ));
    let step2 = apply1(step1, g);
    lemma_subst_absent(f, x1, g);
    assert(step2 == LamV::Func(
        x2,
        Box::new(
            LamV::Apply(
                Box::new(f),
                Box::new(LamV::Apply(Box::new(g), Box::new(LamV::Symbol(x2)))),
            ),
        ),
    ));
    lemma_subst_absent(f, x2, x);
    lemma_subst_absent(g, x2, x);
}

/// The eliminated `C` applied to `f`, `g` and `x` reduces to `(f x) g`,
/// whenever `f` and `g` do not mention the freshly generated names.
pub proof fn lemma_lamdify_c(n: nat, f: LamV, g: LamV, x: LamV)
    requires
        occurrences(f, gen_name(n + 1)) == 0,
        occurrences(f, gen_name(n + 2)) == 0,
        occurrences(g, gen_name(n + 2)) == 0,
    ensures
        apply1(apply1(apply1(c_value(n), f), g), x) == LamV::Apply(
            Box::new(LamV::Apply(Box::new(f), Box::new(x))),
            Box::new(g),
        ),
{
    let x0 = gen_name(n);
    let x1 = gen_name(n + 1);
    let x2 = gen_name(n + 2);
    if x0 == x1 {
        lemma_gen_name_injective(n, n + 1);
    }
    if x0 == x2 {
        lemma_gen_name_injective(n, n + 2);
    }
    if x1 == x2 {
        lemma_gen_name_injective(n + 1, n + 2);
    }
    reveal_with_fuel(subst_all, 10);
    let step1 = apply1(c_value(n), f);
    assert(step1 == LamV::Func(
        x1,
        Box::new(
            LamV::Func(
                x2,
                Box::new(
                    LamV::Apply(
                        Box::new(LamV::Apply(Box::new(f), Box::new(LamV::Symbol(x2)))),
                        Box::new(LamV::Symbol(x1)),
                    ),
                ),
            ),
        ),
    ));
    let step2 = apply1(step1, g);
    lemma_subst_absent(f, x1, g);
    assert(step2 == LamV::Func(
        x2,
        Box::new(
            LamV::Apply(
                Box::new(LamV::Apply(Box::new(f), Box::new(LamV::Symbol(x2)))),
                Box::new(g),
            ),
        ),
    ));
    lemma_subst_absent(f, x2, x);
    lemma_subst_absent(g, x2, x);
}

/// The eliminated `S` applied to `f`, `g` and `x` reduces to `(f x) (g x)`,
/// whenever `f` and `g` do not mention the freshly generated names.
pub proof fn lemma_lamdify_s(n: nat, f: LamV, g: LamV, x: LamV)
    requires
        occurrences(f, gen_name(n + 1)) == 0,
        occurrences(f, gen_name(n + 2)) == 0,
        occurrences(g, gen_name(n + 2)) == 0,
    ensures
        apply1(apply1(apply1(s_value(n), f), g), x) == LamV::Apply(
            Box::new(LamV::Apply(Box::new(f), Box::new(x))),
            Box::new(LamV::Apply(Box::new(g), Box::new(x))),
        ),
{
    let x0 = gen_name(n);
    let x1 = gen_name(n + 1);
    let x2 = gen_name(n + 2);
    if x0 == x1 {
        lemma_gen_name_injective(n, n + 1);
    }
    if x0 == x2 {
        lemma_gen_name_injective(n, n + 2);
    }
    if x1 == x2 {
        lemma_gen_name_injective(n + 1, n + 2);
    }
    reveal_with_fuel(subst_all, 10);
    let step1 = apply1(s_value(n), f);
    assert(step1 == LamV::Func(
        x1,
        Box::new(
            LamV::Func(
                x2,
                Box::new(
                    LamV::Apply(
                        Box::new(LamV::Apply(Box::new(f), Box::new(LamV::Symbol(x2)))),
                        Box::new(
                            LamV::Apply(Box::new(LamV::Symbol(x1)), Box::new(LamV::Symbol(x2))),
                        ),
                    ),
                ),
            ),
        ),
    ));
    let step2 = apply1(step1, g);
    lemma_subst_absent(f, x1, g);
    assert(step2 == LamV::Func(
        x2,
        Box::new(
            LamV::Apply(
                Box::new(LamV::Apply(Box::new(f), Box::new(LamV::Symbol(x2)))),
                Box::new(LamV::Apply(Box::new(g), Box::new(LamV::Symbol(x2)))),
            ),
        ),
    ));
    lemma_subst_absent(f, x2, x);
    lemma_subst_absent(g, x2, x);
}

} // verus!

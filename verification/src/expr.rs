//! The structured expression tree and the three passes that produce and
//! polish it: the idiom reconstructor, the algebraic simplifier and the
//! renamer, together with the deterministic pretty-printer.

use vstd::prelude::*;
use vstd::string::{StrSliceExecFns, StringExecFns};
use crate::names::str_eq;
use crate::simplified;
use crate::simplified::SimpV;

verus! {

/// Mathematical model of a structured expression.
pub enum ExprV {
    Int(int),
    Symbol(Seq<char>),
    List(Seq<ExprV>),
    True,
    False,
    Neg(Box<ExprV>),
    Add(Box<ExprV>, Box<ExprV>),
    Sub(Box<ExprV>, Box<ExprV>),
    Mul(Box<ExprV>, Box<ExprV>),
    Div(Box<ExprV>, Box<ExprV>),
    Mod(Box<ExprV>, Box<ExprV>),
    Equ(Box<ExprV>, Box<ExprV>),
    Lt(Box<ExprV>, Box<ExprV>),
    Not(Box<ExprV>),
    Or(Box<ExprV>, Box<ExprV>),
    And(Box<ExprV>, Box<ExprV>),
    IsNil(Box<ExprV>),
    If(Box<ExprV>, Box<ExprV>, Box<ExprV>),
    MatchCons(Box<ExprV>, Box<ExprV>, Seq<char>, Seq<char>, Box<ExprV>),
    LetCons(Seq<char>, Seq<char>, Box<ExprV>, Box<ExprV>),
    Let(Seq<char>, Box<ExprV>, Box<ExprV>),
    Call(Seq<ExprV>),
    ADD,
    CAR,
    CDR,
    CONS,
    DIV,
    EQ,
    ISNIL,
    LT,
    MUL,
    NEG,
    Func(Seq<Seq<char>>, Box<ExprV>),
}

/// A structured expression: the decompiler's output type.
#[derive(Debug, PartialEq, Eq)]
pub enum Expr {
    Int(isize),
    Symbol(String),
    List(Vec<Expr>),
    True,
    False,
    Neg(Box<Expr>),
    Add(Box<Expr>, Box<Expr>),
    Sub(Box<Expr>, Box<Expr>),
    Mul(Box<Expr>, Box<Expr>),
    Div(Box<Expr>, Box<Expr>),
    Mod(Box<Expr>, Box<Expr>),
    Equ(Box<Expr>, Box<Expr>),
    Lt(Box<Expr>, Box<Expr>),
    Not(Box<Expr>),
    Or(Box<Expr>, Box<Expr>),
    And(Box<Expr>, Box<Expr>),
    IsNil(Box<Expr>),
    If(Box<Expr>, Box<Expr>, Box<Expr>),
    /// `match e1 { [] => e2, hd::tl => e3 }`
    MatchCons(Box<Expr>, Box<Expr>, String, String, Box<Expr>),
    /// `let hd::tl = e1 in e2`
    LetCons(String, String, Box<Expr>, Box<Expr>),
    /// `let x = e1 in e2`
    Let(String, Box<Expr>, Box<Expr>),
    Call(Vec<Expr>),
    ADD,
    CAR,
    CDR,
    CONS,
    DIV,
    EQ,
    ISNIL,
    LT,
    MUL,
    NEG,
    Func(Vec<String>, Box<Expr>),
}

/// The model of a structured expression.
pub open spec fn view_expr(e: Expr) -> ExprV
    decreases e,
{
    match e {
        Expr::Int(n) => ExprV::Int(n as int),
        Expr::Symbol(s) => ExprV::Symbol(s@),
        Expr::List(l) => ExprV::List(view_expr_list(l@)),
        Expr::True => ExprV::True,
        Expr::False => ExprV::False,
        Expr::Neg(e) => ExprV::Neg(Box::new(view_expr(*e))),
        Expr::Add(a, b) => ExprV::Add(Box::new(view_expr(*a)), Box::new(view_expr(*b))),
        Expr::Sub(a, b) => ExprV::Sub(Box::new(view_expr(*a)), Box::new(view_expr(*b))),
        Expr::Mul(a, b) => ExprV::Mul(Box::new(view_expr(*a)), Box::new(view_expr(*b))),
        Expr::Div(a, b) => ExprV::Div(Box::new(view_expr(*a)), Box::new(view_expr(*b))),
        Expr::Mod(a, b) => ExprV::Mod(Box::new(view_expr(*a)), Box::new(view_expr(*b))),
        Expr::Equ(a, b) => ExprV::Equ(Box::new(view_expr(*a)), Box::new(view_expr(*b))),
        Expr::Lt(a, b) => ExprV::Lt(Box::new(view_expr(*a)), Box::new(view_expr(*b))),
        Expr::Not(e) => ExprV::Not(Box::new(view_expr(*e))),
        Expr::Or(a, b) => ExprV::Or(Box::new(view_expr(*a)), Box::new(view_expr(*b))),
        Expr::And(a, b) => ExprV::And(Box::new(view_expr(*a)), Box::new(view_expr(*b))),
        Expr::IsNil(e) => ExprV::IsNil(Box::new(view_expr(*e))),
        Expr::If(c, a, b) => ExprV::If(
            Box::new(view_expr(*c)),
            Box::new(view_expr(*a)),
            Box::new(view_expr(*b)),
        ),
        Expr::MatchCons(v, a, hd, tl, b) => ExprV::MatchCons(
            Box::new(view_expr(*v)),
            Box::new(view_expr(*a)),
            hd@,
            tl@,
            Box::new(view_expr(*b)),
        ),
        Expr::LetCons(hd, tl, a, b) => ExprV::LetCons(
            hd@,
            tl@,
            Box::new(view_expr(*a)),
            Box::new(view_expr(*b)),
        ),
        Expr::Let(x, a, b) => ExprV::Let(x@, Box::new(view_expr(*a)), Box::new(view_expr(*b))),
        Expr::Call(l) => ExprV::Call(view_expr_list(l@)),
        Expr::ADD => ExprV::ADD,
        Expr::CAR => ExprV::CAR,
        Expr::CDR => ExprV::CDR,
        Expr::CONS => ExprV::CONS,
        Expr::DIV => ExprV::DIV,
        Expr::EQ => ExprV::EQ,
        Expr::ISNIL => ExprV::ISNIL,
        Expr::LT => ExprV::LT,
        Expr::MUL => ExprV::MUL,
        Expr::NEG => ExprV::NEG,
        Expr::Func(ps, b) => ExprV::Func(
            ps@.map_values(|p: String| p@),
            Box::new(view_expr(*b)),
        ),
    }
}

/// The models of a sequence of structured expressions.
pub open spec fn view_expr_list(s: Seq<Expr>) -> Seq<ExprV>
    decreases s,
{
    if s.len() == 0 {
        Seq::empty()
    } else {
        seq![view_expr(s[0])] + view_expr_list(s.skip(1))
    }
}

pub proof fn lemma_view_expr_list(s: Seq<Expr>)
    ensures
        view_expr_list(s).len() == s.len(),
        forall|i: int| 0 <= i < s.len() ==> view_expr_list(s)[i] == view_expr(s[i]),
    decreases s.len(),
{
    if s.len() > 0 {
        lemma_view_expr_list(s.skip(1));
        assert forall|i: int| 0 <= i < s.len() implies view_expr_list(s)[i] == view_expr(
            s[i],
        ) by {
            if i > 0 {
                assert(view_expr_list(s)[i] == view_expr_list(s.skip(1))[i - 1]);
                assert(s.skip(1)[i - 1] == s[i]);
            }
        }
    }
}

impl View for Expr {
    type V = ExprV;

    open spec fn view(&self) -> ExprV {
        view_expr(*self)
    }
}

impl Clone for Expr {
    #[verifier::loop_isolation(false)]
    fn clone(&self) -> (r: Self)
        ensures
            r@ == self@,
        decreases self,
    {
        match self {
            Expr::Int(n) => Expr::Int(*n),
            Expr::Symbol(s) => Expr::Symbol(s.clone()),
            Expr::List(l) => {
                let ghost a = *self;
                proof {
                    assert(a->List_0 == *l);
                    assert(decreases_to!(a => a->List_0));
                }
                Expr::List(clone_vec_expr(l))
            },
            Expr::True => Expr::True,
            Expr::False => Expr::False,
            Expr::Neg(e) => Expr::Neg(Box::new((**e).clone())),
            Expr::Add(x, y) => Expr::Add(Box::new((**x).clone()), Box::new((**y).clone())),
            Expr::Sub(x, y) => Expr::Sub(Box::new((**x).clone()), Box::new((**y).clone())),
            Expr::Mul(x, y) => Expr::Mul(Box::new((**x).clone()), Box::new((**y).clone())),
            Expr::Div(x, y) => Expr::Div(Box::new((**x).clone()), Box::new((**y).clone())),
            Expr::Mod(x, y) => Expr::Mod(Box::new((**x).clone()), Box::new((**y).clone())),
            Expr::Equ(x, y) => Expr::Equ(Box::new((**x).clone()), Box::new((**y).clone())),
            Expr::Lt(x, y) => Expr::Lt(Box::new((**x).clone()), Box::new((**y).clone())),
            Expr::Not(e) => Expr::Not(Box::new((**e).clone())),
            Expr::Or(x, y) => Expr::Or(Box::new((**x).clone()), Box::new((**y).clone())),
            Expr::And(x, y) => Expr::And(Box::new((**x).clone()), Box::new((**y).clone())),
            Expr::IsNil(e) => Expr::IsNil(Box::new((**e).clone())),
            Expr::If(c, x, y) => Expr::If(
                Box::new((**c).clone()),
                Box::new((**x).clone()),
                Box::new((**y).clone()),
            ),
            Expr::MatchCons(v, x, hd, tl, y) => Expr::MatchCons(
                Box::new((**v).clone()),
                Box::new((**x).clone()),
                hd.clone(),
                tl.clone(),
                Box::new((**y).clone()),
            ),
            Expr::LetCons(hd, tl, x, y) => Expr::LetCons(
                hd.clone(),
                tl.clone(),
                Box::new((**x).clone()),
                Box::new((**y).clone()),
            ),
            Expr::Let(v, x, y) => Expr::Let(
                v.clone(),
                Box::new((**x).clone()),
                Box::new((**y).clone()),
            ),
            Expr::Call(l) => {
                let ghost a = *self;
                proof {
                    assert(a->Call_0 == *l);
                    assert(decreases_to!(a => a->Call_0));
                }
                Expr::Call(clone_vec_expr(l))
            },
            Expr::ADD => Expr::ADD,
            Expr::CAR => Expr::CAR,
            Expr::CDR => Expr::CDR,
            Expr::CONS => Expr::CONS,
            Expr::DIV => Expr::DIV,
            Expr::EQ => Expr::EQ,
            Expr::ISNIL => Expr::ISNIL,
            Expr::LT => Expr::LT,
            Expr::MUL => Expr::MUL,
            Expr::NEG => Expr::NEG,
            Expr::Func(ps, b) => Expr::Func(clone_vec_string(ps), Box::new((**b).clone())),
        }
    }
}

#[verifier::loop_isolation(false)]
fn clone_vec_expr(l: &Vec<Expr>) -> (r: Vec<Expr>)
    ensures
        view_expr_list(r@) == view_expr_list(l@),
        r@.len() == l@.len(),
    decreases l@,
{
    let mut l2: Vec<Expr> = Vec::new();
    let mut i: usize = 0;
    while i < l.len()
        invariant
            i <= l@.len(),
            l2@.len() == i,
            forall|j: int| 0 <= j < i ==> #[trigger] view_expr(l2@[j]) == view_expr(l@[j]),
        decreases l@.len() - i,
    {
        proof {
            assert(decreases_to!(*l => l@));
            assert(decreases_to!(l@ => l@[i as int]));
        }
        l2.push(l[i].clone());
        i = i + 1;
    }
    proof {
        lemma_view_expr_list(l2@);
        lemma_view_expr_list(l@);
        assert forall|j: int| 0 <= j < l@.len() implies view_expr_list(l2@)[j] == view_expr_list(
            l@,
        )[j] by {
            assert(view_expr(l2@[j]) == view_expr(l@[j]));
        }
        assert(view_expr_list(l2@) =~= view_expr_list(l@));
    }
    l2
}

#[verifier::loop_isolation(false)]
fn clone_vec_string(l: &Vec<String>) -> (r: Vec<String>)
    ensures
        r@.map_values(|p: String| p@) == l@.map_values(|p: String| p@),
        r@.len() == l@.len(),
{
    let mut l2: Vec<String> = Vec::new();
    let mut i: usize = 0;
    while i < l.len()
        invariant
            i <= l@.len(),
            l2@.len() == i,
            forall|j: int| 0 <= j < i ==> #[trigger] l2@[j]@ == l@[j]@,
        decreases l@.len() - i,
    {
        l2.push(l[i].clone());
        i = i + 1;
    }
    proof {
        assert(l2@.map_values(|p: String| p@) =~= l@.map_values(|p: String| p@));
    }
    l2
}

/// Mathematical model of a declared type.
pub enum TypeV {
    Int,
    Bool,
    List,
    Func(Seq<(Option<Seq<char>>, Option<TypeV>)>, Box<Option<TypeV>>),
}

/// A type as declared by the external dictionary for a known symbol: a few
/// base types and function signatures with optional parameter information.
#[derive(Debug, PartialEq, Eq)]
pub enum Type {
    Int,
    Bool,
    List,
    Func(Vec<(Option<String>, Option<Type>)>, Box<Option<Type>>),
}

/// The model of a declared type.
pub open spec fn view_type(t: Type) -> TypeV
    decreases t,
{
    match t {
        Type::Int => TypeV::Int,
        Type::Bool => TypeV::Bool,
        Type::List => TypeV::List,
        Type::Func(ps, r) => TypeV::Func(
            view_type_params(ps@),
            Box::new(
                match *r {
                    Some(t2) => Some(view_type(t2)),
                    None => None,
                },
            ),
        ),
    }
}

/// The models of a signature's parameter list.
pub open spec fn view_type_params(s: Seq<(Option<String>, Option<Type>)>) -> Seq<
    (Option<Seq<char>>, Option<TypeV>),
>
    decreases s,
{
    if s.len() == 0 {
        Seq::empty()
    } else {
        let p0 = (
            match s[0].0 {
                Some(n) => Some(n@),
                None => None,
            },
            match s[0].1 {
                Some(t) => Some(view_type(t)),
                None => None,
            },
        );
        seq![p0] + view_type_params(s.skip(1))
    }
}

impl View for Type {
    type V = TypeV;

    open spec fn view(&self) -> TypeV {
        view_type(*self)
    }
}

/// The model of the external dictionary: original reference text to
/// human-readable name and optional declared type, newest entry last.
pub type EnvModel = Seq<(Seq<char>, (Seq<char>, Option<TypeV>))>;

/// The newest entry for `name`.
pub open spec fn env_find(m: EnvModel, name: Seq<char>) -> Option<(Seq<char>, Option<TypeV>)>
    decreases m.len(),
{
    if m.len() == 0 {
        None
    } else if m.last().0 == name {
        Some(m.last().1)
    } else {
        env_find(m.drop_last(), name)
    }
}

/// The read-only external dictionary: maps opaque reference text such as
/// `:1234` to a human-readable name and, for a few entries, a declared type.
pub struct Env {
    entries: Vec<(String, (String, Option<Type>))>,
}

impl View for Env {
    type V = EnvModel;

    closed spec fn view(&self) -> EnvModel {
        self.entries@.map_values(
            |p: (String, (String, Option<Type>))|
                (
                    p.0@,
                    (
                        p.1.0@,
                        match p.1.1 {
                            Some(t) => Some(view_type(t)),
                            None => None,
                        },
                    ),
                ),
        )
    }
}

impl Env {
    /// An empty dictionary.
    pub fn new() -> (r: Self)
        ensures
            r@ == Seq::<(Seq<char>, (Seq<char>, Option<TypeV>))>::empty(),
    {
        let r = Env { entries: Vec::new() };
        proof {
            assert(r@ =~= Seq::<(Seq<char>, (Seq<char>, Option<TypeV>))>::empty());
        }
        r
    }

    /// Registers a name (and possibly a type) for a raw reference; a later
    /// entry for the same reference wins.
    pub fn insert(&mut self, orig_name: &str, name: &str, t: Option<Type>)
        ensures
            final(self)@ == old(self)@.push(
                (
                    orig_name@,
                    (
                        name@,
                        match t {
                            Some(t0) => Some(t0@),
                            None => None,
                        },
                    ),
                ),
            ),
    {
        let ghost oldm = self@;
        let ghost tv = match &t {
            Some(t0) => Some(t0@),
            None => None,
        };
        self.entries.push((String::from_str(orig_name), (String::from_str(name), t)));
        proof {
            assert(self@ =~= oldm.push((orig_name@, (name@, tv))));
        }
    }

    /// The registered human-readable name for a raw reference.
    pub fn get_name(&self, name: &str) -> (r: Option<&String>)
        ensures
            match r {
            Some(n) => env_find(self@, name@) matches Some(e) && e.0 == n@,
                None => env_find(self@, name@) is None,
            },
    {
        let mut i = self.entries.len();
        while i > 0
            invariant
                i <= self.entries@.len(),
                forall|j: int|
                    i <= j < self.entries@.len() ==> #[trigger] self.entries@[j].0@ != name@,
            decreases i,
        {
            i = i - 1;
            if str_eq(self.entries[i].0.as_str(), name) {
                proof {
                    assert forall|j: int| (i as int) < j < self@.len() implies #[trigger] self@[j].0
                        != name@ by {
                        assert(self@[j].0 == self.entries@[j].0@);
                    }
                    assert(self@[i as int].0 == self.entries@[i as int].0@);
                    lemma_env_find_at(self@, name@, i as int);
                    assert(self@[i as int] == (
                        self.entries@[i as int].0@,
                        (
                            self.entries@[i as int].1.0@,
                            match self.entries@[i as int].1.1 {
                                Some(t) => Some(view_type(t)),
                                None => None,
                            },
                        ),
                    ));
                }
                return Some(&self.entries[i].1.0);
            }
        }
        proof {
            assert forall|j: int| 0 <= j < self@.len() implies #[trigger] self@[j].0 != name@ by {
                assert(self@[j].0 == self.entries@[j].0@);
            }
            lemma_env_find_none(self@, name@);
        }
        None
    }

    /// The declared type for a raw reference, where one was registered.
    pub fn get_type(&self, name: &str) -> (r: Option<&Type>)
        ensures
            match r {
                Some(t) => env_find(self@, name@) matches Some(e) && e.1 == Some(t@),
                None => !(env_find(self@, name@) matches Some(e) && e.1 is Some),
            },
    {
        let mut i = self.entries.len();
        while i > 0
            invariant
                i <= self.entries@.len(),
                forall|j: int|
                    i <= j < self.entries@.len() ==> #[trigger] self.entries@[j].0@ != name@,
            decreases i,
        {
            i = i - 1;
            if str_eq(self.entries[i].0.as_str(), name) {
                proof {
                    assert forall|j: int| (i as int) < j < self@.len() implies #[trigger] self@[j].0
                        != name@ by {
                        assert(self@[j].0 == self.entries@[j].0@);
                    }
                    assert(self@[i as int].0 == self.entries@[i as int].0@);
                    lemma_env_find_at(self@, name@, i as int);
                    assert(self@[i as int] == (
                        self.entries@[i as int].0@,
                        (
                            self.entries@[i as int].1.0@,
                            match self.entries@[i as int].1.1 {
                                Some(t) => Some(view_type(t)),
                                None => None,
                            },
                        ),
                    ));
                }
                match &self.entries[i].1.1 {
                    Some(t) => {
                        return Some(t);
                    },
                    None => {
                        return None;
                    },
                }
            }
        }
        proof {
            assert forall|j: int| 0 <= j < self@.len() implies #[trigger] self@[j].0 != name@ by {
                assert(self@[j].0 == self.entries@[j].0@);
            }
            lemma_env_find_none(self@, name@);
        }
        None
    }
}

proof fn lemma_env_find_at(m: EnvModel, name: Seq<char>, i: int)
    requires
        0 <= i < m.len(),
        m[i].0 == name,
        forall|j: int| i < j < m.len() ==> #[trigger] m[j].0 != name,
    ensures
        env_find(m, name) == Some(m[i].1),
    decreases m.len(),
{
    if i < m.len() - 1 {
        lemma_env_find_at(m.drop_last(), name, i);
    }
}

proof fn lemma_env_find_none(m: EnvModel, name: Seq<char>)
    requires
        forall|j: int| 0 <= j < m.len() ==> #[trigger] m[j].0 != name,
    ensures
        env_find(m, name) is None,
    decreases m.len(),
{
    if m.len() > 0 {
        lemma_env_find_none(m.drop_last(), name);
    }
}

/// The per-definition type environment built during reconstruction: inferred
/// types for symbols, newest last.
pub type TEnvV = Seq<(Seq<char>, TypeV)>;

/// The models of an executable type environment.
pub open spec fn tenv_view(t: Seq<(String, Type)>) -> TEnvV {
    t.map_values(|p: (String, Type)| (p.0@, view_type(p.1)))
}

/// The newest inferred type for `s`.
pub open spec fn tenv_get(tenv: TEnvV, s: Seq<char>) -> Option<TypeV>
    decreases tenv.len(),
{
    if tenv.len() == 0 {
        None
    } else if tenv.last().0 == s {
        Some(tenv.last().1)
    } else {
        tenv_get(tenv.drop_last(), s)
    }
}

/// The type of a symbol: the local inferred type first, then the external
/// dictionary's declared type.
pub open spec fn sym_type(tenv: TEnvV, env: EnvModel, s: Seq<char>) -> Option<TypeV> {
    match tenv_get(tenv, s) {
        Some(t) => Some(t),
        None => match env_find(env, s) {
            Some(e) => e.1,
            None => None,
        },
    }
}

/// Whether an expression is statically known to be boolean-valued: literal
/// booleans, comparisons, the boolean connectives, `isnil`, or a symbol whose
/// declared return type is boolean.
pub open spec fn is_bool_v(e: ExprV, tenv: TEnvV, env: EnvModel) -> bool {
    match e {
        ExprV::True => true,
        ExprV::False => true,
        ExprV::Equ(_, _) => true,
        ExprV::Lt(_, _) => true,
        ExprV::Or(_, _) => true,
        ExprV::And(_, _) => true,
        ExprV::Not(_) => true,
        ExprV::IsNil(_) => true,
        ExprV::Symbol(s) => sym_type(tenv, env, s) == Some(TypeV::Bool),
        _ => false,
    }
}

/// The symbol's name, where the expression is a bare symbol.
pub open spec fn name_of_v(e: ExprV) -> Option<Seq<char>> {
    match e {
        ExprV::Symbol(s) => Some(s),
        _ => None,
    }
}

/// The fixed "or" shape: a two-element call whose both positions reference
/// the bound name.
pub open spec fn is_or_v(name: Seq<char>, e: ExprV) -> bool {
    match e {
        ExprV::Call(vals) => vals.len() == 2 && name_of_v(vals[0]) == Some(name) && name_of_v(
            vals[1],
        ) == Some(name),
        _ => false,
    }
}

/// The fixed "and" shape: a one-parameter function whose body is a
/// three-element call with one of two exact variable layouts.
pub open spec fn is_and_v(name: Seq<char>, e: ExprV) -> bool {
    match e {
        ExprV::Func(params, body) => params.len() == 1 && match *body {
            ExprV::Call(vals) => {
                let p2 = params[0];
                vals.len() == 3 && ((name_of_v(vals[0]) == Some(name) && name_of_v(vals[1])
                    == Some(p2) && name_of_v(vals[2]) == Some(name)) || (name_of_v(vals[0])
                    == Some(p2) && name_of_v(vals[1]) == Some(name) && name_of_v(vals[2]) == Some(
                    p2,
                )))
            },
            _ => false,
        },
        _ => false,
    }
}

/// Whether `name` is referenced anywhere in the expression.
pub open spec fn contains_name_v(name: Seq<char>, e: ExprV) -> bool
    decreases e,
{
    match e {
        ExprV::Symbol(s) => s == name,
        ExprV::List(v) => contains_name_list(name, v),
        ExprV::Call(v) => contains_name_list(name, v),
        ExprV::Neg(e1) => contains_name_v(name, *e1),
        ExprV::Not(e1) => contains_name_v(name, *e1),
        ExprV::IsNil(e1) => contains_name_v(name, *e1),
        ExprV::Func(_, e1) => contains_name_v(name, *e1),
        ExprV::Add(e1, e2) => contains_name_v(name, *e1) || contains_name_v(name, *e2),
        ExprV::Sub(e1, e2) => contains_name_v(name, *e1) || contains_name_v(name, *e2),
        ExprV::Mul(e1, e2) => contains_name_v(name, *e1) || contains_name_v(name, *e2),
        ExprV::Div(e1, e2) => contains_name_v(name, *e1) || contains_name_v(name, *e2),
        ExprV::Mod(e1, e2) => contains_name_v(name, *e1) || contains_name_v(name, *e2),
        ExprV::Equ(e1, e2) => contains_name_v(name, *e1) || contains_name_v(name, *e2),
        ExprV::Lt(e1, e2) => contains_name_v(name, *e1) || contains_name_v(name, *e2),
        ExprV::Or(e1, e2) => contains_name_v(name, *e1) || contains_name_v(name, *e2),
        ExprV::And(e1, e2) => contains_name_v(name, *e1) || contains_name_v(name, *e2),
        ExprV::LetCons(_, _, e1, e2) => contains_name_v(name, *e1) || contains_name_v(name, *e2),
        ExprV::Let(_, e1, e2) => contains_name_v(name, *e1) || contains_name_v(name, *e2),
        ExprV::MatchCons(e1, e2, _, _, e3) => contains_name_v(name, *e1) || contains_name_v(
            name,
            *e2,
        ) || contains_name_v(name, *e3),
        ExprV::If(e1, e2, e3) => contains_name_v(name, *e1) || contains_name_v(name, *e2)
            || contains_name_v(name, *e3),
        _ => false,
    }
}

pub open spec fn contains_name_list(name: Seq<char>, v: Seq<ExprV>) -> bool
    decreases v,
{
    if v.len() == 0 {
        false
    } else {
        contains_name_v(name, v[0]) || contains_name_list(name, v.skip(1))
    }
}

/// The "not" idiom: a two-parameter function whose body selects the second
/// parameter over the first, with a condition that references neither.
pub open spec fn is_not_v(params: Seq<Seq<char>>, e: ExprV) -> bool {
    params.len() == 2 && match e {
        ExprV::If(cond, e1, e2) => name_of_v(*e1) == Some(params[1]) && name_of_v(*e2) == Some(
            params[0],
        ) && !contains_name_v(params[0], *cond) && !contains_name_v(params[1], *cond),
        _ => false,
    }
}

/// Whether the expression is a function value, possibly under a chain of
/// let-bindings.
pub open spec fn is_func_v(e: ExprV) -> bool
    decreases e,
{
    match e {
        ExprV::Let(_, _, body) => is_func_v(*body),
        ExprV::Func(_, _) => true,
        _ => false,
    }
}

/// Splits a let-chain ending in a function value into its bindings
/// (outermost last), the function's parameters and its body.
pub open spec fn decompose_let_v(e: ExprV) -> (Seq<(Seq<char>, ExprV)>, Seq<Seq<char>>, ExprV)
    decreases e,
{
    match e {
        ExprV::Let(var, e1, e2) => {
            let (ls, ps, body) = decompose_let_v(*e2);
            (ls.push((var, *e1)), ps, body)
        },
        ExprV::Func(ps, body) => (Seq::empty(), ps, *body),
        _ => (Seq::empty(), Seq::empty(), e),
    }
}

/// Rebuilds a let-chain around a function value, dropping the function
/// wrapper when no parameters remain.
pub open spec fn compose_let_v(ls: Seq<(Seq<char>, ExprV)>, ps: Seq<Seq<char>>, body: ExprV) -> ExprV
    decreases ls.len(),
{
    if ls.len() == 0 {
        if ps.len() == 0 {
            body
        } else {
            ExprV::Func(ps, Box::new(body))
        }
    } else {
        ExprV::Let(
            ls.last().0,
            Box::new(ls.last().1),
            Box::new(compose_let_v(ls.drop_last(), ps, body)),
        )
    }
}

/// The idiom reconstructor: turns a simplified tree into a structured
/// expression, recognizing negation, `isnil`, list destructuring, the
/// boolean or/and/not shapes, conditionals encoded as boolean application,
/// and saturated calls with a declared boolean arity; anything else becomes
/// a generic call or function node. Returns the expression and the type
/// environment accumulated so far.
pub open spec fn construct_v(v: SimpV, tenv: TEnvV, env: EnvModel) -> (ExprV, TEnvV)
    decreases v, 0int,
{
    match v {
        SimpV::Symbol(s) => (ExprV::Symbol(s), tenv),
        SimpV::Int(i) => (ExprV::Int(i), tenv),
        SimpV::T => (ExprV::True, tenv),
        SimpV::F => (ExprV::False, tenv),
        SimpV::ADD => (ExprV::ADD, tenv),
        SimpV::CAR => (ExprV::CAR, tenv),
        SimpV::CDR => (ExprV::CDR, tenv),
        SimpV::CONS => (ExprV::CONS, tenv),
        SimpV::DIV => (ExprV::DIV, tenv),
        SimpV::EQ => (ExprV::EQ, tenv),
        SimpV::ISNIL => (ExprV::ISNIL, tenv),
        SimpV::LT => (ExprV::LT, tenv),
        SimpV::MUL => (ExprV::MUL, tenv),
        SimpV::NEG => (ExprV::NEG, tenv),
        SimpV::Apply(fun, arg) => construct_apply_v(
            construct_v(*fun, tenv, env),
            *arg,
            env,
        ),
        SimpV::Func(param, body) => {
            let (be, t1) = construct_v(*body, tenv, env);
            match be {
                ExprV::Func(params, b2) => {
                    let ps = seq![param] + params;
                    if is_not_v(ps, *b2) {
                        match *b2 {
                            ExprV::If(cond, _, _) => (ExprV::Not(cond), t1),
                            _ => (ExprV::Func(ps, b2), t1),
                        }
                    } else {
                        (ExprV::Func(ps, b2), t1)
                    }
                },
                be => (ExprV::Func(seq![param], Box::new(be)), t1),
            }
        },
        SimpV::List(lst) => {
            let (es, t1) = construct_list_v(lst, tenv, env);
            (ExprV::List(es), t1)
        },
    }
}

/// One application step of the reconstructor: branches on the shape the
/// function side took, then folds the freshly reconstructed argument in.
pub open spec fn construct_apply_v(fe_t1: (ExprV, TEnvV), arg: SimpV, env: EnvModel) -> (
    ExprV,
    TEnvV,
)
    decreases arg, 2int,
{
    let fe = fe_t1.0;
    let t1 = fe_t1.1;
    match fe {
        ExprV::NEG => {
            let (ae, t2) = construct_v(arg, t1, env);
            (ExprV::Neg(Box::new(ae)), t2)
        },
        ExprV::Symbol(s) => if sym_type(t1, env, s) == Some(TypeV::List) {
            let (ae, t2) = construct_v(arg, t1, env);
            match ae {
                ExprV::Func(params, body) => if params.len() >= 2 {
                    let rest = params.skip(2);
                    let body2 = if rest.len() > 0 {
                        ExprV::Func(rest, body)
                    } else {
                        *body
                    };
                    (
                        ExprV::LetCons(
                            params[0],
                            params[1],
                            Box::new(ExprV::Symbol(s)),
                            Box::new(body2),
                        ),
                        t2,
                    )
                } else {
                    (ExprV::Call(seq![ExprV::Symbol(s), ExprV::Func(params, body)]), t2)
                },
                ae => (ExprV::Call(seq![ExprV::Symbol(s), ae]), t2),
            }
        } else {
            let (ae, t2) = construct_v(arg, t1, env);
            (ExprV::Call(seq![ExprV::Symbol(s), ae]), t2)
        },
        ExprV::ISNIL => {
            let (ae, t2) = construct_v(arg, t1, env);
            let t3 = match ae {
                ExprV::Symbol(s2) => t2.push((s2, TypeV::List)),
                _ => t2,
            };
            (ExprV::IsNil(Box::new(ae)), t3)
        },
        ExprV::Let(var, e1, e2) => if is_or_v(var, *e2) {
            let (ae, t2) = construct_v(arg, t1, env);
            (ExprV::Or(e1, Box::new(ae)), t2)
        } else if is_and_v(var, *e2) {
            let (ae, t2) = construct_v(arg, t1, env);
            (ExprV::And(e1, Box::new(ae)), t2)
        } else {
            construct_fallback_v(ExprV::Let(var, e1, e2), arg, t1, env)
        },
        ExprV::Call(vals) => {
            let (ae, t2) = construct_v(arg, t1, env);
            (call_step_v(vals, ae, t2, env), t2)
        },
        fe => construct_fallback_v(fe, arg, t1, env),
    }
}


/// Folds one more argument onto a pending call: a conditional when the head
/// is boolean-valued or a saturated boolean-typed symbol, a binary operator
/// when the head is an arithmetic or relational primitive, and otherwise one
/// more call argument.
pub open spec fn call_step_v(vals: Seq<ExprV>, ae: ExprV, t2: TEnvV, env: EnvModel) -> ExprV {
    if vals.len() == 2 {
        if is_bool_v(vals[0], t2, env) {
            ExprV::If(Box::new(vals[0]), Box::new(vals[1]), Box::new(ae))
        } else {
            match vals[0] {
                ExprV::ADD => ExprV::Add(Box::new(vals[1]), Box::new(ae)),
                ExprV::MUL => ExprV::Mul(Box::new(vals[1]), Box::new(ae)),
                ExprV::DIV => ExprV::Div(Box::new(vals[1]), Box::new(ae)),
                ExprV::EQ => ExprV::Equ(Box::new(vals[1]), Box::new(ae)),
                ExprV::LT => ExprV::Lt(Box::new(vals[1]), Box::new(ae)),
                _ => ExprV::Call(vals.push(ae)),
            }
        }
    } else if vals.len() > 2 {
        if saturated_bool_call(vals, t2, env) {
            ExprV::If(
                Box::new(ExprV::Call(vals.drop_last())),
                Box::new(vals.last()),
                Box::new(ae),
            )
        } else {
            ExprV::Call(vals.push(ae))
        }
    } else {
        ExprV::Call(vals.push(ae))
    }
}

/// Whether a pending call's head symbol has a declared arity equal to the
/// arguments collected so far and a boolean return type.
pub open spec fn saturated_bool_call(vals: Seq<ExprV>, tenv: TEnvV, env: EnvModel) -> bool {
    match vals[0] {
        ExprV::Symbol(s) => match sym_type(tenv, env, s) {
            Some(TypeV::Func(ps, r)) => ps.len() == vals.len() - 2 && *r == Some(TypeV::Bool),
            _ => false,
        },
        _ => false,
    }
}

/// The last two reconstruction choices: pushing a binding onto a let-chain
/// around a function value, or accumulating a generic call.
pub open spec fn construct_fallback_v(fe: ExprV, arg: SimpV, t1: TEnvV, env: EnvModel) -> (
    ExprV,
    TEnvV,
)
    decreases arg, 1int,
{
    let (ae, t2) = construct_v(arg, t1, env);
    if is_func_v(fe) && decompose_let_v(fe).1.len() > 0 {
        let (ls, ps, body) = decompose_let_v(fe);
        let var = ps[0];
        let ps2 = ps.skip(1);
        (compose_let_v(ls.push((var, ae)), ps2, body), t2)
    } else {
        (ExprV::Call(seq![fe, ae]), t2)
    }
}

/// Reconstructs the elements of a literal list in order, threading the type
/// environment through.
pub open spec fn construct_list_v(s: Seq<SimpV>, tenv: TEnvV, env: EnvModel) -> (
    Seq<ExprV>,
    TEnvV,
)
    decreases s, 0int,
{
    if s.len() == 0 {
        (Seq::empty(), tenv)
    } else {
        let (e0, t1) = construct_v(s[0], tenv, env);
        let (rest, t2) = construct_list_v(s.skip(1), t1, env);
        (seq![e0] + rest, t2)
    }
}

pub proof fn lemma_view_expr_list_push(s: Seq<Expr>, e: Expr)
    ensures
        view_expr_list(s.push(e)) == view_expr_list(s).push(view_expr(e)),
{
    lemma_view_expr_list(s.push(e));
    lemma_view_expr_list(s);
    assert forall|i: int| 0 <= i < s.len() + 1 implies view_expr_list(s.push(e))[i]
        == view_expr_list(s).push(view_expr(e))[i] by {
        if i < s.len() {
            assert(s.push(e)[i] == s[i]);
        } else {
            assert(s.push(e)[i] == e);
        }
    }
    assert(view_expr_list(s.push(e)) =~= view_expr_list(s).push(view_expr(e)));
}

pub proof fn lemma_view_expr_list_drop_last(s: Seq<Expr>)
    requires
        s.len() > 0,
    ensures
        view_expr_list(s.drop_last()) == view_expr_list(s).drop_last(),
        view_expr(s.last()) == view_expr_list(s).last(),
    decreases s.len(),
{
    lemma_view_expr_list(s);
    lemma_view_expr_list(s.drop_last());
    assert forall|i: int| 0 <= i < s.len() - 1 implies view_expr_list(s.drop_last())[i]
        == view_expr_list(s).drop_last()[i] by {
        assert(s.drop_last()[i] == s[i]);
    }
    assert(view_expr_list(s.drop_last()) =~= view_expr_list(s).drop_last());
}

proof fn lemma_view_type_params_len(s: Seq<(Option<String>, Option<Type>)>)
    ensures
        view_type_params(s).len() == s.len(),
    decreases s.len(),
{
    if s.len() > 0 {
        lemma_view_type_params_len(s.skip(1));
    }
}

#[verifier::loop_isolation(false)]
fn tenv_get_exec<'a>(tenv: &'a Vec<(String, Type)>, s: &str) -> (r: Option<&'a Type>)
    ensures
        match r {
            Some(t) => tenv_get(tenv_view(tenv@), s@) == Some(t@),
            None => tenv_get(tenv_view(tenv@), s@) is None,
        },
{
    let mut i = tenv.len();
    while i > 0
        invariant
            i <= tenv@.len(),
            forall|j: int| i <= j < tenv@.len() ==> #[trigger] tenv@[j].0@ != s@,
        decreases i,
    {
        i = i - 1;
        if str_eq(tenv[i].0.as_str(), s) {
            proof {
                assert forall|j: int| (i as int) < j < tenv@.len() implies #[trigger] tenv_view(
                    tenv@,
                )[j].0 != s@ by {
                    assert(tenv_view(tenv@)[j] == (tenv@[j].0@, view_type(tenv@[j].1)));
                }
                assert(tenv_view(tenv@)[i as int] == (
                    tenv@[i as int].0@,
                    view_type(tenv@[i as int].1),
                ));
                lemma_tenv_get_at(tenv_view(tenv@), s@, i as int);
            }
            return Some(&tenv[i].1);
        }
    }
    proof {
        assert forall|j: int| 0 <= j < tenv@.len() implies #[trigger] tenv_view(tenv@)[j].0
            != s@ by {
            assert(tenv_view(tenv@)[j] == (tenv@[j].0@, view_type(tenv@[j].1)));
        }
        lemma_tenv_get_none(tenv_view(tenv@), s@);
    }
    None
}

proof fn lemma_tenv_get_at(m: TEnvV, s: Seq<char>, i: int)
    requires
        0 <= i < m.len(),
        m[i].0 == s,
        forall|j: int| i < j < m.len() ==> #[trigger] m[j].0 != s,
    ensures
        tenv_get(m, s) == Some(m[i].1),
    decreases m.len(),
{
    if i < m.len() - 1 {
        lemma_tenv_get_at(m.drop_last(), s, i);
    }
}

proof fn lemma_tenv_get_none(m: TEnvV, s: Seq<char>)
    requires
        forall|j: int| 0 <= j < m.len() ==> #[trigger] m[j].0 != s,
    ensures
        tenv_get(m, s) is None,
    decreases m.len(),
{
    if m.len() > 0 {
        lemma_tenv_get_none(m.drop_last(), s);
    }
}

/// Whether the symbol's type, local first then dictionary, is boolean.
fn sym_type_is_bool(tenv: &Vec<(String, Type)>, env: &Env, s: &str) -> (r: bool)
    ensures
        r == (sym_type(tenv_view(tenv@), env@, s@) == Some(TypeV::Bool)),
{
    match tenv_get_exec(tenv, s) {
        Some(t) => match t {
            Type::Bool => true,
            _ => false,
        },
        None => match env.get_type(s) {
            Some(t) => match t {
                Type::Bool => true,
                _ => false,
            },
            None => false,
        },
    }
}

/// Whether the symbol's type is the list type.
fn sym_type_is_list(tenv: &Vec<(String, Type)>, env: &Env, s: &str) -> (r: bool)
    ensures
        r == (sym_type(tenv_view(tenv@), env@, s@) == Some(TypeV::List)),
{
    match tenv_get_exec(tenv, s) {
        Some(t) => match t {
            Type::List => true,
            _ => false,
        },
        None => match env.get_type(s) {
            Some(t) => match t {
                Type::List => true,
                _ => false,
            },
            None => false,
        },
    }
}

/// Whether the symbol is declared as a boolean-returning function of exactly
/// `n` parameters.
fn sym_type_bool_arity(tenv: &Vec<(String, Type)>, env: &Env, s: &str, n: usize) -> (r: bool)
    ensures
        r == match sym_type(tenv_view(tenv@), env@, s@) {
            Some(TypeV::Func(ps, ret)) => ps.len() == n && *ret == Some(TypeV::Bool),
            _ => false,
        },
{
    proof {
        reveal_with_fuel(view_type, 3);
    }
    let t = match tenv_get_exec(tenv, s) {
        Some(t) => Some(t),
        None => env.get_type(s),
    };
    match t {
        Some(tt) => match tt {
            Type::Func(ps, ret) => {
                proof {
                    lemma_view_type_params_len(ps@);
                }
                if ps.len() != n {
                    return false;
                }
                match &**ret {
                    Some(rt) => match rt {
                        Type::Bool => true,
                        Type::Int => false,
                        Type::List => false,
                        Type::Func(_, _) => false,
                    },
                    None => false,
                }
            },
            Type::Int => false,
            Type::Bool => false,
            Type::List => false,
        },
        None => false,
    }
}

/// Whether the expression is statically known to be boolean-valued.
fn is_bool(e: &Expr, tenv: &Vec<(String, Type)>, env: &Env) -> (r: bool)
    ensures
        r == is_bool_v(e@, tenv_view(tenv@), env@),
{
    match e {
        Expr::True => true,
        Expr::False => true,
        Expr::Equ(_, _) => true,
        Expr::Lt(_, _) => true,
        Expr::Or(_, _) => true,
        Expr::And(_, _) => true,
        Expr::Not(_) => true,
        Expr::IsNil(_) => true,
        Expr::Symbol(s) => sym_type_is_bool(tenv, env, s.as_str()),
        _ => false,
    }
}

fn name_matches(e: &Expr, name: &str) -> (r: bool)
    ensures
        r == (name_of_v(e@) == Some(name@)),
{
    match e {
        Expr::Symbol(s) => str_eq(s.as_str(), name),
        _ => false,
    }
}

/// Recognizes the fixed "or" shape under a let-binding.
fn is_or(name: &str, e: &Expr) -> (r: bool)
    ensures
        r == is_or_v(name@, e@),
{
    match e {
        Expr::Call(vals) => {
            proof {
                lemma_view_expr_list(vals@);
            }
            vals.len() == 2 && name_matches(&vals[0], name) && name_matches(&vals[1], name)
        },
        _ => false,
    }
}

/// Recognizes the fixed "and" shape under a let-binding.
fn is_and(name: &str, e: &Expr) -> (r: bool)
    ensures
        r == is_and_v(name@, e@),
{
    proof {
        reveal_with_fuel(view_expr, 3);
    }
    match e {
        Expr::Func(params, body) => {
            if params.len() != 1 {
                proof {
                    assert(e@->Func_0.len() != 1);
                }
                return false;
            }
            proof {
                assert(e@->Func_0[0] == params@[0]@);
            }
            match &**body {
                Expr::Call(vals) => {
                    proof {
                        lemma_view_expr_list(vals@);
                    }
                    if vals.len() != 3 {
                        return false;
                    }
                    let p1 = name;
                    let p2 = params[0].as_str();
                    (name_matches(&vals[0], p1) && name_matches(&vals[1], p2) && name_matches(
                        &vals[2],
                        p1,
                    )) || (name_matches(&vals[0], p2) && name_matches(&vals[1], p1)
                        && name_matches(&vals[2], p2))
                },
                _ => false,
            }
        },
        _ => false,
    }
}

/// Whether `name` is referenced anywhere in the expression.
#[verifier::loop_isolation(false)]
fn contains_name(name: &str, e: &Expr) -> (r: bool)
    ensures
        r == contains_name_v(name@, e@),
    decreases e,
{
    match e {
        Expr::Symbol(s) => str_eq(s.as_str(), name),
        Expr::List(v) => {
            let ghost a = *e;
            proof {
                assert(a->List_0 == *v);
                assert(decreases_to!(a => a->List_0));
            }
            contains_name_vec(name, v)
        },
        Expr::Call(v) => {
            let ghost a = *e;
            proof {
                assert(a->Call_0 == *v);
                assert(decreases_to!(a => a->Call_0));
            }
            contains_name_vec(name, v)
        },
        Expr::Neg(e1) => contains_name(name, e1),
        Expr::Not(e1) => contains_name(name, e1),
        Expr::IsNil(e1) => contains_name(name, e1),
        Expr::Func(_, e1) => contains_name(name, e1),
        Expr::Add(e1, e2) => contains_name(name, e1) || contains_name(name, e2),
        Expr::Sub(e1, e2) => contains_name(name, e1) || contains_name(name, e2),
        Expr::Mul(e1, e2) => contains_name(name, e1) || contains_name(name, e2),
        Expr::Div(e1, e2) => contains_name(name, e1) || contains_name(name, e2),
        Expr::Mod(e1, e2) => contains_name(name, e1) || contains_name(name, e2),
        Expr::Equ(e1, e2) => contains_name(name, e1) || contains_name(name, e2),
        Expr::Lt(e1, e2) => contains_name(name, e1) || contains_name(name, e2),
        Expr::Or(e1, e2) => contains_name(name, e1) || contains_name(name, e2),
        Expr::And(e1, e2) => contains_name(name, e1) || contains_name(name, e2),
        Expr::LetCons(_, _, e1, e2) => contains_name(name, e1) || contains_name(name, e2),
        Expr::Let(_, e1, e2) => contains_name(name, e1) || contains_name(name, e2),
        Expr::MatchCons(e1, e2, _, _, e3) => contains_name(name, e1) || contains_name(name, e2)
            || contains_name(name, e3),
        Expr::If(e1, e2, e3) => contains_name(name, e1) || contains_name(name, e2)
            || contains_name(name, e3),
        _ => false,
    }
}

#[verifier::loop_isolation(false)]
fn contains_name_vec(name: &str, v: &Vec<Expr>) -> (r: bool)
    ensures
        r == contains_name_list(name@, view_expr_list(v@)),
    decreases v@,
{
    proof {
        assert(v@.skip(0) =~= v@);
    }
    let mut i: usize = 0;
    while i < v.len()
        invariant
            i <= v@.len(),
            contains_name_list(name@, view_expr_list(v@)) == contains_name_list(
                name@,
                view_expr_list(v@.skip(i as int)),
            ),
        decreases v@.len() - i,
    {
        proof {
            assert(decreases_to!(*v => v@));
            assert(decreases_to!(v@ => v@[i as int]));
        }
        if contains_name(name, &v[i]) {
            proof {
                lemma_view_expr_list(v@.skip(i as int));
                assert(v@.skip(i as int)[0] == v@[i as int]);
            }
            return true;
        }
        proof {
            lemma_view_expr_list(v@.skip(i as int));
            assert(v@.skip(i as int)[0] == v@[i as int]);
            assert(view_expr_list(v@.skip(i as int)).len() == v@.len() - i);
            lemma_view_expr_list_skip_one(v@.skip(i as int));
            assert(v@.skip(i as int).skip(1) =~= v@.skip(i + 1));
        }
        i = i + 1;
    }
    proof {
        assert(v@.skip(v@.len() as int) =~= Seq::<Expr>::empty());
    }
    false
}

proof fn lemma_view_expr_list_skip_one(s: Seq<Expr>)
    requires
        s.len() > 0,
    ensures
        view_expr_list(s).skip(1) == view_expr_list(s.skip(1)),
{
    assert(view_expr_list(s).skip(1) =~= view_expr_list(s.skip(1)));
}

/// Recognizes the "not" idiom over a parameter list.
fn is_not(params: &Vec<String>, e: &Expr) -> (r: bool)
    ensures
        r == is_not_v(params@.map_values(|p: String| p@), e@),
{
    let ghost psv = params@.map_values(|p: String| p@);
    if params.len() != 2 {
        return false;
    }
    proof {
        assert(psv[0] == params@[0]@);
        assert(psv[1] == params@[1]@);
    }
    match e {
        Expr::If(cond, e1, e2) => {
            name_matches(e1, params[1].as_str()) && name_matches(e2, params[0].as_str())
                && !contains_name(params[0].as_str(), cond) && !contains_name(
                params[1].as_str(),
                cond,
            )
        },
        _ => false,
    }
}

/// Whether the expression is a function value under a let-chain.
fn is_func(e: &Expr) -> (r: bool)
    ensures
        r == is_func_v(e@),
    decreases e,
{
    match e {
        Expr::Let(_, _, body) => is_func(body),
        Expr::Func(_, _) => true,
        _ => false,
    }
}

/// The number of parameters of the function value under a let-chain.
fn func_params_len(e: &Expr) -> (r: usize)
    ensures
        r == decompose_let_v(e@).1.len(),
    decreases e,
{
    match e {
        Expr::Let(_, _, body) => func_params_len(body),
        Expr::Func(ps, _) => {
            proof {
                assert(e@->Func_0 == ps@.map_values(|p: String| p@));
            }
            ps.len()
        },
        _ => 0,
    }
}

fn decompose_let(e: Expr) -> (r: (Vec<(String, Expr)>, Vec<String>, Expr))
    ensures
        ({
            let (ls, ps, body) = decompose_let_v(e@);
            ls == r.0@.map_values(|p: (String, Expr)| (p.0@, p.1@)) && ps == r.1@.map_values(
                |p: String| p@,
            ) && body == r.2@
        }),
    decreases e,
{
    match e {
        Expr::Let(var, e1, e2) => {
            let (mut ls, ps, body) = decompose_let(*e2);
            let ghost lsv = ls@.map_values(|p: (String, Expr)| (p.0@, p.1@));
            let ghost varv = var@;
            let ghost e1v = e1@;
            ls.push((var, *e1));
            proof {
                assert(ls@.map_values(|p: (String, Expr)| (p.0@, p.1@)) =~= lsv.push(
                    (varv, e1v),
                ));
            }
            (ls, ps, body)
        },
        Expr::Func(ps, body) => {
            let r = (Vec::new(), ps, *body);
            proof {
                assert(Seq::<(String, Expr)>::empty().map_values(
                    |p: (String, Expr)| (p.0@, p.1@),
                ) =~= Seq::<(Seq<char>, ExprV)>::empty());
            }
            r
        },
        e => {
            let r = (Vec::new(), Vec::new(), e);
            proof {
                assert(Seq::<(String, Expr)>::empty().map_values(
                    |p: (String, Expr)| (p.0@, p.1@),
                ) =~= Seq::<(Seq<char>, ExprV)>::empty());
                assert(Seq::<String>::empty().map_values(|p: String| p@) =~= Seq::<
                    Seq<char>,
                >::empty());
            }
            r
        },
    }
}

fn compose_let(ls: Vec<(String, Expr)>, ps: Vec<String>, body: Expr) -> (r: Expr)
    ensures
        r@ == compose_let_v(
            ls@.map_values(|p: (String, Expr)| (p.0@, p.1@)),
            ps@.map_values(|p: String| p@),
            body@,
        ),
    decreases ls@.len(),
{
    let ghost lsv = ls@.map_values(|p: (String, Expr)| (p.0@, p.1@));
    let mut ls = ls;
    if ls.len() == 0 {
        if ps.len() == 0 {
            proof {
                assert(ps@.map_values(|p: String| p@).len() == 0);
            }
            body
        } else {
            proof {
                assert(ps@.map_values(|p: String| p@).len() == ps@.len());
            }
            Expr::Func(ps, Box::new(body))
        }
    } else {
        let (var, e1) = ls.pop().unwrap();
        proof {
            assert(ls@.map_values(|p: (String, Expr)| (p.0@, p.1@)) =~= lsv.drop_last());
            assert(lsv.last() == (var@, e1@));
        }
        let e2 = compose_let(ls, ps, body);
        Expr::Let(var, Box::new(e1), Box::new(e2))
    }
}

/// Prepends already-built elements to the outcome of reconstructing the rest
/// of a literal list.
pub open spec fn clist_extend(pre: Seq<ExprV>, r: (Seq<ExprV>, TEnvV)) -> (Seq<ExprV>, TEnvV) {
    (pre + r.0, r.1)
}

#[verifier::loop_isolation(false)]
#[verifier::rlimit(100)]
fn construct_rec(val: &simplified::Value, tenv: &mut Vec<(String, Type)>, env: &Env) -> (r: Expr)
    ensures
        (r@, tenv_view(final(tenv)@)) == construct_v(val@, tenv_view(old(tenv)@), env@),
    decreases val, 0int,
{
    proof {
        reveal_with_fuel(crate::simplified::view_simp, 2);
        reveal_with_fuel(view_expr, 3);
    }
    match val {
        simplified::Value::SYMBOL(s) => Expr::Symbol(s.clone()),
        simplified::Value::INT(i) => Expr::Int(*i),
        simplified::Value::T => Expr::True,
        simplified::Value::F => Expr::False,
        simplified::Value::ADD => Expr::ADD,
        simplified::Value::CAR => Expr::CAR,
        simplified::Value::CDR => Expr::CDR,
        simplified::Value::CONS => Expr::CONS,
        simplified::Value::DIV => Expr::DIV,
        simplified::Value::EQ => Expr::EQ,
        simplified::Value::ISNIL => Expr::ISNIL,
        simplified::Value::LT => Expr::LT,
        simplified::Value::MUL => Expr::MUL,
        simplified::Value::NEG => Expr::NEG,
        simplified::Value::Apply(fun, arg) => {
            let fe = construct_rec(fun, tenv, env);
            construct_apply(fe, arg, tenv, env)
        },
        simplified::Value::Func(param, body) => {
            let be = construct_rec(body, tenv, env);
            match be {
                Expr::Func(params, b2) => {
                    let ghost paramsv = params@.map_values(|p: String| p@);
                    let mut ps: Vec<String> = Vec::new();
                    ps.push(param.clone());
                    let mut params = params;
                    ps.append(&mut params);
                    proof {
                        assert(ps@.map_values(|p: String| p@) =~= seq![param@] + paramsv);
                    }
                    if is_not(&ps, &b2) {
                        match *b2 {
                            Expr::If(cond, _, _) => Expr::Not(cond),
                            other => Expr::Func(ps, Box::new(other)),
                        }
                    } else {
                        Expr::Func(ps, b2)
                    }
                },
                be => {
                    let mut ps: Vec<String> = Vec::new();
                    ps.push(param.clone());
                    proof {
                        assert(ps@.map_values(|p: String| p@) =~= seq![param@]);
                    }
                    Expr::Func(ps, Box::new(be))
                },
            }
        },
        simplified::Value::List(lst) => {
            proof {
                assert(decreases_to!(*val => *lst));
                assert(decreases_to!(*lst => lst@));
            }
            construct_list_exec(lst, tenv, env)
        },
    }
}

/// One application step: branch on the shape of the reconstructed function
/// side and fold the argument in.
#[verifier::rlimit(100)]
#[verifier::loop_isolation(false)]
fn construct_apply(fe: Expr, arg: &simplified::Value, tenv: &mut Vec<(String, Type)>, env: &Env) -> (r: Expr)
    ensures
        (r@, tenv_view(final(tenv)@)) == construct_apply_v(
            (fe@, tenv_view(old(tenv)@)),
            arg@,
            env@,
        ),
    decreases arg, 2int,
{
    proof {
        reveal_with_fuel(crate::simplified::view_simp, 2);
        reveal_with_fuel(view_expr, 3);
    }
    let ghost fev = fe@;
    let ghost t1 = tenv_view(tenv@);
            let ghost fev = fe@;
            let ghost t1 = tenv_view(tenv@);
            match fe {
                Expr::NEG => {
                    let ae = construct_rec(arg, tenv, env);
                    Expr::Neg(Box::new(ae))
                },
                Expr::Symbol(s) => {
                    if sym_type_is_list(tenv, env, s.as_str()) {
                        let ae = construct_rec(arg, tenv, env);
                        match ae {
                            Expr::Func(params, body) => {
                                if params.len() >= 2 {
                                    let ghost psv = params@.map_values(|p: String| p@);
                                    let mut params = params;
                                    let hd = params.remove(0);
                                    let tl = params.remove(0);
                                    proof {
                                        assert(params@.map_values(|p: String| p@) =~= psv.skip(
                                            2,
                                        ));
                                        assert(psv[0] == hd@);
                                        assert(psv[1] == tl@);
                                    }
                                    let body2 = if params.len() > 0 {
                                        Expr::Func(params, body)
                                    } else {
                                        *body
                                    };
                                    Expr::LetCons(
                                        hd,
                                        tl,
                                        Box::new(Expr::Symbol(s)),
                                        Box::new(body2),
                                    )
                                } else {
                                    let mut vals: Vec<Expr> = Vec::new();
                                    vals.push(Expr::Symbol(s));
                                    vals.push(Expr::Func(params, body));
                                    let r = Expr::Call(vals);
                                    proof {
                                        lemma_view_expr_list(r->Call_0@);
                                        assert(view_expr_list(r->Call_0@) =~= seq![
                                            view_expr(r->Call_0@[0]),
                                            view_expr(r->Call_0@[1]),
                                        ]);
                                    }
                                    r
                                }
                            },
                            ae => {
                                let mut vals: Vec<Expr> = Vec::new();
                                vals.push(Expr::Symbol(s));
                                vals.push(ae);
                                let r = Expr::Call(vals);
                                proof {
                                    lemma_view_expr_list(r->Call_0@);
                                    assert(view_expr_list(r->Call_0@) =~= seq![
                                        view_expr(r->Call_0@[0]),
                                        view_expr(r->Call_0@[1]),
                                    ]);
                                }
                                r
                            },
                        }
                    } else {
                        let ae = construct_rec(arg, tenv, env);
                        let mut vals: Vec<Expr> = Vec::new();
                        vals.push(Expr::Symbol(s));
                        vals.push(ae);
                        let r = Expr::Call(vals);
                        proof {
                            lemma_view_expr_list(r->Call_0@);
                            assert(view_expr_list(r->Call_0@) =~= seq![
                                view_expr(r->Call_0@[0]),
                                view_expr(r->Call_0@[1]),
                            ]);
                        }
                        r
                    }
                },
                Expr::ISNIL => {
                    let ae = construct_rec(arg, tenv, env);
                    let ghost t2 = tenv_view(tenv@);
                    match &ae {
                        Expr::Symbol(s2) => {
                            tenv.push((s2.clone(), Type::List));
                            proof {
                                assert(tenv_view(tenv@) =~= t2.push((s2@, TypeV::List)));
                            }
                        },
                        _ => {},
                    }
                    Expr::IsNil(Box::new(ae))
                },
                Expr::Let(var, e1, e2) => {
                    if is_or(var.as_str(), &e2) {
                        let ae = construct_rec(arg, tenv, env);
                        Expr::Or(e1, Box::new(ae))
                    } else if is_and(var.as_str(), &e2) {
                        let ae = construct_rec(arg, tenv, env);
                        Expr::And(e1, Box::new(ae))
                    } else {
                        construct_fallback(Expr::Let(var, e1, e2), arg, tenv, env)
                    }
                },
                Expr::Call(vals) => {
                    let ae = construct_rec(arg, tenv, env);
                    construct_call_step(vals, ae, tenv, env)
                },
                fe => construct_fallback(fe, arg, tenv, env),
            }
        }


#[verifier::rlimit(100)]
#[verifier::spinoff_prover]
fn construct_call_step(vals: Vec<Expr>, ae: Expr, tenv: &Vec<(String, Type)>, env: &Env) -> (r: Expr)
    ensures
        r@ == call_step_v(view_expr_list(vals@), ae@, tenv_view(tenv@), env@),
{
    proof {
        reveal_with_fuel(view_expr, 2);
    }
    let ghost ovals = vals@;
    let ghost vv = view_expr_list(vals@);
    let ghost aev = ae@;
    let ghost aee = ae;
    proof {
        lemma_view_expr_list(ovals);
    }
    if vals.len() == 2 {
        if is_bool(&vals[0], tenv, env) {
            let mut vals = vals;
            let arg0 = vals.pop().unwrap();
            let fun0 = vals.pop().unwrap();
            proof {
                assert(fun0@ == vv[0]);
                assert(arg0@ == vv[1]);
            }
            Expr::If(Box::new(fun0), Box::new(arg0), Box::new(ae))
        } else {
            let is_op = match &vals[0] {
                Expr::ADD => true,
                Expr::MUL => true,
                Expr::DIV => true,
                Expr::EQ => true,
                Expr::LT => true,
                _ => false,
            };
            if is_op {
                let mut vals = vals;
                let arg0 = vals.pop().unwrap();
                let fun0 = vals.pop().unwrap();
                proof {
                    assert(fun0@ == vv[0]);
                    assert(arg0@ == vv[1]);
                }
                match fun0 {
                    Expr::ADD => Expr::Add(Box::new(arg0), Box::new(ae)),
                    Expr::MUL => Expr::Mul(Box::new(arg0), Box::new(ae)),
                    Expr::DIV => Expr::Div(Box::new(arg0), Box::new(ae)),
                    Expr::EQ => Expr::Equ(Box::new(arg0), Box::new(ae)),
                    _ => Expr::Lt(Box::new(arg0), Box::new(ae)),
                }
            } else {
                let mut vals = vals;
                vals.push(ae);
                proof {
                    lemma_view_expr_list_push(ovals, aee);
                    assert(vals@ == ovals.push(aee));
                    assert(view_expr_list(vals@) == vv.push(aev));
                }
                Expr::Call(vals)
            }
        }
    } else if vals.len() > 2 {
        let head_is_sat = match &vals[0] {
            Expr::Symbol(s) => sym_type_bool_arity(tenv, env, s.as_str(), vals.len() - 2),
            _ => false,
        };
        proof {
            assert(vv[0] == view_expr(ovals[0]));
            assert(head_is_sat == saturated_bool_call(vv, tenv_view(tenv@), env@));
        }
        if head_is_sat {
            let mut vals = vals;
            let arg0 = vals.pop().unwrap();
            proof {
                lemma_view_expr_list_drop_last(ovals);
                assert(vals@ == ovals.drop_last());
                assert(arg0@ == vv.last());
                assert(view_expr_list(vals@) == vv.drop_last());
            }
            Expr::If(Box::new(Expr::Call(vals)), Box::new(arg0), Box::new(ae))
        } else {
            let mut vals = vals;
            vals.push(ae);
            proof {
                lemma_view_expr_list_push(ovals, aee);
                assert(vals@ == ovals.push(aee));
                assert(view_expr_list(vals@) == vv.push(aev));
            }
            Expr::Call(vals)
        }
    } else {
        let mut vals = vals;
        vals.push(ae);
        proof {
            lemma_view_expr_list_push(ovals, aee);
            assert(vals@ == ovals.push(aee));
            assert(view_expr_list(vals@) == vv.push(aev));
        }
        Expr::Call(vals)
    }
}

/// Reconstructs the elements of a literal list in order.
#[verifier::loop_isolation(false)]
fn construct_list_exec(lst: &Vec<simplified::Value>, tenv: &mut Vec<(String, Type)>, env: &Env) -> (r: Expr)
    ensures
        ({
            let (es, t2) = construct_list_v(
                crate::simplified::view_simp_list(lst@),
                tenv_view(old(tenv)@),
                env@,
            );
            r@ == ExprV::List(es) && tenv_view(final(tenv)@) == t2
        }),
    decreases lst@, 1int,
{
    proof {
        reveal_with_fuel(view_expr, 2);
    }
    let ghost lv = crate::simplified::view_simp_list(lst@);
    let ghost t0 = tenv_view(tenv@);
            let mut es: Vec<Expr> = Vec::new();
            let mut i: usize = 0;
            proof {
                assert(lst@.skip(0) =~= lst@);
                assert(view_expr_list(es@) =~= Seq::<ExprV>::empty());
                assert(Seq::<ExprV>::empty() + construct_list_v(lv, t0, env@).0
                    =~= construct_list_v(lv, t0, env@).0);
                crate::simplified::lemma_view_simp_list(lst@);
            }
            while i < lst.len()
                invariant
                    i <= lst@.len(),
                    es@.len() == i,
                    construct_list_v(lv, t0, env@) == clist_extend(
                        view_expr_list(es@),
                        construct_list_v(
                            crate::simplified::view_simp_list(lst@.skip(i as int)),
                            tenv_view(tenv@),
                            env@,
                        ),
                    ),
                decreases lst@.len() - i,
            {
                proof {
                    assert(decreases_to!(*lst => lst@));
                    assert(decreases_to!(lst@ => lst@[i as int]));
                }
                let ghost esv = view_expr_list(es@);
                let ghost es_old = es@;
                let ghost ti = tenv_view(tenv@);
                let e0 = construct_rec(&lst[i], tenv, env);
                let ghost e0e = e0;
                es.push(e0);
                proof {
                    let tail = crate::simplified::view_simp_list(lst@.skip(i as int));
                    crate::simplified::lemma_view_simp_list(lst@.skip(i as int));
                    assert(lst@.skip(i as int)[0] == lst@[i as int]);
                    assert(tail[0] == crate::simplified::view_simp(lst@[i as int]));
                    lemma_simp_list_skip_one(lst@.skip(i as int));
                    assert(lst@.skip(i as int).skip(1) =~= lst@.skip(i + 1));
                    lemma_view_expr_list_push(es_old, e0e);
                    assert(es@ =~= es_old.push(e0e));
                    let (e0v, t1v) = construct_v(lst@[i as int]@, ti, env@);
                    assert(view_expr(e0e) == e0v);
                    assert(view_expr_list(es@) == esv.push(e0v));
                    let rest = construct_list_v(
                        crate::simplified::view_simp_list(lst@.skip(i + 1)),
                        t1v,
                        env@,
                    );
                    assert(construct_list_v(tail, ti, env@) == (seq![e0v] + rest.0, rest.1));
                    assert(esv + (seq![e0v] + rest.0) =~= esv.push(e0v) + rest.0);
                }
                i = i + 1;
            }
            proof {
                assert(lst@.skip(lst@.len() as int) =~= Seq::<simplified::Value>::empty());
                assert(crate::simplified::view_simp_list(Seq::<simplified::Value>::empty())
                    =~= Seq::<SimpV>::empty());
                assert(view_expr_list(es@) + Seq::<ExprV>::empty() =~= view_expr_list(es@));
            }
            Expr::List(es)
}

proof fn lemma_simp_list_skip_one(s: Seq<simplified::Value>)
    requires
        s.len() > 0,
    ensures
        crate::simplified::view_simp_list(s).skip(1) == crate::simplified::view_simp_list(
            s.skip(1),
        ),
{
    crate::simplified::lemma_view_simp_list(s);
    crate::simplified::lemma_view_simp_list(s.skip(1));
    assert forall|i: int|
        0 <= i < s.len() - 1 implies crate::simplified::view_simp_list(s).skip(1)[i]
        == crate::simplified::view_simp_list(s.skip(1))[i] by {
        assert(s.skip(1)[i] == s[i + 1]);
    }
    assert(crate::simplified::view_simp_list(s).skip(1) =~= crate::simplified::view_simp_list(
        s.skip(1),
    ));
}

/// A binding pushed onto a let-chain around a function value, or a fresh
/// generic call.
#[verifier::loop_isolation(false)]
fn construct_fallback(fe: Expr, arg: &simplified::Value, tenv: &mut Vec<(String, Type)>, env: &Env) -> (r: Expr)
    ensures
        (r@, tenv_view(final(tenv)@)) == construct_fallback_v(
            fe@,
            arg@,
            tenv_view(old(tenv)@),
            env@,
        ),
    decreases arg, 1int,
{
    let ae = construct_rec(arg, tenv, env);
    if is_func(&fe) && func_params_len(&fe) > 0 {
        let ghost fev = fe@;
        let (mut ls, ps, body) = decompose_let(fe);
        let ghost lsv = ls@.map_values(|p: (String, Expr)| (p.0@, p.1@));
        let ghost psv = ps@.map_values(|p: String| p@);
        let mut ps = ps;
        let var = ps.remove(0);
        proof {
            assert(psv[0] == var@);
            assert(ps@.map_values(|p: String| p@) =~= psv.skip(1));
        }
        let ghost aev = ae@;
        ls.push((var, ae));
        proof {
            assert(ls@.map_values(|p: (String, Expr)| (p.0@, p.1@)) =~= lsv.push((var@, aev)));
        }
        compose_let(ls, ps, body)
    } else {
        let mut vals: Vec<Expr> = Vec::new();
        let ghost fev = fe@;
        let ghost aev = ae@;
        vals.push(fe);
        vals.push(ae);
        let r = Expr::Call(vals);
        proof {
            reveal_with_fuel(view_expr, 2);
            lemma_view_expr_list(r->Call_0@);
            assert(view_expr_list(r->Call_0@) =~= seq![fev, aev]);
        }
        r
    }
}

/// Reconstructs a simplified tree into a structured expression, starting
/// from an empty per-definition type environment.
pub fn construct(val: &simplified::Value, env: &Env) -> (r: Expr)
    ensures
        r@ == construct_v(val@, Seq::empty(), env@).0,
{
    let mut tenv: Vec<(String, Type)> = Vec::new();
    proof {
        assert(tenv_view(tenv@) =~= Seq::<(Seq<char>, TypeV)>::empty());
    }
    construct_rec(val, &mut tenv, env)
}

fn expr_vec_eq(x: &Vec<Expr>, y: &Vec<Expr>) -> (r: bool)
    ensures
        r == (view_expr_list(x@) == view_expr_list(y@)),
    decreases x@,
{
    proof {
        lemma_view_expr_list(x@);
        lemma_view_expr_list(y@);
    }
    if x.len() != y.len() {
        return false;
    }
    let mut i: usize = 0;
    while i < x.len()
        invariant
            i <= x@.len(),
            x@.len() == y@.len(),
            forall|j: int|
                0 <= j < i ==> #[trigger] view_expr_list(x@)[j] == view_expr_list(y@)[j],
        decreases x@.len() - i,
    {
        proof {
            assert(decreases_to!(*x => x@));
            assert(decreases_to!(x@ => x@[i as int]));
            lemma_view_expr_list(x@);
            lemma_view_expr_list(y@);
        }
        if !expr_eq(&x[i], &y[i]) {
            proof {
                lemma_view_expr_list(x@);
                lemma_view_expr_list(y@);
                assert(view_expr_list(x@)[i as int] != view_expr_list(y@)[i as int]);
            }
            return false;
        }
        i = i + 1;
    }
    proof {
        lemma_view_expr_list(x@);
        lemma_view_expr_list(y@);
        assert(view_expr_list(x@) =~= view_expr_list(y@));
    }
    true
}

#[verifier::loop_isolation(false)]
fn string_vec_eq(x: &Vec<String>, y: &Vec<String>) -> (r: bool)
    ensures
        r == (x@.map_values(|p: String| p@) == y@.map_values(|p: String| p@)),
{
    if x.len() != y.len() {
        proof {
            assert(x@.map_values(|p: String| p@).len() != y@.map_values(|p: String| p@).len());
        }
        return false;
    }
    let mut i: usize = 0;
    while i < x.len()
        invariant
            i <= x@.len(),
            x@.len() == y@.len(),
            forall|j: int| 0 <= j < i ==> #[trigger] x@[j]@ == y@[j]@,
        decreases x@.len() - i,
    {
        if !str_eq(x[i].as_str(), y[i].as_str()) {
            proof {
                assert(x@.map_values(|p: String| p@)[i as int] != y@.map_values(
                    |p: String| p@,
                )[i as int]);
            }
            return false;
        }
        i = i + 1;
    }
    proof {
        assert(x@.map_values(|p: String| p@) =~= y@.map_values(|p: String| p@));
    }
    true
}

/// Structural equality of two structured expressions.
#[verifier::rlimit(100)]
#[verifier::spinoff_prover]
fn expr_eq(a: &Expr, b: &Expr) -> (r: bool)
    ensures
        r == (a@ == b@),
    decreases a,
{
    match (a, b) {
        (Expr::Int(x), Expr::Int(y)) => x == y,
        (Expr::Symbol(x), Expr::Symbol(y)) => str_eq(x.as_str(), y.as_str()),
        (Expr::List(x), Expr::List(y)) => {
            proof {
                assert(decreases_to!(*a => a->List_0));
                assert(a->List_0 == *x);
            }
            expr_vec_eq(x, y)
        },
        (Expr::True, Expr::True) => true,
        (Expr::False, Expr::False) => true,
        (Expr::Neg(x), Expr::Neg(y)) => expr_eq(x, y),
        (Expr::Add(x1, x2), Expr::Add(y1, y2)) => expr_eq(x1, y1) && expr_eq(x2, y2),
        (Expr::Sub(x1, x2), Expr::Sub(y1, y2)) => expr_eq(x1, y1) && expr_eq(x2, y2),
        (Expr::Mul(x1, x2), Expr::Mul(y1, y2)) => expr_eq(x1, y1) && expr_eq(x2, y2),
        (Expr::Div(x1, x2), Expr::Div(y1, y2)) => expr_eq(x1, y1) && expr_eq(x2, y2),
        (Expr::Mod(x1, x2), Expr::Mod(y1, y2)) => expr_eq(x1, y1) && expr_eq(x2, y2),
        (Expr::Equ(x1, x2), Expr::Equ(y1, y2)) => expr_eq(x1, y1) && expr_eq(x2, y2),
        (Expr::Lt(x1, x2), Expr::Lt(y1, y2)) => expr_eq(x1, y1) && expr_eq(x2, y2),
        (Expr::Not(x), Expr::Not(y)) => expr_eq(x, y),
        (Expr::Or(x1, x2), Expr::Or(y1, y2)) => expr_eq(x1, y1) && expr_eq(x2, y2),
        (Expr::And(x1, x2), Expr::And(y1, y2)) => expr_eq(x1, y1) && expr_eq(x2, y2),
        (Expr::IsNil(x), Expr::IsNil(y)) => expr_eq(x, y),
        (Expr::If(x1, x2, x3), Expr::If(y1, y2, y3)) => expr_eq(x1, y1) && expr_eq(x2, y2)
            && expr_eq(x3, y3),
        (Expr::MatchCons(x1, x2, xh, xt, x3), Expr::MatchCons(y1, y2, yh, yt, y3)) => expr_eq(
            x1,
            y1,
        ) && expr_eq(x2, y2) && str_eq(xh.as_str(), yh.as_str()) && str_eq(
            xt.as_str(),
            yt.as_str(),
        ) && expr_eq(x3, y3),
        (Expr::LetCons(xh, xt, x1, x2), Expr::LetCons(yh, yt, y1, y2)) => str_eq(
            xh.as_str(),
            yh.as_str(),
        ) && str_eq(xt.as_str(), yt.as_str()) && expr_eq(x1, y1) && expr_eq(x2, y2),
        (Expr::Let(xv, x1, x2), Expr::Let(yv, y1, y2)) => str_eq(xv.as_str(), yv.as_str())
            && expr_eq(x1, y1) && expr_eq(x2, y2),
        (Expr::Call(x), Expr::Call(y)) => {
            proof {
                assert(decreases_to!(*a => a->Call_0));
                assert(a->Call_0 == *x);
            }
            expr_vec_eq(x, y)
        },
        (Expr::ADD, Expr::ADD) => true,
        (Expr::CAR, Expr::CAR) => true,
        (Expr::CDR, Expr::CDR) => true,
        (Expr::CONS, Expr::CONS) => true,
        (Expr::DIV, Expr::DIV) => true,
        (Expr::EQ, Expr::EQ) => true,
        (Expr::ISNIL, Expr::ISNIL) => true,
        (Expr::LT, Expr::LT) => true,
        (Expr::MUL, Expr::MUL) => true,
        (Expr::NEG, Expr::NEG) => true,
        (Expr::Func(xp, x1), Expr::Func(yp, y1)) => string_vec_eq(xp, yp) && expr_eq(x1, y1),
        _ => false,
    }
}

/// One algebraic rewrite of an addition whose sides are already simplified:
/// `a + (-b)` becomes `a - b`, the product/quotient shape becomes `a % b`,
/// and a negative literal on either side becomes a subtraction.
pub open spec fn add_step_v(ls: ExprV, rs: ExprV) -> ExprV {
    match rs {
        ExprV::Neg(x) => add_neg_v(ls, *x),
        ExprV::Int(i) => if i < 0 && i != isize::MIN as int {
            ExprV::Sub(Box::new(ls), Box::new(ExprV::Int(-i)))
        } else {
            add_gen_v(ls, ExprV::Int(i))
        },
        rs2 => add_gen_v(ls, rs2),
    }
}

/// An addition whose right side is a negation: a subtraction, or the modulo
/// idiom when the negated product carries the matching quotient.
pub open spec fn add_neg_v(ls: ExprV, x: ExprV) -> ExprV {
    match x {
        ExprV::Mul(e1, e2) => match *e2 {
            ExprV::Div(e21, e22) => if *e21 == ls && *e22 == *e1 {
                ExprV::Mod(Box::new(ls), e1)
            } else {
                ExprV::Sub(
                    Box::new(ls),
                    Box::new(ExprV::Mul(e1, Box::new(ExprV::Div(e21, e22)))),
                )
            },
            e2v => ExprV::Sub(Box::new(ls), Box::new(ExprV::Mul(e1, Box::new(e2v)))),
        },
        xv => ExprV::Sub(Box::new(ls), Box::new(xv)),
    }
}

/// An addition with no rewrite on the right side: a negative or negated left
/// side still becomes a subtraction, written with the sides exchanged.
pub open spec fn add_gen_v(ls: ExprV, rs2: ExprV) -> ExprV {
    match ls {
        ExprV::Neg(x) => ExprV::Sub(Box::new(rs2), x),
        ExprV::Int(j) => if j < 0 && j != isize::MIN as int {
            ExprV::Sub(Box::new(rs2), Box::new(ExprV::Int(-j)))
        } else {
            ExprV::Add(Box::new(ExprV::Int(j)), Box::new(rs2))
        },
        ls2 => ExprV::Add(Box::new(ls2), Box::new(rs2)),
    }
}

/// Collapses `if isnil(x) { a } else { let hd::tl = x in b }` into a single
/// two-arm match on the same list.
pub open spec fn if_step_v(c: ExprV, a: ExprV, b: ExprV) -> ExprV {
    match (c, b) {
        (ExprV::IsNil(x1), ExprV::LetCons(hd, tl, x2, body)) => if *x1 == *x2 {
            ExprV::MatchCons(x1, Box::new(a), hd, tl, body)
        } else {
            ExprV::If(
                Box::new(ExprV::IsNil(x1)),
                Box::new(a),
                Box::new(ExprV::LetCons(hd, tl, x2, body)),
            )
        },
        (c2, b2) => ExprV::If(Box::new(c2), Box::new(a), Box::new(b2)),
    }
}

/// The algebraic simplifier: local, recursive rewrites of negated literals,
/// subtraction and modulo idioms, and the `isnil`/destructuring pair into a
/// match; all other nodes recurse structurally. Subtractions and modulo
/// nodes it created are left as they are, which makes the pass idempotent.
pub open spec fn asimp(e: ExprV) -> ExprV
    decreases e,
{
    match e {
        ExprV::List(lst) => ExprV::List(asimp_list(lst)),
        ExprV::Neg(e1) => match asimp(*e1) {
            ExprV::Int(i) => if i != isize::MIN as int {
                ExprV::Int(-i)
            } else {
                ExprV::Neg(Box::new(ExprV::Int(i)))
            },
            x => ExprV::Neg(Box::new(x)),
        },
        ExprV::Add(l, r) => add_step_v(asimp(*l), asimp(*r)),
        ExprV::Mul(l, r) => ExprV::Mul(Box::new(asimp(*l)), Box::new(asimp(*r))),
        ExprV::Div(l, r) => ExprV::Div(Box::new(asimp(*l)), Box::new(asimp(*r))),
        ExprV::Equ(l, r) => ExprV::Equ(Box::new(asimp(*l)), Box::new(asimp(*r))),
        ExprV::Lt(l, r) => ExprV::Lt(Box::new(asimp(*l)), Box::new(asimp(*r))),
        ExprV::Not(e1) => ExprV::Not(Box::new(asimp(*e1))),
        ExprV::Or(l, r) => ExprV::Or(Box::new(asimp(*l)), Box::new(asimp(*r))),
        ExprV::And(l, r) => ExprV::And(Box::new(asimp(*l)), Box::new(asimp(*r))),
        ExprV::IsNil(e1) => ExprV::IsNil(Box::new(asimp(*e1))),
        ExprV::If(c, e1, e2) => if_step_v(asimp(*c), asimp(*e1), asimp(*e2)),
        ExprV::Call(vals) => ExprV::Call(asimp_list(vals)),
        ExprV::Func(ps, body) => ExprV::Func(ps, Box::new(asimp(*body))),
        ExprV::LetCons(hd, tl, e1, e2) => ExprV::LetCons(
            hd,
            tl,
            Box::new(asimp(*e1)),
            Box::new(asimp(*e2)),
        ),
        ExprV::Let(var, e1, e2) => ExprV::Let(var, Box::new(asimp(*e1)), Box::new(asimp(*e2))),
        ExprV::MatchCons(v, e1, hd, tl, e2) => ExprV::MatchCons(
            Box::new(asimp(*v)),
            Box::new(asimp(*e1)),
            hd,
            tl,
            Box::new(asimp(*e2)),
        ),
        e2 => e2,
    }
}

pub open spec fn asimp_list(s: Seq<ExprV>) -> Seq<ExprV>
    decreases s,
{
    if s.len() == 0 {
        Seq::empty()
    } else {
        seq![asimp(s[0])] + asimp_list(s.skip(1))
    }
}

/// Rewrites an expression with the algebraic simplifier.
#[verifier::rlimit(100)]
#[verifier::spinoff_prover]
pub fn simplify(expr: &Expr) -> (r: Expr)
    ensures
        r@ == asimp(expr@),
    decreases expr,
{
    proof {
        reveal_with_fuel(view_expr, 3);
    }
    match expr {
        Expr::List(lst) => {
            proof {
                assert(decreases_to!(*expr => expr->List_0));
                assert(expr->List_0 == *lst);
            }
            Expr::List(simplify_vec(lst))
        },
        Expr::Neg(e) => {
            let x = simplify(e);
            match x {
                Expr::Int(i) => {
                    if i != isize::MIN {
                        Expr::Int(-i)
                    } else {
                        Expr::Neg(Box::new(Expr::Int(i)))
                    }
                },
                x2 => Expr::Neg(Box::new(x2)),
            }
        },
        Expr::Add(lhs, rhs) => {
            let ls = simplify(lhs);
            let rs = simplify(rhs);
            add_step(ls, rs)
        },
        Expr::Mul(lhs, rhs) => Expr::Mul(Box::new(simplify(lhs)), Box::new(simplify(rhs))),
        Expr::Div(lhs, rhs) => Expr::Div(Box::new(simplify(lhs)), Box::new(simplify(rhs))),
        Expr::Equ(lhs, rhs) => Expr::Equ(Box::new(simplify(lhs)), Box::new(simplify(rhs))),
        Expr::Lt(lhs, rhs) => Expr::Lt(Box::new(simplify(lhs)), Box::new(simplify(rhs))),
        Expr::Not(e) => Expr::Not(Box::new(simplify(e))),
        Expr::Or(lhs, rhs) => Expr::Or(Box::new(simplify(lhs)), Box::new(simplify(rhs))),
        Expr::And(lhs, rhs) => Expr::And(Box::new(simplify(lhs)), Box::new(simplify(rhs))),
        Expr::IsNil(e) => Expr::IsNil(Box::new(simplify(e))),
        Expr::If(cond, e1, e2) => {
            let c = simplify(cond);
            let a = simplify(e1);
            let b = simplify(e2);
            match (c, b) {
                (Expr::IsNil(x1), Expr::LetCons(hd, tl, x2, body)) => {
                    if expr_eq(&x1, &x2) {
                        Expr::MatchCons(x1, Box::new(a), hd, tl, body)
                    } else {
                        Expr::If(
                            Box::new(Expr::IsNil(x1)),
                            Box::new(a),
                            Box::new(Expr::LetCons(hd, tl, x2, body)),
                        )
                    }
                },
                (c2, b2) => Expr::If(Box::new(c2), Box::new(a), Box::new(b2)),
            }
        },
        Expr::Call(vals) => {
            proof {
                assert(decreases_to!(*expr => expr->Call_0));
                assert(expr->Call_0 == *vals);
            }
            Expr::Call(simplify_vec(vals))
        },
        Expr::Func(params, body) => Expr::Func(
            clone_vec_string(params),
            Box::new(simplify(body)),
        ),
        Expr::LetCons(hd, tl, e1, e2) => Expr::LetCons(
            hd.clone(),
            tl.clone(),
            Box::new(simplify(e1)),
            Box::new(simplify(e2)),
        ),
        Expr::Let(var, e1, e2) => Expr::Let(
            var.clone(),
            Box::new(simplify(e1)),
            Box::new(simplify(e2)),
        ),
        Expr::MatchCons(v, e1, hd, tl, e2) => Expr::MatchCons(
            Box::new(simplify(v)),
            Box::new(simplify(e1)),
            hd.clone(),
            tl.clone(),
            Box::new(simplify(e2)),
        ),
        e => e.clone(),
    }
}

fn add_step(ls: Expr, rs: Expr) -> (r: Expr)
    ensures
        r@ == add_step_v(ls@, rs@),
{
    proof {
        reveal_with_fuel(view_expr, 2);
    }
    match rs {
        Expr::Neg(x) => add_step_neg(ls, *x),
        Expr::Int(i) => {
            if i < 0 && i != isize::MIN {
                Expr::Sub(Box::new(ls), Box::new(Expr::Int(-i)))
            } else {
                add_step_gen(ls, Expr::Int(i))
            }
        },
        rs2 => add_step_gen(ls, rs2),
    }
}

#[verifier::spinoff_prover]
fn add_step_neg(ls: Expr, x: Expr) -> (r: Expr)
    ensures
        r@ == add_neg_v(ls@, x@),
{
    proof {
        reveal_with_fuel(view_expr, 3);
    }
    match x {
        Expr::Mul(e1, e2) => {
            match *e2 {
                Expr::Div(e21, e22) => {
                    if expr_eq(&e21, &ls) && expr_eq(&e22, &e1) {
                        Expr::Mod(Box::new(ls), e1)
                    } else {
                        Expr::Sub(
                            Box::new(ls),
                            Box::new(Expr::Mul(e1, Box::new(Expr::Div(e21, e22)))),
                        )
                    }
                },
                e2v => Expr::Sub(Box::new(ls), Box::new(Expr::Mul(e1, Box::new(e2v)))),
            }
        },
        xv => Expr::Sub(Box::new(ls), Box::new(xv)),
    }
}

#[verifier::spinoff_prover]
fn add_step_gen(ls: Expr, rs2: Expr) -> (r: Expr)
    ensures
        r@ == add_gen_v(ls@, rs2@),
{
    proof {
        reveal_with_fuel(view_expr, 2);
    }
    match ls {
        Expr::Neg(x) => Expr::Sub(Box::new(rs2), x),
        Expr::Int(j) => {
            if j < 0 && j != isize::MIN {
                Expr::Sub(Box::new(rs2), Box::new(Expr::Int(-j)))
            } else {
                Expr::Add(Box::new(Expr::Int(j)), Box::new(rs2))
            }
        },
        ls2 => Expr::Add(Box::new(ls2), Box::new(rs2)),
    }
}

#[verifier::loop_isolation(false)]
fn simplify_vec(l: &Vec<Expr>) -> (r: Vec<Expr>)
    ensures
        view_expr_list(r@) == asimp_list(view_expr_list(l@)),
    decreases l@,
{
    let mut r: Vec<Expr> = Vec::new();
    let mut i: usize = 0;
    proof {
        lemma_view_expr_list(l@);
    }
    while i < l.len()
        invariant
            i <= l@.len(),
            r@.len() == i,
            forall|j: int|
                0 <= j < i ==> #[trigger] view_expr(r@[j]) == asimp(view_expr(l@[j])),
        decreases l@.len() - i,
    {
        proof {
            assert(decreases_to!(*l => l@));
            assert(decreases_to!(l@ => l@[i as int]));
        }
        r.push(simplify(&l[i]));
        i = i + 1;
    }
    proof {
        lemma_view_expr_list(r@);
        lemma_view_expr_list(l@);
        lemma_asimp_list_index(view_expr_list(l@));
        assert forall|j: int| 0 <= j < l@.len() implies view_expr_list(r@)[j] == asimp_list(
            view_expr_list(l@),
        )[j] by {
            assert(view_expr(r@[j]) == asimp(view_expr(l@[j])));
        }
        assert(view_expr_list(r@) =~= asimp_list(view_expr_list(l@)));
    }
    r
}

pub proof fn lemma_asimp_list_index(s: Seq<ExprV>)
    ensures
        asimp_list(s).len() == s.len(),
        forall|i: int| 0 <= i < s.len() ==> asimp_list(s)[i] == asimp(s[i]),
    decreases s.len(),
{
    if s.len() > 0 {
        lemma_asimp_list_index(s.skip(1));
        assert forall|i: int| 0 <= i < s.len() implies asimp_list(s)[i] == asimp(s[i]) by {
            if i > 0 {
                assert(asimp_list(s)[i] == asimp_list(s.skip(1))[i - 1]);
                assert(s.skip(1)[i - 1] == s[i]);
            }
        }
    }
}

/// Once both sides are in simplified form, one rewrite step of an addition
/// produces a term the simplifier leaves unchanged.
proof fn lemma_add_step_fixed(ls: ExprV, rs: ExprV)
    requires
        asimp(ls) == ls,
        asimp(rs) == rs,
    ensures
        asimp(add_step_v(ls, rs)) == add_step_v(ls, rs),
{
}

/// The same for the conditional step.
proof fn lemma_if_step_fixed(c: ExprV, a: ExprV, b: ExprV)
    requires
        asimp(c) == c,
        asimp(a) == a,
        asimp(b) == b,
    ensures
        asimp(if_step_v(c, a, b)) == if_step_v(c, a, b),
{
    match (c, b) {
        (ExprV::IsNil(x1), ExprV::LetCons(hd, tl, x2, body)) => {
            assert(asimp(ExprV::IsNil(x1)) == ExprV::IsNil(Box::new(asimp(*x1))));
            assert(asimp(ExprV::LetCons(hd, tl, x2, body)) == ExprV::LetCons(
                hd,
                tl,
                Box::new(asimp(*x2)),
                Box::new(asimp(*body)),
            ));
        },
        _ => {},
    }
}

/// The algebraic simplifier is idempotent: simplifying a second time changes
/// nothing.
pub proof fn lemma_asimp_idempotent(e: ExprV)
    ensures
        asimp(asimp(e)) == asimp(e),
    decreases e, 1int,
{
    match e {
        ExprV::List(lst) => {
            lemma_asimp_list_idempotent(lst);
        },
        ExprV::Neg(e1) => {
            lemma_asimp_idempotent(*e1);
        },
        ExprV::Add(l, r) => {
            lemma_asimp_idempotent(*l);
            lemma_asimp_idempotent(*r);
            lemma_add_step_fixed(asimp(*l), asimp(*r));
        },
        ExprV::Mul(l, r) => {
            lemma_asimp_idempotent(*l);
            lemma_asimp_idempotent(*r);
        },
        ExprV::Div(l, r) => {
            lemma_asimp_idempotent(*l);
            lemma_asimp_idempotent(*r);
        },
        ExprV::Equ(l, r) => {
            lemma_asimp_idempotent(*l);
            lemma_asimp_idempotent(*r);
        },
        ExprV::Lt(l, r) => {
            lemma_asimp_idempotent(*l);
            lemma_asimp_idempotent(*r);
        },
        ExprV::Not(e1) => {
            lemma_asimp_idempotent(*e1);
        },
        ExprV::Or(l, r) => {
            lemma_asimp_idempotent(*l);
            lemma_asimp_idempotent(*r);
        },
        ExprV::And(l, r) => {
            lemma_asimp_idempotent(*l);
            lemma_asimp_idempotent(*r);
        },
        ExprV::IsNil(e1) => {
            lemma_asimp_idempotent(*e1);
        },
        ExprV::If(c, e1, e2) => {
            lemma_asimp_idempotent(*c);
            lemma_asimp_idempotent(*e1);
            lemma_asimp_idempotent(*e2);
            lemma_if_step_fixed(asimp(*c), asimp(*e1), asimp(*e2));
        },
        ExprV::Call(vals) => {
            lemma_asimp_list_idempotent(vals);
        },
        ExprV::Func(ps, body) => {
            lemma_asimp_idempotent(*body);
        },
        ExprV::LetCons(hd, tl, e1, e2) => {
            lemma_asimp_idempotent(*e1);
            lemma_asimp_idempotent(*e2);
        },
        ExprV::Let(var, e1, e2) => {
            lemma_asimp_idempotent(*e1);
            lemma_asimp_idempotent(*e2);
        },
        ExprV::MatchCons(v, e1, hd, tl, e2) => {
            lemma_asimp_idempotent(*v);
            lemma_asimp_idempotent(*e1);
            lemma_asimp_idempotent(*e2);
        },
        _ => {},
    }
}

proof fn lemma_asimp_list_idempotent(s: Seq<ExprV>)
    ensures
        asimp_list(asimp_list(s)) == asimp_list(s),
    decreases s, 0int,
{
    if s.len() > 0 {
        lemma_asimp_idempotent(s[0]);
        lemma_asimp_list_idempotent(s.skip(1));
        let x = asimp_list(s);
        assert(x == seq![asimp(s[0])] + asimp_list(s.skip(1)));
        assert(x.len() > 0);
        assert(x[0] == asimp(s[0]));
        assert(x.skip(1) =~= asimp_list(s.skip(1)));
        assert(asimp_list(x) == seq![asimp(x[0])] + asimp_list(x.skip(1)));
    }
}

/// The renaming state: original names to fresh names, in assignment order.
pub type REnvV = Seq<(Seq<char>, Seq<char>)>;

pub open spec fn renv_get(m: REnvV, s: Seq<char>) -> Option<Seq<char>>
    decreases m.len(),
{
    if m.len() == 0 {
        None
    } else if m.last().0 == s {
        Some(m.last().1)
    } else {
        renv_get(m.drop_last(), s)
    }
}

/// The `k`-th sequential fresh name.
pub open spec fn fresh_name(k: nat) -> Seq<char> {
    "_x"@ + crate::names::dec_digits(k)
}

/// One renaming: dictionary references are resolved verbatim; any other name
/// is replaced by its recorded fresh name, or assigned the next one.
pub open spec fn rename_one_v(name: Seq<char>, renv: REnvV, next: nat, env: EnvModel) -> (
    Seq<char>,
    REnvV,
    nat,
) {
    if name.len() > 0 && name[0] == ':' {
        match env_find(env, name) {
            Some(e) => (e.0, renv, next),
            None => (name, renv, next),
        }
    } else {
        match renv_get(renv, name) {
            Some(n) => (n, renv, next),
            None => (fresh_name(next), renv.push((name, fresh_name(next))), next + 1),
        }
    }
}

/// The renamer: a single first-use-order pass substituting every name.
pub open spec fn rename_v(e: ExprV, renv: REnvV, next: nat, env: EnvModel) -> (ExprV, REnvV, nat)
    decreases e, 1int,
{
    match e {
        ExprV::Symbol(s) => {
            let (n, r1, x1) = rename_one_v(s, renv, next, env);
            (ExprV::Symbol(n), r1, x1)
        },
        ExprV::List(lst) => {
            let (es, r1, x1) = rename_list_v(lst, renv, next, env);
            (ExprV::List(es), r1, x1)
        },
        ExprV::Neg(a) => {
            let (av, r1, x1) = rename_v(*a, renv, next, env);
            (ExprV::Neg(Box::new(av)), r1, x1)
        },
        ExprV::Add(a, b) => {
            let (av, r1, x1) = rename_v(*a, renv, next, env);
            let (bv, r2, x2) = rename_v(*b, r1, x1, env);
            (ExprV::Add(Box::new(av), Box::new(bv)), r2, x2)
        },
        ExprV::Sub(a, b) => {
            let (av, r1, x1) = rename_v(*a, renv, next, env);
            let (bv, r2, x2) = rename_v(*b, r1, x1, env);
            (ExprV::Sub(Box::new(av), Box::new(bv)), r2, x2)
        },
        ExprV::Mul(a, b) => {
            let (av, r1, x1) = rename_v(*a, renv, next, env);
            let (bv, r2, x2) = rename_v(*b, r1, x1, env);
            (ExprV::Mul(Box::new(av), Box::new(bv)), r2, x2)
        },
        ExprV::Div(a, b) => {
            let (av, r1, x1) = rename_v(*a, renv, next, env);
            let (bv, r2, x2) = rename_v(*b, r1, x1, env);
            (ExprV::Div(Box::new(av), Box::new(bv)), r2, x2)
        },
        ExprV::Mod(a, b) => {
            let (av, r1, x1) = rename_v(*a, renv, next, env);
            let (bv, r2, x2) = rename_v(*b, r1, x1, env);
            (ExprV::Mod(Box::new(av), Box::new(bv)), r2, x2)
        },
        ExprV::Equ(a, b) => {
            let (av, r1, x1) = rename_v(*a, renv, next, env);
            let (bv, r2, x2) = rename_v(*b, r1, x1, env);
            (ExprV::Equ(Box::new(av), Box::new(bv)), r2, x2)
        },
        ExprV::Lt(a, b) => {
            let (av, r1, x1) = rename_v(*a, renv, next, env);
            let (bv, r2, x2) = rename_v(*b, r1, x1, env);
            (ExprV::Lt(Box::new(av), Box::new(bv)), r2, x2)
        },
        ExprV::Not(a) => {
            let (av, r1, x1) = rename_v(*a, renv, next, env);
            (ExprV::Not(Box::new(av)), r1, x1)
        },
        ExprV::Or(a, b) => {
            let (av, r1, x1) = rename_v(*a, renv, next, env);
            let (bv, r2, x2) = rename_v(*b, r1, x1, env);
            (ExprV::Or(Box::new(av), Box::new(bv)), r2, x2)
        },
        ExprV::And(a, b) => {
            let (av, r1, x1) = rename_v(*a, renv, next, env);
            let (bv, r2, x2) = rename_v(*b, r1, x1, env);
            (ExprV::And(Box::new(av), Box::new(bv)), r2, x2)
        },
        ExprV::IsNil(a) => {
            let (av, r1, x1) = rename_v(*a, renv, next, env);
            (ExprV::IsNil(Box::new(av)), r1, x1)
        },
        ExprV::If(c, a, b) => {
            let (cv, r1, x1) = rename_v(*c, renv, next, env);
            let (av, r2, x2) = rename_v(*a, r1, x1, env);
            let (bv, r3, x3) = rename_v(*b, r2, x2, env);
            (ExprV::If(Box::new(cv), Box::new(av), Box::new(bv)), r3, x3)
        },
        ExprV::MatchCons(v, a, hd, tl, b) => {
            let (vv, r1, x1) = rename_v(*v, renv, next, env);
            let (av, r2, x2) = rename_v(*a, r1, x1, env);
            let (hdn, r3, x3) = rename_one_v(hd, r2, x2, env);
            let (tln, r4, x4) = rename_one_v(tl, r3, x3, env);
            let (bv, r5, x5) = rename_v(*b, r4, x4, env);
            (ExprV::MatchCons(Box::new(vv), Box::new(av), hdn, tln, Box::new(bv)), r5, x5)
        },
        ExprV::LetCons(hd, tl, v, b) => {
            let (hdn, r1, x1) = rename_one_v(hd, renv, next, env);
            let (tln, r2, x2) = rename_one_v(tl, r1, x1, env);
            let (vv, r3, x3) = rename_v(*v, r2, x2, env);
            let (bv, r4, x4) = rename_v(*b, r3, x3, env);
            (ExprV::LetCons(hdn, tln, Box::new(vv), Box::new(bv)), r4, x4)
        },
        ExprV::Let(var, v, b) => {
            let (varn, r1, x1) = rename_one_v(var, renv, next, env);
            let (vv, r2, x2) = rename_v(*v, r1, x1, env);
            let (bv, r3, x3) = rename_v(*b, r2, x2, env);
            (ExprV::Let(varn, Box::new(vv), Box::new(bv)), r3, x3)
        },
        ExprV::Call(vals) => {
            let (es, r1, x1) = rename_list_v(vals, renv, next, env);
            (ExprV::Call(es), r1, x1)
        },
        ExprV::Func(ps, b) => {
            let (ns, r1, x1) = rename_names_v(ps, renv, next, env);
            let (bv, r2, x2) = rename_v(*b, r1, x1, env);
            (ExprV::Func(ns, Box::new(bv)), r2, x2)
        },
        e2 => (e2, renv, next),
    }
}

pub open spec fn rename_list_v(s: Seq<ExprV>, renv: REnvV, next: nat, env: EnvModel) -> (
    Seq<ExprV>,
    REnvV,
    nat,
)
    decreases s, 0int,
{
    if s.len() == 0 {
        (Seq::empty(), renv, next)
    } else {
        let (e0, r1, x1) = rename_v(s[0], renv, next, env);
        let (rest, r2, x2) = rename_list_v(s.skip(1), r1, x1, env);
        (seq![e0] + rest, r2, x2)
    }
}

pub open spec fn rename_names_v(s: Seq<Seq<char>>, renv: REnvV, next: nat, env: EnvModel) -> (
    Seq<Seq<char>>,
    REnvV,
    nat,
)
    decreases s.len(),
{
    if s.len() == 0 {
        (Seq::empty(), renv, next)
    } else {
        let (n0, r1, x1) = rename_one_v(s[0], renv, next, env);
        let (rest, r2, x2) = rename_names_v(s.skip(1), r1, x1, env);
        (seq![n0] + rest, r2, x2)
    }
}

/// A well-formed renaming state: fresh names were assigned sequentially and
/// no original name is recorded twice.
pub open spec fn renv_wf(renv: REnvV, next: nat) -> bool {
    &&& next == renv.len()
    &&& (forall|j: int| 0 <= j < renv.len() ==> #[trigger] renv[j].1 == fresh_name(j as nat))
    &&& (forall|i: int, j: int|
        0 <= i < j < renv.len() ==> #[trigger] renv[i].0 != #[trigger] renv[j].0)
}

proof fn lemma_renv_get_some_key(m: REnvV, s: Seq<char>)
    ensures
        renv_get(m, s) is None ==> forall|j: int| 0 <= j < m.len() ==> #[trigger] m[j].0 != s,
    decreases m.len(),
{
    if m.len() > 0 {
        lemma_renv_get_some_key(m.drop_last(), s);
        if renv_get(m, s) is None {
            assert forall|j: int| 0 <= j < m.len() implies #[trigger] m[j].0 != s by {
                if j < m.len() - 1 {
                    assert(m.drop_last()[j] == m[j]);
                }
            }
        }
    }
}

proof fn lemma_rename_one_wf(name: Seq<char>, renv: REnvV, next: nat, env: EnvModel)
    requires
        renv_wf(renv, next),
    ensures
        renv_wf(rename_one_v(name, renv, next, env).1, rename_one_v(name, renv, next, env).2),
        renv.len() <= rename_one_v(name, renv, next, env).1.len(),
        forall|j: int|
            0 <= j < renv.len() ==> #[trigger] rename_one_v(name, renv, next, env).1[j]
                == renv[j],
{
    if !(name.len() > 0 && name[0] == ':') && renv_get(renv, name) is None {
        lemma_renv_get_some_key(renv, name);
        let r2 = renv.push((name, fresh_name(next)));
        assert forall|i: int, j: int| 0 <= i < j < r2.len() implies #[trigger] r2[i].0
            != #[trigger] r2[j].0 by {
            if j == r2.len() - 1 {
                assert(r2[i] == renv[i]);
            }
        }
    }
}

/// Renaming only appends to the state and keeps it well formed.
proof fn lemma_rename_wf_full(e: ExprV, renv: REnvV, next: nat, env: EnvModel)
    requires
        renv_wf(renv, next),
    ensures
        renv_wf(rename_v(e, renv, next, env).1, rename_v(e, renv, next, env).2),
    decreases e, 2int,
{
    match e {
        ExprV::Symbol(s) => {
            lemma_rename_one_wf(s, renv, next, env);
        },
        ExprV::List(lst) => {
            lemma_rename_wf_list(lst, renv, next, env);
        },
        ExprV::Neg(a) => {
            lemma_rename_wf_full(*a, renv, next, env);
        },
        ExprV::Add(a, b) => {
            lemma_rename_wf_full(*a, renv, next, env);
            let (_, r1, x1) = rename_v(*a, renv, next, env);
            lemma_rename_wf_full(*b, r1, x1, env);
        },
        ExprV::Sub(a, b) => {
            lemma_rename_wf_full(*a, renv, next, env);
            let (_, r1, x1) = rename_v(*a, renv, next, env);
            lemma_rename_wf_full(*b, r1, x1, env);
        },
        ExprV::Mul(a, b) => {
            lemma_rename_wf_full(*a, renv, next, env);
            let (_, r1, x1) = rename_v(*a, renv, next, env);
            lemma_rename_wf_full(*b, r1, x1, env);
        },
        ExprV::Div(a, b) => {
            lemma_rename_wf_full(*a, renv, next, env);
            let (_, r1, x1) = rename_v(*a, renv, next, env);
            lemma_rename_wf_full(*b, r1, x1, env);
        },
        ExprV::Mod(a, b) => {
            lemma_rename_wf_full(*a, renv, next, env);
            let (_, r1, x1) = rename_v(*a, renv, next, env);
            lemma_rename_wf_full(*b, r1, x1, env);
        },
        ExprV::Equ(a, b) => {
            lemma_rename_wf_full(*a, renv, next, env);
            let (_, r1, x1) = rename_v(*a, renv, next, env);
            lemma_rename_wf_full(*b, r1, x1, env);
        },
        ExprV::Lt(a, b) => {
            lemma_rename_wf_full(*a, renv, next, env);
            let (_, r1, x1) = rename_v(*a, renv, next, env);
            lemma_rename_wf_full(*b, r1, x1, env);
        },
        ExprV::Not(a) => {
            lemma_rename_wf_full(*a, renv, next, env);
        },
        ExprV::Or(a, b) => {
            lemma_rename_wf_full(*a, renv, next, env);
            let (_, r1, x1) = rename_v(*a, renv, next, env);
            lemma_rename_wf_full(*b, r1, x1, env);
        },
        ExprV::And(a, b) => {
            lemma_rename_wf_full(*a, renv, next, env);
            let (_, r1, x1) = rename_v(*a, renv, next, env);
            lemma_rename_wf_full(*b, r1, x1, env);
        },
        ExprV::IsNil(a) => {
            lemma_rename_wf_full(*a, renv, next, env);
        },
        ExprV::If(c, a, b) => {
            lemma_rename_wf_full(*c, renv, next, env);
            let (_, r1, x1) = rename_v(*c, renv, next, env);
            lemma_rename_wf_full(*a, r1, x1, env);
            let (_, r2, x2) = rename_v(*a, r1, x1, env);
            lemma_rename_wf_full(*b, r2, x2, env);
        },
        ExprV::MatchCons(v, a, hd, tl, b) => {
            lemma_rename_wf_full(*v, renv, next, env);
            let (_, r1, x1) = rename_v(*v, renv, next, env);
            lemma_rename_wf_full(*a, r1, x1, env);
            let (_, r2, x2) = rename_v(*a, r1, x1, env);
            lemma_rename_one_wf(hd, r2, x2, env);
            let (_, r3, x3) = rename_one_v(hd, r2, x2, env);
            lemma_rename_one_wf(tl, r3, x3, env);
            let (_, r4, x4) = rename_one_v(tl, r3, x3, env);
            lemma_rename_wf_full(*b, r4, x4, env);
        },
        ExprV::LetCons(hd, tl, v, b) => {
            lemma_rename_one_wf(hd, renv, next, env);
            let (_, r1, x1) = rename_one_v(hd, renv, next, env);
            lemma_rename_one_wf(tl, r1, x1, env);
            let (_, r2, x2) = rename_one_v(tl, r1, x1, env);
            lemma_rename_wf_full(*v, r2, x2, env);
            let (_, r3, x3) = rename_v(*v, r2, x2, env);
            lemma_rename_wf_full(*b, r3, x3, env);
        },
        ExprV::Let(var, v, b) => {
            lemma_rename_one_wf(var, renv, next, env);
            let (_, r1, x1) = rename_one_v(var, renv, next, env);
            lemma_rename_wf_full(*v, r1, x1, env);
            let (_, r2, x2) = rename_v(*v, r1, x1, env);
            lemma_rename_wf_full(*b, r2, x2, env);
        },
        ExprV::Call(vals) => {
            lemma_rename_wf_list(vals, renv, next, env);
        },
        ExprV::Func(ps, b) => {
            lemma_rename_wf_names(ps, renv, next, env);
            let (_, r1, x1) = rename_names_v(ps, renv, next, env);
            lemma_rename_wf_full(*b, r1, x1, env);
        },
        _ => {},
    }
}

proof fn lemma_rename_wf_list(s: Seq<ExprV>, renv: REnvV, next: nat, env: EnvModel)
    requires
        renv_wf(renv, next),
    ensures
        renv_wf(rename_list_v(s, renv, next, env).1, rename_list_v(s, renv, next, env).2),
    decreases s, 0int,
{
    if s.len() > 0 {
        lemma_rename_wf_full(s[0], renv, next, env);
        let (_, r1, x1) = rename_v(s[0], renv, next, env);
        lemma_rename_wf_list(s.skip(1), r1, x1, env);
    }
}

proof fn lemma_rename_wf_names(s: Seq<Seq<char>>, renv: REnvV, next: nat, env: EnvModel)
    requires
        renv_wf(renv, next),
    ensures
        renv_wf(rename_names_v(s, renv, next, env).1, rename_names_v(s, renv, next, env).2),
    decreases s.len(),
{
    if s.len() > 0 {
        lemma_rename_one_wf(s[0], renv, next, env);
        let (_, r1, x1) = rename_one_v(s[0], renv, next, env);
        lemma_rename_wf_names(s.skip(1), r1, x1, env);
    }
}

proof fn lemma_fresh_name_injective(a: nat, b: nat)
    requires
        fresh_name(a) == fresh_name(b),
    ensures
        a == b,
{
    let pa = "_x"@;
    assert(fresh_name(a).skip(pa.len() as int) =~= crate::names::dec_digits(a));
    assert(fresh_name(b).skip(pa.len() as int) =~= crate::names::dec_digits(b));
    crate::names::lemma_dec_digits_injective(a, b);
}

/// The renamer is injective per definition: starting from a fresh state, no
/// two distinct original names receive the same fresh name, and no fresh
/// name is issued twice. Determinism holds by construction: the renamer is a
/// function of the input tree and dictionary alone.
pub proof fn lemma_renamer_injective(e: ExprV, env: EnvModel)
    ensures
        ({
            let renv2 = rename_v(e, Seq::empty(), 0, env).1;
            forall|i: int, j: int|
                0 <= i < j < renv2.len() ==> renv2[i].0 != renv2[j].0 && renv2[i].1 != renv2[j].1
        }),
{
    assert(renv_wf(Seq::empty(), 0));
    lemma_rename_wf_full(e, Seq::empty(), 0, env);
    let renv2 = rename_v(e, Seq::empty(), 0, env).1;
    assert forall|i: int, j: int| 0 <= i < j < renv2.len() implies renv2[i].0 != renv2[j].0
        && renv2[i].1 != renv2[j].1 by {
        assert(renv2[i].1 == fresh_name(i as nat));
        assert(renv2[j].1 == fresh_name(j as nat));
        if renv2[i].1 == renv2[j].1 {
            lemma_fresh_name_injective(i as nat, j as nat);
        }
    }
}

pub open spec fn renv_view(m: Seq<(String, String)>) -> REnvV {
    m.map_values(|p: (String, String)| (p.0@, p.1@))
}

#[verifier::loop_isolation(false)]
fn renv_get_exec<'a>(renv: &'a Vec<(String, String)>, s: &str) -> (r: Option<&'a String>)
    ensures
        match r {
            Some(n) => renv_get(renv_view(renv@), s@) == Some(n@),
            None => renv_get(renv_view(renv@), s@) is None,
        },
{
    let mut i = renv.len();
    while i > 0
        invariant
            i <= renv@.len(),
            forall|j: int| i <= j < renv@.len() ==> #[trigger] renv@[j].0@ != s@,
        decreases i,
    {
        i = i - 1;
        if str_eq(renv[i].0.as_str(), s) {
            proof {
                assert forall|j: int| (i as int) < j < renv@.len() implies #[trigger] renv_view(
                    renv@,
                )[j].0 != s@ by {
                    assert(renv_view(renv@)[j] == (renv@[j].0@, renv@[j].1@));
                }
                assert(renv_view(renv@)[i as int] == (renv@[i as int].0@, renv@[i as int].1@));
                lemma_renv_get_at(renv_view(renv@), s@, i as int);
            }
            return Some(&renv[i].1);
        }
    }
    proof {
        assert forall|j: int| 0 <= j < renv@.len() implies #[trigger] renv_view(renv@)[j].0
            != s@ by {
            assert(renv_view(renv@)[j] == (renv@[j].0@, renv@[j].1@));
        }
        lemma_renv_get_none_all(renv_view(renv@), s@);
    }
    None
}

proof fn lemma_renv_get_at(m: REnvV, s: Seq<char>, i: int)
    requires
        0 <= i < m.len(),
        m[i].0 == s,
        forall|j: int| i < j < m.len() ==> #[trigger] m[j].0 != s,
    ensures
        renv_get(m, s) == Some(m[i].1),
    decreases m.len(),
{
    if i < m.len() - 1 {
        lemma_renv_get_at(m.drop_last(), s, i);
    }
}

proof fn lemma_renv_get_none_all(m: REnvV, s: Seq<char>)
    requires
        forall|j: int| 0 <= j < m.len() ==> #[trigger] m[j].0 != s,
    ensures
        renv_get(m, s) is None,
    decreases m.len(),
{
    if m.len() > 0 {
        lemma_renv_get_none_all(m.drop_last(), s);
    }
}

fn rename_one(name: &str, renv: &mut Vec<(String, String)>, env: &Env) -> (r: String)
    ensures
        ({
            let (n, r1, x1) = rename_one_v(
                name@,
                renv_view(old(renv)@),
                renv_view(old(renv)@).len(),
                env@,
            );
            r@ == n && renv_view(final(renv)@) == r1
        }),
{
    let len = name.unicode_len();
    if len > 0 && name.get_char(0) == ':' {
        match env.get_name(name) {
            Some(n) => {
                return n.clone();
            },
            None => {
                return String::from_str(name);
            },
        }
    }
    let found = match renv_get_exec(renv, name) {
        Some(n) => Some(n.clone()),
        None => None,
    };
    match found {
        Some(n) => n,
        None => {
            proof {
                reveal_strlit("_x");
            }
            let mut fresh = String::from_str("_x");
            let digits = crate::names::u64_to_string(renv.len() as u64);
            fresh.append(digits.as_str());
            let ghost oldrv = renv_view(renv@);
            renv.push((String::from_str(name), fresh.clone()));
            proof {
                assert(renv_view(renv@) =~= oldrv.push((name@, fresh@)));
            }
            fresh
        },
    }
}

/// Renames every reference in an expression. The next fresh index always
/// equals the number of names recorded so far.
#[verifier::rlimit(100)]
#[verifier::spinoff_prover]
fn rename_rec(e: &Expr, renv: &mut Vec<(String, String)>, env: &Env) -> (r: Expr)
    requires
        renv_wf(renv_view(old(renv)@), renv_view(old(renv)@).len()),
    ensures
        ({
            let (ev, r1, x1) = rename_v(
                e@,
                renv_view(old(renv)@),
                renv_view(old(renv)@).len(),
                env@,
            );
            r@ == ev && renv_view(final(renv)@) == r1 && renv_wf(r1, x1) && x1 == r1.len()
        }),
    decreases e, 1int,
{
    proof {
        reveal_with_fuel(view_expr, 3);
        lemma_rename_wf_full(e@, renv_view(renv@), renv_view(renv@).len(), env@);
    }
    let ghost r0 = renv_view(renv@);
    match e {
        Expr::Symbol(s) => {
            proof {
                lemma_rename_one_wf(s@, r0, r0.len(), env@);
            }
            Expr::Symbol(rename_one(s.as_str(), renv, env))
        },
        Expr::List(lst) => {
            proof {
                assert(decreases_to!(*e => e->List_0));
                assert(e->List_0 == *lst);
            }
            Expr::List(rename_vec(lst, renv, env))
        },
        Expr::Call(lst) => {
            proof {
                assert(decreases_to!(*e => e->Call_0));
                assert(e->Call_0 == *lst);
            }
            Expr::Call(rename_vec(lst, renv, env))
        },
        Expr::Neg(a) => Expr::Neg(Box::new(rename_rec(a, renv, env))),
        Expr::Not(a) => Expr::Not(Box::new(rename_rec(a, renv, env))),
        Expr::IsNil(a) => Expr::IsNil(Box::new(rename_rec(a, renv, env))),
        Expr::Add(a, b) => {
            let av = rename_rec(a, renv, env);
            let bv = rename_rec(b, renv, env);
            Expr::Add(Box::new(av), Box::new(bv))
        },
        Expr::Sub(a, b) => {
            let av = rename_rec(a, renv, env);
            let bv = rename_rec(b, renv, env);
            Expr::Sub(Box::new(av), Box::new(bv))
        },
        Expr::Mul(a, b) => {
            let av = rename_rec(a, renv, env);
            let bv = rename_rec(b, renv, env);
            Expr::Mul(Box::new(av), Box::new(bv))
        },
        Expr::Div(a, b) => {
            let av = rename_rec(a, renv, env);
            let bv = rename_rec(b, renv, env);
            Expr::Div(Box::new(av), Box::new(bv))
        },
        Expr::Mod(a, b) => {
            let av = rename_rec(a, renv, env);
            let bv = rename_rec(b, renv, env);
            Expr::Mod(Box::new(av), Box::new(bv))
        },
        Expr::Equ(a, b) => {
            let av = rename_rec(a, renv, env);
            let bv = rename_rec(b, renv, env);
            Expr::Equ(Box::new(av), Box::new(bv))
        },
        Expr::Lt(a, b) => {
            let av = rename_rec(a, renv, env);
            let bv = rename_rec(b, renv, env);
            Expr::Lt(Box::new(av), Box::new(bv))
        },
        Expr::Or(a, b) => {
            let av = rename_rec(a, renv, env);
            let bv = rename_rec(b, renv, env);
            Expr::Or(Box::new(av), Box::new(bv))
        },
        Expr::And(a, b) => {
            let av = rename_rec(a, renv, env);
            let bv = rename_rec(b, renv, env);
            Expr::And(Box::new(av), Box::new(bv))
        },
        Expr::If(c, a, b) => {
            let cv = rename_rec(c, renv, env);
            let av = rename_rec(a, renv, env);
            let bv = rename_rec(b, renv, env);
            Expr::If(Box::new(cv), Box::new(av), Box::new(bv))
        },
        Expr::MatchCons(v, a, hd, tl, b) => {
            let vv = rename_rec(v, renv, env);
            let av = rename_rec(a, renv, env);
            proof {
                lemma_rename_one_wf(hd@, renv_view(renv@), renv_view(renv@).len(), env@);
            }
            let hdn = rename_one(hd.as_str(), renv, env);
            proof {
                lemma_rename_one_wf(tl@, renv_view(renv@), renv_view(renv@).len(), env@);
            }
            let tln = rename_one(tl.as_str(), renv, env);
            let bv = rename_rec(b, renv, env);
            Expr::MatchCons(Box::new(vv), Box::new(av), hdn, tln, Box::new(bv))
        },
        Expr::LetCons(hd, tl, v, b) => {
            proof {
                lemma_rename_one_wf(hd@, renv_view(renv@), renv_view(renv@).len(), env@);
            }
            let hdn = rename_one(hd.as_str(), renv, env);
            proof {
                lemma_rename_one_wf(tl@, renv_view(renv@), renv_view(renv@).len(), env@);
            }
            let tln = rename_one(tl.as_str(), renv, env);
            let vv = rename_rec(v, renv, env);
            let bv = rename_rec(b, renv, env);
            Expr::LetCons(hdn, tln, Box::new(vv), Box::new(bv))
        },
        Expr::Let(var, v, b) => {
            proof {
                lemma_rename_one_wf(var@, renv_view(renv@), renv_view(renv@).len(), env@);
            }
            let varn = rename_one(var.as_str(), renv, env);
            let vv = rename_rec(v, renv, env);
            let bv = rename_rec(b, renv, env);
            Expr::Let(varn, Box::new(vv), Box::new(bv))
        },
        Expr::Func(ps, b) => {
            let ns = rename_names(ps, renv, env);
            let bv = rename_rec(b, renv, env);
            Expr::Func(ns, Box::new(bv))
        },
        e2 => e2.clone(),
    }
}

#[verifier::loop_isolation(false)]
fn rename_vec(lst: &Vec<Expr>, renv: &mut Vec<(String, String)>, env: &Env) -> (r: Vec<Expr>)
    requires
        renv_wf(renv_view(old(renv)@), renv_view(old(renv)@).len()),
    ensures
        ({
            let (es, r1, x1) = rename_list_v(
                view_expr_list(lst@),
                renv_view(old(renv)@),
                renv_view(old(renv)@).len(),
                env@,
            );
            view_expr_list(r@) == es && renv_view(final(renv)@) == r1 && renv_wf(r1, x1) && x1
                == r1.len()
        }),
    decreases lst@, 0int,
{
    let ghost lv = view_expr_list(lst@);
    let ghost r0 = renv_view(renv@);
    proof {
        lemma_rename_wf_list(lv, r0, r0.len(), env@);
        lemma_view_expr_list(lst@);
    }
    let mut out: Vec<Expr> = Vec::new();
    let mut i: usize = 0;
    proof {
        assert(lst@.skip(0) =~= lst@);
        assert(view_expr_list(out@) =~= Seq::<ExprV>::empty());
        assert(Seq::<ExprV>::empty() + rename_list_v(lv, r0, r0.len(), env@).0 =~= rename_list_v(
            lv,
            r0,
            r0.len(),
            env@,
        ).0);
    }
    while i < lst.len()
        invariant
            i <= lst@.len(),
            out@.len() == i,
            renv_wf(renv_view(renv@), renv_view(renv@).len()),
            ({
                let full = rename_list_v(lv, r0, r0.len(), env@);
                let rest = rename_list_v(
                    view_expr_list(lst@.skip(i as int)),
                    renv_view(renv@),
                    renv_view(renv@).len(),
                    env@,
                );
                full.0 == view_expr_list(out@) + rest.0 && full.1 == rest.1 && full.2 == rest.2
            }),
        decreases lst@.len() - i,
    {
        proof {
            assert(decreases_to!(*lst => lst@));
            assert(decreases_to!(lst@ => lst@[i as int]));
        }
        let ghost outv = view_expr_list(out@);
        let ghost ri = renv_view(renv@);
        let e0 = rename_rec(&lst[i], renv, env);
        let ghost e0e = e0;
        let ghost out_old = out@;
        out.push(e0);
        proof {
            let tail = view_expr_list(lst@.skip(i as int));
            lemma_view_expr_list(lst@.skip(i as int));
            assert(lst@.skip(i as int)[0] == lst@[i as int]);
            assert(tail[0] == view_expr(lst@[i as int]));
            lemma_view_expr_list_skip_one(lst@.skip(i as int));
            assert(lst@.skip(i as int).skip(1) =~= lst@.skip(i + 1));
            lemma_view_expr_list_push(out_old, e0e);
            assert(out@ =~= out_old.push(e0e));
            let (e0v, r1, x1) = rename_v(tail[0], ri, ri.len(), env@);
            assert(view_expr(e0e) == e0v);
            assert(view_expr_list(out@) == outv.push(e0v));
            lemma_rename_wf_full(tail[0], ri, ri.len(), env@);
            let rest = rename_list_v(view_expr_list(lst@.skip(i + 1)), r1, x1, env@);
            assert(rename_list_v(tail, ri, ri.len(), env@).0 == seq![e0v] + rest.0);
            assert(outv + (seq![e0v] + rest.0) =~= outv.push(e0v) + rest.0);
        }
        i = i + 1;
    }
    proof {
        assert(lst@.skip(lst@.len() as int) =~= Seq::<Expr>::empty());
        assert(view_expr_list(out@) + Seq::<ExprV>::empty() =~= view_expr_list(out@));
    }
    out
}

#[verifier::loop_isolation(false)]
fn rename_names(ps: &Vec<String>, renv: &mut Vec<(String, String)>, env: &Env) -> (r: Vec<String>)
    requires
        renv_wf(renv_view(old(renv)@), renv_view(old(renv)@).len()),
    ensures
        ({
            let (ns, r1, x1) = rename_names_v(
                ps@.map_values(|p: String| p@),
                renv_view(old(renv)@),
                renv_view(old(renv)@).len(),
                env@,
            );
            r@.map_values(|p: String| p@) == ns && renv_view(final(renv)@) == r1 && renv_wf(
                r1,
                x1,
            ) && x1 == r1.len()
        }),
{
    let ghost pv = ps@.map_values(|p: String| p@);
    let ghost r0 = renv_view(renv@);
    proof {
        lemma_rename_wf_names(pv, r0, r0.len(), env@);
    }
    let mut out: Vec<String> = Vec::new();
    let mut i: usize = 0;
    proof {
        assert(pv.skip(0) =~= pv);
        assert(out@.map_values(|p: String| p@) =~= Seq::<Seq<char>>::empty());
        assert(Seq::<Seq<char>>::empty() + rename_names_v(pv, r0, r0.len(), env@).0
            =~= rename_names_v(pv, r0, r0.len(), env@).0);
    }
    while i < ps.len()
        invariant
            i <= ps@.len(),
            out@.len() == i,
            pv == ps@.map_values(|p: String| p@),
            renv_wf(renv_view(renv@), renv_view(renv@).len()),
            ({
                let full = rename_names_v(pv, r0, r0.len(), env@);
                let rest = rename_names_v(
                    pv.skip(i as int),
                    renv_view(renv@),
                    renv_view(renv@).len(),
                    env@,
                );
                full.0 == out@.map_values(|p: String| p@) + rest.0 && full.1 == rest.1 && full.2
                    == rest.2
            }),
        decreases ps@.len() - i,
    {
        let ghost outv = out@.map_values(|p: String| p@);
        let ghost ri = renv_view(renv@);
        proof {
            assert(pv.skip(i as int)[0] == pv[i as int]);
            assert(pv[i as int] == ps@[i as int]@);
            lemma_rename_one_wf(pv[i as int], ri, ri.len(), env@);
        }
        let n0 = rename_one(ps[i].as_str(), renv, env);
        let ghost n0v = n0@;
        let ghost out_old = out@;
        out.push(n0);
        proof {
            assert(out@ =~= out_old.push(out@.last()));
            assert(out@.map_values(|p: String| p@) =~= outv.push(n0v));
            assert(pv.skip(i as int).skip(1) =~= pv.skip(i + 1));
            let (n0s, r1, x1) = rename_one_v(pv[i as int], ri, ri.len(), env@);
            assert(n0v == n0s);
            let rest = rename_names_v(pv.skip(i + 1), r1, x1, env@);
            assert(rename_names_v(pv.skip(i as int), ri, ri.len(), env@).0 == seq![n0s]
                + rest.0);
            assert(outv + (seq![n0s] + rest.0) =~= outv.push(n0s) + rest.0);
        }
        i = i + 1;
    }
    proof {
        assert(pv.skip(pv.len() as int) =~= Seq::<Seq<char>>::empty());
        assert(out@.map_values(|p: String| p@) + Seq::<Seq<char>>::empty() =~= out@.map_values(
            |p: String| p@,
        ));
    }
    out
}

/// Renames every reference in the expression: dictionary names verbatim,
/// everything else by fresh sequential identifiers, deterministically.
pub fn rename(expr: &Expr, env: &Env) -> (r: Expr)
    ensures
        r@ == rename_v(expr@, Seq::empty(), 0, env@).0,
{
    let mut renv: Vec<(String, String)> = Vec::new();
    proof {
        assert(renv_view(renv@) =~= Seq::<(Seq<char>, Seq<char>)>::empty());
    }
    rename_rec(expr, &mut renv, env)
}

/// Binding strength of each construct; smaller binds tighter. A sub-term is
/// parenthesised when its priority exceeds what its position allows.
pub open spec fn priority_v(e: ExprV) -> int {
    match e {
        ExprV::Int(_) => 0,
        ExprV::Symbol(_) => 0,
        ExprV::List(_) => 0,
        ExprV::True => 0,
        ExprV::False => 0,
        ExprV::ADD => 0,
        ExprV::CAR => 0,
        ExprV::CDR => 0,
        ExprV::CONS => 0,
        ExprV::DIV => 0,
        ExprV::EQ => 0,
        ExprV::ISNIL => 0,
        ExprV::LT => 0,
        ExprV::MUL => 0,
        ExprV::NEG => 0,
        ExprV::Neg(_) => 1,
        ExprV::IsNil(_) => 1,
        ExprV::Not(_) => 1,
        ExprV::Call(_) => 1,
        ExprV::Func(_, _) => 2,
        ExprV::Mul(_, _) => 3,
        ExprV::Div(_, _) => 3,
        ExprV::Mod(_, _) => 3,
        ExprV::Add(_, _) => 4,
        ExprV::Sub(_, _) => 4,
        ExprV::Equ(_, _) => 5,
        ExprV::Lt(_, _) => 5,
        ExprV::And(_, _) => 6,
        ExprV::Or(_, _) => 7,
        ExprV::If(_, _, _) => 8,
        ExprV::MatchCons(_, _, _, _, _) => 9,
        ExprV::LetCons(_, _, _, _) => 9,
        ExprV::Let(_, _, _) => 9,
    }
}

/// The text of an expression.
pub open spec fn render_s(e: ExprV) -> Seq<char>
    decreases e, 0int,
{
    match e {
        ExprV::Int(i) => crate::names::dec_int(i),
        ExprV::Symbol(s) => s,
        ExprV::List(lst) => "["@ + render_list_s(lst) + "]"@,
        ExprV::ADD => "add"@,
        ExprV::CAR => "car"@,
        ExprV::CDR => "cdr"@,
        ExprV::CONS => "cons"@,
        ExprV::DIV => "div"@,
        ExprV::EQ => "=="@,
        ExprV::ISNIL => "isnil"@,
        ExprV::LT => "<"@,
        ExprV::MUL => "mul"@,
        ExprV::NEG => "neg"@,
        ExprV::True => "true"@,
        ExprV::False => "false"@,
        ExprV::Neg(a) => "-"@ + render_paren_s(*a, 1),
        ExprV::IsNil(a) => "isnil("@ + render_s(*a) + ")"@,
        ExprV::Add(l, r) => render_paren_s(*l, 4) + " + "@ + render_paren_s(*r, 3),
        ExprV::Sub(l, r) => render_paren_s(*l, 4) + " - "@ + render_paren_s(*r, 3),
        ExprV::Mul(l, r) => render_paren_s(*l, 3) + " * "@ + render_paren_s(*r, 2),
        ExprV::Div(l, r) => render_paren_s(*l, 3) + " / "@ + render_paren_s(*r, 2),
        ExprV::Mod(l, r) => render_paren_s(*l, 3) + " % "@ + render_paren_s(*r, 2),
        ExprV::Equ(l, r) => render_paren_s(*l, 5) + " == "@ + render_paren_s(*r, 4),
        ExprV::Lt(l, r) => render_paren_s(*l, 5) + " < "@ + render_paren_s(*r, 4),
        ExprV::Not(a) => "!"@ + render_paren_s(*a, 1),
        ExprV::And(l, r) => render_paren_s(*l, 6) + " && "@ + render_paren_s(*r, 5),
        ExprV::Or(l, r) => render_paren_s(*l, 7) + " || "@ + render_paren_s(*r, 6),
        ExprV::If(c, a, b) => "if "@ + render_s(*c) + " { "@ + render_s(*a) + " } else { "@
            + render_s(*b) + " }"@,
        ExprV::MatchCons(v, a, hd, tl, b) => "match "@ + render_s(*v) + " { [] => "@ + render_s(
            *a,
        ) + ", "@ + hd + "::"@ + tl + " => "@ + render_s(*b) + " }"@,
        ExprV::LetCons(hd, tl, a, b) => "let "@ + hd + "::"@ + tl + " = "@ + render_s(*a)
            + " in "@ + render_s(*b),
        ExprV::Let(var, a, b) => "let "@ + var + " = "@ + render_s(*a) + " in "@ + render_s(*b),
        ExprV::Call(vals) => if vals.len() > 0 {
            render_paren_s(vals[0], 1) + "("@ + render_list_s(vals.skip(1)) + ")"@
        } else {
            "()"@
        },
        ExprV::Func(ps, b) => "fun("@ + render_names_s(ps) + ") -> "@ + render_s(*b),
    }
}

/// The text of a sub-term at a position that admits priority `pri`.
pub open spec fn render_paren_s(e: ExprV, pri: int) -> Seq<char>
    decreases e, 1int,
{
    if priority_v(e) > pri {
        "("@ + render_s(e) + ")"@
    } else {
        render_s(e)
    }
}

/// Comma-separated texts.
pub open spec fn render_list_s(s: Seq<ExprV>) -> Seq<char>
    decreases s, 0int,
{
    if s.len() == 0 {
        Seq::empty()
    } else if s.len() == 1 {
        render_s(s[0])
    } else {
        render_s(s[0]) + ", "@ + render_list_s(s.skip(1))
    }
}

/// Comma-separated parameter names.
pub open spec fn render_names_s(s: Seq<Seq<char>>) -> Seq<char>
    decreases s.len(),
{
    if s.len() == 0 {
        Seq::empty()
    } else if s.len() == 1 {
        s[0]
    } else {
        s[0] + ", "@ + render_names_s(s.skip(1))
    }
}

fn priority(e: &Expr) -> (p: u32)
    ensures
        p as int == priority_v(e@),
{
    match e {
        Expr::Int(_) => 0,
        Expr::Symbol(_) => 0,
        Expr::List(_) => 0,
        Expr::True => 0,
        Expr::False => 0,
        Expr::ADD => 0,
        Expr::CAR => 0,
        Expr::CDR => 0,
        Expr::CONS => 0,
        Expr::DIV => 0,
        Expr::EQ => 0,
        Expr::ISNIL => 0,
        Expr::LT => 0,
        Expr::MUL => 0,
        Expr::NEG => 0,
        Expr::Neg(_) => 1,
        Expr::IsNil(_) => 1,
        Expr::Not(_) => 1,
        Expr::Call(_) => 1,
        Expr::Func(_, _) => 2,
        Expr::Mul(_, _) => 3,
        Expr::Div(_, _) => 3,
        Expr::Mod(_, _) => 3,
        Expr::Add(_, _) => 4,
        Expr::Sub(_, _) => 4,
        Expr::Equ(_, _) => 5,
        Expr::Lt(_, _) => 5,
        Expr::And(_, _) => 6,
        Expr::Or(_, _) => 7,
        Expr::If(_, _, _) => 8,
        Expr::MatchCons(_, _, _, _, _) => 9,
        Expr::LetCons(_, _, _, _) => 9,
        Expr::Let(_, _, _) => 9,
    }
}

impl Expr {
    /// The deterministic pretty-printed text of the expression.
    #[verifier::rlimit(100)]
    #[verifier::spinoff_prover]
    pub fn render(&self) -> (r: String)
        ensures
            r@ == render_s(self@),
        decreases self, 0int,
    {
        proof {
            reveal_with_fuel(view_expr, 2);
        }
        match self {
            Expr::Int(i) => crate::names::isize_to_string(*i),
            Expr::Symbol(s) => s.clone(),
            Expr::List(lst) => {
                proof {
                    assert(decreases_to!(*self => self->List_0));
                    assert(self->List_0 == *lst);
                }
                let mut out = String::from_str("[");
                let inner = render_vec(lst);
                out.append(inner.as_str());
                out.append("]");
                out
            },
            Expr::ADD => String::from_str("add"),
            Expr::CAR => String::from_str("car"),
            Expr::CDR => String::from_str("cdr"),
            Expr::CONS => String::from_str("cons"),
            Expr::DIV => String::from_str("div"),
            Expr::EQ => String::from_str("=="),
            Expr::ISNIL => String::from_str("isnil"),
            Expr::LT => String::from_str("<"),
            Expr::MUL => String::from_str("mul"),
            Expr::NEG => String::from_str("neg"),
            Expr::True => String::from_str("true"),
            Expr::False => String::from_str("false"),
            Expr::Neg(a) => {
                let mut out = String::from_str("-");
                let inner = render_paren(a, 1);
                out.append(inner.as_str());
                out
            },
            Expr::IsNil(a) => {
                let mut out = String::from_str("isnil(");
                let inner = a.render();
                out.append(inner.as_str());
                out.append(")");
                out
            },
            Expr::Add(l, r) => {
                let mut out = render_paren(l, 4);
                out.append(" + ");
                let rs = render_paren(r, 3);
                out.append(rs.as_str());
                out
            },
            Expr::Sub(l, r) => {
                let mut out = render_paren(l, 4);
                out.append(" - ");
                let rs = render_paren(r, 3);
                out.append(rs.as_str());
                out
            },
            Expr::Mul(l, r) => {
                let mut out = render_paren(l, 3);
                out.append(" * ");
                let rs = render_paren(r, 2);
                out.append(rs.as_str());
                out
            },
            Expr::Div(l, r) => {
                let mut out = render_paren(l, 3);
                out.append(" / ");
                let rs = render_paren(r, 2);
                out.append(rs.as_str());
                out
            },
            Expr::Mod(l, r) => {
                let mut out = render_paren(l, 3);
                out.append(" % ");
                let rs = render_paren(r, 2);
                out.append(rs.as_str());
                out
            },
            Expr::Equ(l, r) => {
                let mut out = render_paren(l, 5);
                out.append(" == ");
                let rs = render_paren(r, 4);
                out.append(rs.as_str());
                out
            },
            Expr::Lt(l, r) => {
                let mut out = render_paren(l, 5);
                out.append(" < ");
                let rs = render_paren(r, 4);
                out.append(rs.as_str());
                out
            },
            Expr::Not(a) => {
                let mut out = String::from_str("!");
                let inner = render_paren(a, 1);
                out.append(inner.as_str());
                out
            },
            Expr::And(l, r) => {
                let mut out = render_paren(l, 6);
                out.append(" && ");
                let rs = render_paren(r, 5);
                out.append(rs.as_str());
                out
            },
            Expr::Or(l, r) => {
                let mut out = render_paren(l, 7);
                out.append(" || ");
                let rs = render_paren(r, 6);
                out.append(rs.as_str());
                out
            },
            Expr::If(c, a, b) => {
                let mut out = String::from_str("if ");
                let cs = c.render();
                out.append(cs.as_str());
                out.append(" { ");
                let as_ = a.render();
                out.append(as_.as_str());
                out.append(" } else { ");
                let bs = b.render();
                out.append(bs.as_str());
                out.append(" }");
                out
            },
            Expr::MatchCons(v, a, hd, tl, b) => {
                let mut out = String::from_str("match ");
                let vs = v.render();
                out.append(vs.as_str());
                out.append(" { [] => ");
                let as_ = a.render();
                out.append(as_.as_str());
                out.append(", ");
                out.append(hd.as_str());
                out.append("::");
                out.append(tl.as_str());
                out.append(" => ");
                let bs = b.render();
                out.append(bs.as_str());
                out.append(" }");
                out
            },
            Expr::LetCons(hd, tl, a, b) => {
                let mut out = String::from_str("let ");
                out.append(hd.as_str());
                out.append("::");
                out.append(tl.as_str());
                out.append(" = ");
                let as_ = a.render();
                out.append(as_.as_str());
                out.append(" in ");
                let bs = b.render();
                out.append(bs.as_str());
                out
            },
            Expr::Let(var, a, b) => {
                let mut out = String::from_str("let ");
                out.append(var.as_str());
                out.append(" = ");
                let as_ = a.render();
                out.append(as_.as_str());
                out.append(" in ");
                let bs = b.render();
                out.append(bs.as_str());
                out
            },
            Expr::Call(vals) => {
                proof {
                    assert(decreases_to!(*self => self->Call_0));
                    assert(self->Call_0 == *vals);
                    lemma_view_expr_list(vals@);
                }
                if vals.len() > 0 {
                    proof {
                        assert(decreases_to!(vals@ => vals@[0]));
                    }
                    let mut out = render_paren(&vals[0], 1);
                    out.append("(");
                    let rest = render_vec_from(vals, 1);
                    out.append(rest.as_str());
                    out.append(")");
                    proof {
                        assert(view_expr_list(vals@).skip(1) =~= view_expr_list(
                            vals@,
                        ).subrange(1, vals@.len() as int));
                    }
                    out
                } else {
                    String::from_str("()")
                }
            },
            Expr::Func(ps, b) => {
                let mut out = String::from_str("fun(");
                let names = render_param_names(ps);
                out.append(names.as_str());
                out.append(") -> ");
                let bs = b.render();
                out.append(bs.as_str());
                out
            },
        }
    }
}

fn render_paren(e: &Expr, pri: u32) -> (r: String)
    ensures
        r@ == render_paren_s(e@, pri as int),
    decreases e, 1int,
{
    if priority(e) > pri {
        let mut out = String::from_str("(");
        let inner = e.render();
        out.append(inner.as_str());
        out.append(")");
        out
    } else {
        e.render()
    }
}

/// The comma-separated texts of the elements from position `from` on.
#[verifier::loop_isolation(false)]
fn render_vec_from(lst: &Vec<Expr>, from: usize) -> (r: String)
    requires
        from <= lst@.len(),
    ensures
        r@ == render_list_s(view_expr_list(lst@).subrange(from as int, lst@.len() as int)),
    decreases lst@, 2int,
{
    proof {
        lemma_view_expr_list(lst@);
    }
    let mut out = String::new();
    let mut i: usize = from;
    while i < lst.len()
        invariant
            from <= i <= lst@.len(),
            render_list_s(view_expr_list(lst@).subrange(from as int, lst@.len() as int)) == out@
                + render_list_s(view_expr_list(lst@).subrange(i as int, lst@.len() as int)),
        decreases lst@.len() - i,
    {
        proof {
            assert(decreases_to!(*lst => lst@));
            assert(decreases_to!(lst@ => lst@[i as int]));
        }
        let ghost outv = out@;
        let es = lst[i].render();
        out.append(es.as_str());
        if i + 1 < lst.len() {
            out.append(", ");
        }
        proof {
            let whole = view_expr_list(lst@);
            let cur = whole.subrange(i as int, lst@.len() as int);
            assert(cur.len() == lst@.len() - i);
            assert(cur[0] == whole[i as int]);
            assert(whole[i as int] == view_expr(lst@[i as int]));
            assert(cur.skip(1) =~= whole.subrange(i + 1, lst@.len() as int));
            if i + 1 < lst@.len() {
                assert(render_list_s(cur) == render_s(cur[0]) + ", "@ + render_list_s(
                    cur.skip(1),
                ));
            } else {
                assert(cur.len() == 1);
                assert(render_list_s(cur) == render_s(cur[0]));
                assert(whole.subrange(i + 1, lst@.len() as int).len() == 0);
            }
        }
        i = i + 1;
    }
    proof {
        assert(view_expr_list(lst@).subrange(lst@.len() as int, lst@.len() as int).len() == 0);
    }
    out
}

/// The comma-separated texts of all elements.
fn render_vec(lst: &Vec<Expr>) -> (r: String)
    ensures
        r@ == render_list_s(view_expr_list(lst@)),
    decreases lst@, 3int,
{
    proof {
        lemma_view_expr_list(lst@);
    }
    let r = render_vec_from(lst, 0);
    proof {
        assert(view_expr_list(lst@).subrange(0, lst@.len() as int) =~= view_expr_list(lst@));
    }
    r
}

/// The comma-separated parameter names.
#[verifier::loop_isolation(false)]
fn render_param_names(ps: &Vec<String>) -> (r: String)
    ensures
        r@ == render_names_s(ps@.map_values(|p: String| p@)),
{
    let ghost pv = ps@.map_values(|p: String| p@);
    let mut out = String::new();
    let mut i: usize = 0;
    proof {
        assert(pv.subrange(0, pv.len() as int) =~= pv);
    }
    while i < ps.len()
        invariant
            i <= ps@.len(),
            pv == ps@.map_values(|p: String| p@),
            render_names_s(pv) == out@ + render_names_s(
                pv.subrange(i as int, pv.len() as int),
            ),
        decreases ps@.len() - i,
    {
        out.append(ps[i].as_str());
        if i + 1 < ps.len() {
            out.append(", ");
        }
        proof {
            let cur = pv.subrange(i as int, pv.len() as int);
            assert(cur.len() == pv.len() - i);
            assert(cur[0] == pv[i as int]);
            assert(pv[i as int] == ps@[i as int]@);
            assert(cur.skip(1) =~= pv.subrange(i + 1, pv.len() as int));
            if i + 1 < pv.len() {
                assert(render_names_s(cur) == cur[0] + ", "@ + render_names_s(cur.skip(1)));
            } else {
                assert(cur.len() == 1);
                assert(render_names_s(cur) == cur[0]);
                assert(pv.subrange(i + 1, pv.len() as int).len() == 0);
            }
        }
        i = i + 1;
    }
    proof {
        assert(pv.subrange(pv.len() as int, pv.len() as int).len() == 0);
    }
    out
}

} // verus!

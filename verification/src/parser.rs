//! Recursive-descent parser: turns the token stream of one definition line
//! into a raw binary-application tree. `ap` consumes two sub-expressions; a
//! chunk `(` opens a comma-separated literal list that is desugared into
//! nested `cons`/`nil` applications; every other token is a leaf.

use vstd::prelude::*;
use vstd::string::StrSliceExecFns;
use crate::ast;
use crate::ast::AstV;
use crate::lexer;
use crate::lexer::{Token, TokenV};
use crate::names::str_eq;

verus! {

/// Why a line was rejected.
#[derive(Debug, Clone, Copy, PartialEq, Eq)]
pub enum ParseError {
    /// The token stream ended in the middle of an expression.
    UnexpectedEol,
    /// A token that cannot stand at this position (a stray `=`, or a broken
    /// literal list).
    UnexpectedToken,
    /// The line does not have the shape `<symbol> = <expression>`.
    BadDefinition,
    /// The tree is too large for the pipeline's machine-sized counters.
    TooLarge,
}

/// Outcome of parsing one expression at a position: the tree and the position
/// after it, an end-of-input failure, or a misplaced token.
pub enum PRes {
    Val(AstV, int),
    Eol,
    Bad,
}

/// Outcome of parsing the elements of a literal list.
pub enum PListRes {
    Val(Seq<AstV>, int),
    Eol,
    Bad,
}

/// Fuel that always suffices for `parse_value_at` from position `i`.
pub open spec fn vfuel(toks: Seq<TokenV>, i: int) -> nat {
    (2 * (toks.len() - i) + 2) as nat
}

/// The keyword and integer leaves.
pub open spec fn leaf_of(t: TokenV) -> AstV {
    match t {
        TokenV::Symbol(s) => AstV::Symbol(s),
        TokenV::Int(n) => AstV::Int(n),
        TokenV::ADD => AstV::ADD,
        TokenV::B => AstV::B,
        TokenV::C => AstV::C,
        TokenV::CAR => AstV::CAR,
        TokenV::CDR => AstV::CDR,
        TokenV::CONS => AstV::CONS,
        TokenV::DIV => AstV::DIV,
        TokenV::EQ => AstV::EQ,
        TokenV::I => AstV::I,
        TokenV::ISNIL => AstV::ISNIL,
        TokenV::LT => AstV::LT,
        TokenV::MUL => AstV::MUL,
        TokenV::NEG => AstV::NEG,
        TokenV::NIL => AstV::NIL,
        TokenV::S => AstV::S,
        TokenV::T => AstV::T,
        TokenV::AP => AstV::NIL,  // never taken: AP is handled before leaves
        TokenV::EQUAL => AstV::NIL,  // never taken: EQUAL is rejected
    }
}

/// Desugars the elements of a literal list into nested `cons` applications
/// ending in `nil`.
pub open spec fn list_to_conses(es: Seq<AstV>) -> AstV
    decreases es.len(),
{
    if es.len() == 0 {
        AstV::NIL
    } else {
        AstV::Apply(
            Box::new(AstV::Apply(Box::new(AstV::CONS), Box::new(es[0]))),
            Box::new(list_to_conses(es.skip(1))),
        )
    }
}

/// One expression, read from `toks` at position `i`.
pub open spec fn parse_value_at(toks: Seq<TokenV>, i: int, fuel: nat) -> PRes
    decreases fuel,
{
    if fuel == 0 {
        PRes::Bad
    } else if i >= toks.len() {
        PRes::Eol
    } else {
        match toks[i] {
            TokenV::AP => match parse_value_at(toks, i + 1, (fuel - 1) as nat) {
                PRes::Val(f, j) => match parse_value_at(toks, j, (fuel - 1) as nat) {
                    PRes::Val(a, k) => PRes::Val(AstV::Apply(Box::new(f), Box::new(a)), k),
                    e => e,
                },
                e => e,
            },
            TokenV::EQUAL => PRes::Bad,
            TokenV::Symbol(s) => if s == "("@ {
                if i + 1 < toks.len() && toks[i + 1] == TokenV::Symbol(")"@) {
                    PRes::Val(AstV::NIL, i + 2)
                } else {
                    match parse_list_at(toks, i + 1, (fuel - 1) as nat) {
                        PListRes::Val(es, j) => PRes::Val(list_to_conses(es), j),
                        PListRes::Eol => PRes::Eol,
                        PListRes::Bad => PRes::Bad,
                    }
                }
            } else {
                PRes::Val(AstV::Symbol(s), i + 1)
            },
            t => PRes::Val(leaf_of(t), i + 1),
        }
    }
}

/// The elements of a literal list, read from `toks` at position `i` up to and
/// including the closing parenthesis.
pub open spec fn parse_list_at(toks: Seq<TokenV>, i: int, fuel: nat) -> PListRes
    decreases fuel,
{
    if fuel == 0 {
        PListRes::Bad
    } else {
        match parse_value_at(toks, i, (fuel - 1) as nat) {
            PRes::Val(v, j) => if j >= toks.len() {
                PListRes::Eol
            } else if toks[j] == TokenV::Symbol(","@) {
                match parse_list_at(toks, j + 1, (fuel - 1) as nat) {
                    PListRes::Val(es, k) => PListRes::Val(seq![v] + es, k),
                    e => e,
                }
            } else if toks[j] == TokenV::Symbol(")"@) {
                PListRes::Val(seq![v], j + 1)
            } else {
                PListRes::Bad
            },
            PRes::Eol => PListRes::Eol,
            PRes::Bad => PListRes::Bad,
        }
    }
}

/// A successful parse always advances and stays within the tokens.
pub proof fn lemma_parse_advances(toks: Seq<TokenV>, i: int, fuel: nat)
    requires
        0 <= i,
    ensures
        parse_value_at(toks, i, fuel) matches PRes::Val(v, j) ==> i < j <= toks.len(),
        parse_list_at(toks, i, fuel) matches PListRes::Val(es, j) ==> i < j <= toks.len(),
    decreases fuel,
{
    if fuel > 0 {
        lemma_parse_advances(toks, i, (fuel - 1) as nat);
        if i < toks.len() {
            match toks[i] {
                TokenV::AP => {
                    lemma_parse_advances(toks, i + 1, (fuel - 1) as nat);
                    match parse_value_at(toks, i + 1, (fuel - 1) as nat) {
                        PRes::Val(f, j) => {
                            lemma_parse_advances(toks, j, (fuel - 1) as nat);
                        },
                        _ => {},
                    }
                },
                TokenV::Symbol(s) => {
                    lemma_parse_advances(toks, i + 1, (fuel - 1) as nat);
                },
                _ => {},
            }
        }
        match parse_value_at(toks, i, (fuel - 1) as nat) {
            PRes::Val(v, j) => {
                if j < toks.len() && toks[j] == TokenV::Symbol(","@) {
                    lemma_parse_advances(toks, j + 1, (fuel - 1) as nat);
                }
            },
            _ => {},
        }
    }
}

/// Above the canonical bound, the amount of fuel does not matter.
pub proof fn lemma_parse_fuel(toks: Seq<TokenV>, i: int, f1: nat, f2: nat)
    requires
        0 <= i <= toks.len(),
        f1 >= 2 * (toks.len() - i) + 2,
        f2 >= 2 * (toks.len() - i) + 2,
    ensures
        parse_value_at(toks, i, f1) == parse_value_at(toks, i, f2),
    decreases f1 + f2,
{
    if i < toks.len() {
        match toks[i] {
            TokenV::AP => {
                lemma_parse_fuel(toks, i + 1, (f1 - 1) as nat, (f2 - 1) as nat);
                match parse_value_at(toks, i + 1, (f1 - 1) as nat) {
                    PRes::Val(f, j) => {
                        lemma_parse_advances(toks, i + 1, (f1 - 1) as nat);
                        lemma_parse_fuel(toks, j, (f1 - 1) as nat, (f2 - 1) as nat);
                    },
                    _ => {},
                }
            },
            TokenV::Symbol(s) => {
                if s == "("@ {
                    lemma_parse_fuel_list(toks, i + 1, (f1 - 1) as nat, (f2 - 1) as nat);
                }
            },
            _ => {},
        }
    }
}

pub proof fn lemma_parse_fuel_list(toks: Seq<TokenV>, i: int, f1: nat, f2: nat)
    requires
        0 <= i <= toks.len(),
        f1 >= 2 * (toks.len() - i) + 3,
        f2 >= 2 * (toks.len() - i) + 3,
    ensures
        parse_list_at(toks, i, f1) == parse_list_at(toks, i, f2),
    decreases f1 + f2,
{
    lemma_parse_fuel(toks, i, (f1 - 1) as nat, (f2 - 1) as nat);
    match parse_value_at(toks, i, (f1 - 1) as nat) {
        PRes::Val(v, j) => {
            lemma_parse_advances(toks, i, (f1 - 1) as nat);
            if j < toks.len() && toks[j] == TokenV::Symbol(","@) {
                lemma_parse_fuel_list(toks, j + 1, (f1 - 1) as nat, (f2 - 1) as nat);
            }
        },
        _ => {},
    }
}

/// The token views of a token vector.
pub open spec fn toks_view(toks: Seq<Token>) -> Seq<TokenV> {
    toks.map_values(|t: Token| t@)
}

/// Prepends already-read elements to the outcome of reading the rest of a
/// literal list.
pub open spec fn plist_extend(pre: Seq<AstV>, r: PListRes) -> PListRes {
    match r {
        PListRes::Val(es, k) => PListRes::Val(pre + es, k),
        e => e,
    }
}

/// The expression that a finished literal list denotes.
pub open spec fn plist_to_pres(r: PListRes) -> PRes {
    match r {
        PListRes::Val(es, j) => PRes::Val(list_to_conses(es), j),
        PListRes::Eol => PRes::Eol,
        PListRes::Bad => PRes::Bad,
    }
}

fn is_lparen(t: &Token) -> (r: bool)
    ensures
        r == (t@ == TokenV::Symbol("("@)),
{
    match t {
        Token::SYMBOL(s) => str_eq(s.as_str(), "("),
        _ => false,
    }
}

fn is_rparen(t: &Token) -> (r: bool)
    ensures
        r == (t@ == TokenV::Symbol(")"@)),
{
    match t {
        Token::SYMBOL(s) => str_eq(s.as_str(), ")"),
        _ => false,
    }
}

fn is_comma(t: &Token) -> (r: bool)
    ensures
        r == (t@ == TokenV::Symbol(","@)),
{
    match t {
        Token::SYMBOL(s) => str_eq(s.as_str(), ","),
        _ => false,
    }
}

/// Reads one expression, advancing `pos` past it.
#[verifier::loop_isolation(false)]
fn parse_value(toks: &Vec<Token>, pos: &mut usize) -> (r: Result<ast::Value, ParseError>)
    requires
        *old(pos) <= toks@.len(),
    ensures
        *final(pos) <= toks@.len(),
        r is Ok ==> *old(pos) < *final(pos),
        match r {
            Ok(v) => parse_value_at(
                toks_view(toks@),
                *old(pos) as int,
                vfuel(toks_view(toks@), *old(pos) as int),
            ) == PRes::Val(v@, *final(pos) as int),
            Err(ParseError::UnexpectedEol) => parse_value_at(
                toks_view(toks@),
                *old(pos) as int,
                vfuel(toks_view(toks@), *old(pos) as int),
            ) == PRes::Eol,
            Err(_) => parse_value_at(
                toks_view(toks@),
                *old(pos) as int,
                vfuel(toks_view(toks@), *old(pos) as int),
            ) == PRes::Bad,
        },
    decreases toks@.len() - *old(pos),
{
    let ghost tv = toks_view(toks@);
    let ghost i0 = *pos as int;
    proof {
        assert(tv.len() == toks@.len());
    }
    if *pos >= toks.len() {
        return Err(ParseError::UnexpectedEol);
    }
    let ghost fuel = vfuel(tv, i0);
    proof {
        assert(tv[i0] == toks@[i0]@);
    }
    match &toks[*pos] {
        Token::AP => {
            *pos = *pos + 1;
            let f = match parse_value(toks, pos) {
                Ok(f) => f,
                Err(e) => {
                    proof {
                        lemma_parse_fuel(tv, i0 + 1, vfuel(tv, i0 + 1), (fuel - 1) as nat);
                    }
                    return Err(e);
                },
            };
            let ghost j = *pos as int;
            proof {
                lemma_parse_fuel(tv, i0 + 1, vfuel(tv, i0 + 1), (fuel - 1) as nat);
            }
            let a = match parse_value(toks, pos) {
                Ok(a) => a,
                Err(e) => {
                    proof {
                        lemma_parse_fuel(tv, j, vfuel(tv, j), (fuel - 1) as nat);
                    }
                    return Err(e);
                },
            };
            proof {
                lemma_parse_fuel(tv, j, vfuel(tv, j), (fuel - 1) as nat);
            }
            Ok(ast::Value::Apply(Box::new(f), Box::new(a)))
        },
        Token::EQUAL => Err(ParseError::UnexpectedToken),
        Token::SYMBOL(s) => {
            if str_eq(s.as_str(), "(") {
                if *pos + 1 < toks.len() && is_rparen(&toks[*pos + 1]) {
                    proof {
                        assert(tv[i0 + 1] == toks@[i0 + 1]@);
                    }
                    *pos = *pos + 2;
                    return Ok(ast::Value::NIL);
                }
                proof {
                    if i0 + 1 < tv.len() {
                        assert(tv[i0 + 1] == toks@[i0 + 1]@);
                    }
                }
                *pos = *pos + 1;
                let mut elems: Vec<ast::Value> = Vec::new();
                let ghost istart = *pos as int;
                proof {
                    assert(elems@.map_values(|e: ast::Value| e@) =~= Seq::<AstV>::empty());
                    let r = parse_list_at(tv, istart, vfuel(tv, istart) + 1);
                    match r {
                        PListRes::Val(es, k) => {
                            assert(Seq::<AstV>::empty() + es =~= es);
                        },
                        _ => {},
                    }
                }
                #[verifier::loop_isolation(true)]
                loop
                    invariant_except_break
                        elems@.len() <= *pos - istart,
                        parse_list_at(tv, istart, vfuel(tv, istart) + 1) == plist_extend(
                            elems@.map_values(|e: ast::Value| e@),
                            parse_list_at(tv, *pos as int, vfuel(tv, *pos as int) + 1),
                        ),
                    invariant
                        0 <= i0 < tv.len(),
                        istart == i0 + 1,
                        i0 == *old(pos),
                        fuel == vfuel(tv, i0),
                        parse_value_at(tv, i0, fuel) == plist_to_pres(
                            parse_list_at(tv, istart, (fuel - 1) as nat),
                        ),
                        istart <= *pos <= toks@.len(),
                        tv == toks_view(toks@),
                        tv.len() == toks@.len(),
                    ensures
                        *pos <= toks@.len(),
                        parse_list_at(tv, istart, vfuel(tv, istart) + 1) == PListRes::Val(
                            elems@.map_values(|e: ast::Value| e@),
                            *pos as int,
                        ),
                    decreases toks@.len() - *pos,
                {
                    let ghost icur = *pos as int;
                    let ghost lfuel = vfuel(tv, icur) + 1;
                    let ghost old_elems = elems@;
                    let v = match parse_value(toks, pos) {
                        Ok(v) => v,
                        Err(e) => {
                            proof {
                                lemma_parse_fuel(tv, icur, vfuel(tv, icur), (lfuel - 1) as nat);
                                lemma_parse_fuel_list(
                                    tv,
                                    istart,
                                    vfuel(tv, istart) + 1,
                                    (fuel - 1) as nat,
                                );
                            }
                            return Err(e);
                        },
                    };
                    proof {
                        lemma_parse_fuel(tv, icur, vfuel(tv, icur), (lfuel - 1) as nat);
                    }
                    if *pos >= toks.len() {
                        proof {
                            lemma_parse_fuel_list(
                                tv,
                                istart,
                                vfuel(tv, istart) + 1,
                                (fuel - 1) as nat,
                            );
                        }
                        return Err(ParseError::UnexpectedEol);
                    }
                    let ghost j = *pos as int;
                    proof {
                        assert(tv[j] == toks@[j]@);
                    }
                    if is_comma(&toks[*pos]) {
                        *pos = *pos + 1;
                        elems.push(v);
                        proof {
                            let evs_prev = elems@.drop_last().map_values(|e: ast::Value| e@);
                            let evs = elems@.map_values(|e: ast::Value| e@);
                            assert(elems@.drop_last() =~= old_elems);
                            assert(evs =~= evs_prev.push(v@));
                            lemma_parse_fuel_list(
                                tv,
                                j + 1,
                                vfuel(tv, j + 1) + 1,
                                (lfuel - 1) as nat,
                            );
                            let r = parse_list_at(tv, j + 1, vfuel(tv, j + 1) + 1);
                            assert(parse_value_at(tv, icur, (lfuel - 1) as nat) == PRes::Val(
                                v@,
                                j,
                            ));
                            assert(parse_list_at(tv, icur, lfuel) == plist_extend(seq![v@], r));
                            assert(parse_list_at(tv, istart, vfuel(tv, istart) + 1)
                                == plist_extend(evs_prev, plist_extend(seq![v@], r)));
                            match r {
                                PListRes::Val(es, k) => {
                                    assert(plist_extend(seq![v@], r) == PListRes::Val(
                                        seq![v@] + es,
                                        k,
                                    ));
                                    assert(evs_prev + (seq![v@] + es) =~= evs + es);
                                    assert(plist_extend(evs_prev, plist_extend(seq![v@], r))
                                        == PListRes::Val(evs + es, k));
                                },
                                _ => {},
                            }
                            assert(parse_list_at(tv, istart, vfuel(tv, istart) + 1)
                                == plist_extend(evs, r));
                        }
                    } else if is_rparen(&toks[*pos]) {
                        *pos = *pos + 1;
                        elems.push(v);
                        proof {
                            let evs_prev = elems@.drop_last().map_values(|e: ast::Value| e@);
                            let evs = elems@.map_values(|e: ast::Value| e@);
                            assert(elems@.drop_last() =~= old_elems);
                            assert(evs =~= evs_prev.push(v@));
                            assert(parse_value_at(tv, icur, (lfuel - 1) as nat) == PRes::Val(
                                v@,
                                j,
                            ));
                            assert(parse_list_at(tv, icur, lfuel) == PListRes::Val(
                                seq![v@],
                                *pos as int,
                            ));
                            assert(evs_prev + seq![v@] =~= evs);
                            assert(parse_list_at(tv, istart, vfuel(tv, istart) + 1)
                                == PListRes::Val(evs, *pos as int));
                        }
                        break ;
                    } else {
                        proof {
                            lemma_parse_fuel_list(
                                tv,
                                istart,
                                vfuel(tv, istart) + 1,
                                (fuel - 1) as nat,
                            );
                        }
                        return Err(ParseError::UnexpectedToken);
                    }
                }
                let mut acc = ast::Value::NIL;
                let mut k = elems.len();
                proof {
                    assert(elems@.map_values(|e: ast::Value| e@).skip(elems@.len() as int)
                        =~= Seq::<AstV>::empty());
                }
                while k > 0
                    invariant
                        k <= elems@.len(),
                        acc@ == list_to_conses(
                            elems@.map_values(|e: ast::Value| e@).skip(k as int),
                        ),
                    decreases k,
                {
                    k = k - 1;
                    let el = elems[k].clone();
                    let ghost elv = el@;
                    let ghost accv_old = acc@;
                    acc = ast::Value::Apply(
                        Box::new(ast::Value::Apply(Box::new(ast::Value::CONS), Box::new(el))),
                        Box::new(acc),
                    );
                    proof {
                        reveal_with_fuel(ast::view_ast, 4);
                        assert(acc@ == AstV::Apply(
                            Box::new(AstV::Apply(Box::new(AstV::CONS), Box::new(elv))),
                            Box::new(accv_old),
                        ));
                        let evs = elems@.map_values(|e: ast::Value| e@);
                        assert(evs.skip(k as int)[0] == evs[k as int]);
                        assert(evs[k as int] == elems@[k as int]@);
                        assert(evs.skip(k as int).skip(1) =~= evs.skip(k as int + 1));
                        assert(evs.skip(k as int).len() > 0);
                        assert(list_to_conses(evs.skip(k as int)) == AstV::Apply(
                            Box::new(
                                AstV::Apply(
                                    Box::new(AstV::CONS),
                                    Box::new(evs.skip(k as int)[0]),
                                ),
                            ),
                            Box::new(list_to_conses(evs.skip(k as int).skip(1))),
                        ));
                    }
                }
                proof {
                    assert(elems@.map_values(|e: ast::Value| e@).skip(0) =~= elems@.map_values(
                        |e: ast::Value| e@,
                    ));
                    lemma_parse_fuel_list(tv, istart, vfuel(tv, istart) + 1, (fuel - 1) as nat);
                }
                Ok(acc)
            } else {
                *pos = *pos + 1;
                Ok(ast::Value::SYMBOL(s.clone()))
            }
        },
        Token::INT(n) => {
            *pos = *pos + 1;
            Ok(ast::Value::INT(*n))
        },
        Token::ADD => {
            *pos = *pos + 1;
            Ok(ast::Value::ADD)
        },
        Token::B => {
            *pos = *pos + 1;
            Ok(ast::Value::B)
        },
        Token::C => {
            *pos = *pos + 1;
            Ok(ast::Value::C)
        },
        Token::CAR => {
            *pos = *pos + 1;
            Ok(ast::Value::CAR)
        },
        Token::CDR => {
            *pos = *pos + 1;
            Ok(ast::Value::CDR)
        },
        Token::CONS => {
            *pos = *pos + 1;
            Ok(ast::Value::CONS)
        },
        Token::DIV => {
            *pos = *pos + 1;
            Ok(ast::Value::DIV)
        },
        Token::EQ => {
            *pos = *pos + 1;
            Ok(ast::Value::EQ)
        },
        Token::I => {
            *pos = *pos + 1;
            Ok(ast::Value::I)
        },
        Token::ISNIL => {
            *pos = *pos + 1;
            Ok(ast::Value::ISNIL)
        },
        Token::LT => {
            *pos = *pos + 1;
            Ok(ast::Value::LT)
        },
        Token::MUL => {
            *pos = *pos + 1;
            Ok(ast::Value::MUL)
        },
        Token::NEG => {
            *pos = *pos + 1;
            Ok(ast::Value::NEG)
        },
        Token::NIL => {
            *pos = *pos + 1;
            Ok(ast::Value::NIL)
        },
        Token::S => {
            *pos = *pos + 1;
            Ok(ast::Value::S)
        },
        Token::T => {
            *pos = *pos + 1;
            Ok(ast::Value::T)
        },
    }
}

/// Outcome of parsing a whole definition line.
pub enum DRes {
    Def(Seq<char>, AstV),
    Eol,
    Bad,
}

/// A definition line: `<symbol> = <expression>`, with anything after the
/// expression ignored.
pub open spec fn parse_line_spec(s: Seq<char>) -> DRes {
    let toks = lexer::lex_spec(s);
    if toks.len() < 2 {
        DRes::Bad
    } else if !(toks[0] is Symbol) {
        DRes::Bad
    } else if toks[1] != TokenV::EQUAL {
        DRes::Bad
    } else {
        match parse_value_at(toks, 2, vfuel(toks, 2)) {
            PRes::Val(v, j) => DRes::Def(toks[0]->Symbol_0, v),
            PRes::Eol => DRes::Eol,
            PRes::Bad => DRes::Bad,
        }
    }
}

/// Parses one definition line.
pub fn parse_line(line: &str) -> (r: Result<ast::Definition, ParseError>)
    ensures
        match r {
            Ok(d) => parse_line_spec(line@) == DRes::Def(d.name@, d.value@),
            Err(ParseError::UnexpectedEol) => parse_line_spec(line@) == DRes::Eol,
            Err(_) => parse_line_spec(line@) == DRes::Bad,
        },
{
    let toks = lexer::lex(line);
    let ghost tv = toks_view(toks@);
    proof {
        assert(tv == lexer::lex_spec(line@));
    }
    if toks.len() < 2 {
        return Err(ParseError::BadDefinition);
    }
    let name = match &toks[0] {
        Token::SYMBOL(s) => s.clone(),
        _ => {
            proof {
                assert(tv[0] == toks@[0]@);
            }
            return Err(ParseError::BadDefinition);
        },
    };
    proof {
        assert(tv[0] == toks@[0]@);
        assert(tv[1] == toks@[1]@);
    }
    match &toks[1] {
        Token::EQUAL => {},
        _ => {
            return Err(ParseError::BadDefinition);
        },
    }
    let mut pos: usize = 2;
    let value = parse_value(&toks, &mut pos)?;
    Ok(ast::Definition::new(name, Box::new(value)))
}

} // verus!

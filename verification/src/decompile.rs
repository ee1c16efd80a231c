//! The whole pipeline for one definition line: lex, parse, eliminate
//! combinators, evaluate, simplify structurally, reconstruct idioms,
//! simplify algebraically, rename and print.

use vstd::prelude::*;
use crate::ast::AstV;
use crate::expr;
use crate::expr::{Env, EnvModel};
use crate::lambda;
use crate::lexer;
use crate::parser;
use crate::parser::{DRes, ParseError};
use crate::simplified;

verus! {

/// The printed right-hand side for a parsed definition body.
pub open spec fn decompile_value_spec(v: AstV, env: EnvModel) -> Seq<char> {
    let lam = lambda::lamdify_spec(v, 0).0;
    let evaluated = lambda::eval_spec(lam);
    let simp = simplified::simplify_spec(evaluated);
    let e1 = expr::construct_v(simp, Seq::empty(), env).0;
    let e2 = expr::asimp(e1);
    let e3 = expr::rename_v(e2, Seq::empty(), 0, env).0;
    expr::render_s(e3)
}

/// The resolved printed name of a definition.
pub open spec fn resolve_name_spec(name: Seq<char>, env: EnvModel) -> Seq<char> {
    match expr::env_find(env, name) {
        Some(e) => e.0,
        None => name,
    }
}

/// The size bound under which one definition is processed; far beyond any
/// real input, it only keeps the evaluator's fuel within the machine word.
pub open spec fn fits_pipeline(v: AstV) -> bool {
    lambda::size_ast(v) <= 0x100_0000
}

fn size_ast_capped(v: &crate::ast::Value) -> (r: u64)
    ensures
        r as nat == if lambda::size_ast(v@) > 0x1000_0000 {
            0x1000_0000nat
        } else {
            lambda::size_ast(v@)
        },
    decreases v,
{
    match v {
        crate::ast::Value::Apply(f, a) => {
            let sf = size_ast_capped(f);
            let sa = size_ast_capped(a);
            if sf + sa >= 0x1000_0000u64 {
                0x1000_0000u64
            } else {
                1 + sf + sa
            }
        },
        _ => 1,
    }
}

/// The counter elimination leaves never exceeds three per node, so the
/// lambda tree is at most four times the raw tree.
proof fn lemma_lamdify_size(v: AstV, next: nat)
    ensures
        lambda::size_lam(lambda::lamdify_spec(v, next).0) <= 10 * lambda::size_ast(v),
    decreases v,
{
    reveal_with_fuel(lambda::size_lam, 12);
    match v {
        AstV::Apply(f, a) => {
            lemma_lamdify_size(*f, next);
            lemma_lamdify_size(*a, lambda::lamdify_spec(*f, next).1);
        },
        _ => {},
    }
}

/// Decompiles one definition body against the dictionary. Rejected only when
/// the tree is too large for the machine-sized fuel counters.
pub fn decompile_value(value: &crate::ast::Value, env: &Env) -> (r: Result<String, ParseError>)
    ensures
        fits_pipeline(value@) ==> (r matches Ok(s) && s@ == decompile_value_spec(value@, env@)),
        r matches Ok(s) ==> s@ == decompile_value_spec(value@, env@),
{
    let size = size_ast_capped(value);
    if size > 0x100_0000u64 {
        return Err(ParseError::TooLarge);
    }
    proof {
        lemma_lamdify_size(value@, 0);
    }
    let lam = lambda::lamdify(value);
    let evaluated = lambda::eval(lam);
    let simp = simplified::simplify(evaluated);
    let e1 = expr::construct(&simp, env);
    let e2 = expr::simplify(&e1);
    let e3 = expr::rename(&e2, env);
    Ok(e3.render())
}

/// Decompiles one whole definition line into `<resolved-name> = <text>`.
pub fn decompile_line(line: &str, env: &Env) -> (r: Result<String, ParseError>)
    ensures
        (parser::parse_line_spec(line@) matches DRes::Def(n, v) && fits_pipeline(v)) ==> r
            is Ok,
        r matches Ok(s) ==> ({
            let d = parser::parse_line_spec(line@);
            d matches DRes::Def(name, v) && s@ == resolve_name_spec(name, env@) + " = "@
                + decompile_value_spec(v, env@)
        }),
{
    let def = parser::parse_line(line)?;
    let body = decompile_value(&def.value, env)?;
    let mut out = match env.get_name(def.name.as_str()) {
        Some(n) => n.clone(),
        None => def.name,
    };
    out.append(" = ");
    out.append(body.as_str());
    Ok(out)
}

} // verus!

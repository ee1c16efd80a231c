//! The decompiler pipeline, stage by stage and end to end.

use galaxy_kit::ast;
use galaxy_kit::decompile;
use galaxy_kit::expr;
use galaxy_kit::game;
use galaxy_kit::lambda;
use galaxy_kit::lexer;
use galaxy_kit::names;
use galaxy_kit::parser;
use galaxy_kit::simplified;

fn empty_env() -> expr::Env {
    expr::Env::new()
}

#[test]
fn lexes_keywords_integers_and_symbols() {
    let toks = lexer::lex("ap add -42 :1234 = t");
    assert_eq!(
        toks,
        vec![
            lexer::Token::AP,
            lexer::Token::ADD,
            lexer::Token::INT(-42),
            lexer::Token::SYMBOL(String::from(":1234")),
            lexer::Token::EQUAL,
            lexer::Token::T,
        ]
    );
}

#[test]
fn lexer_keeps_overflowing_literals_as_symbols() {
    let toks = lexer::lex("99999999999999999999999999");
    assert_eq!(
        toks,
        vec![lexer::Token::SYMBOL(String::from(
            "99999999999999999999999999"
        ))]
    );
}

#[test]
fn parses_nested_applications() {
    let d = parser::parse_line("f = ap ap add 1 2").unwrap();
    assert_eq!(d.name, "f");
    assert_eq!(
        *d.value,
        ast::Value::Apply(
            Box::new(ast::Value::Apply(
                Box::new(ast::Value::ADD),
                Box::new(ast::Value::INT(1))
            )),
            Box::new(ast::Value::INT(2))
        )
    );
}

#[test]
fn parses_literal_lists() {
    let d = parser::parse_line("l = ( 1 , 2 )").unwrap();
    // ( 1 , 2 ) desugars to ap ap cons 1 ap ap cons 2 nil
    let expected = parser::parse_line("l = ap ap cons 1 ap ap cons 2 nil").unwrap();
    assert_eq!(*d.value, *expected.value);
}

#[test]
fn parse_reports_truncated_lines() {
    assert_eq!(
        parser::parse_line("f = ap add").unwrap_err(),
        parser::ParseError::UnexpectedEol
    );
}

#[test]
fn parse_reports_misplaced_tokens() {
    assert_eq!(
        parser::parse_line("f = ap = 1").unwrap_err(),
        parser::ParseError::UnexpectedToken
    );
}

#[test]
fn parse_reports_shapeless_lines() {
    assert_eq!(
        parser::parse_line("= 1").unwrap_err(),
        parser::ParseError::BadDefinition
    );
    assert_eq!(
        parser::parse_line("").unwrap_err(),
        parser::ParseError::BadDefinition
    );
}

#[test]
fn negate_reconstructs_to_negation_function() {
    let env = empty_env();
    let line = decompile::decompile_line("negate = ap ap b neg i", &env).unwrap();
    assert_eq!(line, "negate = fun(_x0) -> -_x0");
}

#[test]
fn onetwo_reconstructs_to_literal_list() {
    let env = empty_env();
    let line = decompile::decompile_line("onetwo = ap ap cons 1 ap ap cons 2 nil", &env).unwrap();
    assert_eq!(line, "onetwo = [1, 2]");
}

#[test]
fn is_zero_reconstructs_to_equality_test() {
    let env = empty_env();
    let line = decompile::decompile_line("isZero = ap ap c eq 0", &env).unwrap();
    assert_eq!(line, "isZero = fun(_x0) -> _x0 == 0");
}

#[test]
fn shared_argument_reconstructs_to_doubled_use() {
    // ap ap s add i applies its argument twice: fun(x) -> x + x
    let env = empty_env();
    let line = decompile::decompile_line("double = ap ap s add i", &env).unwrap();
    assert_eq!(line, "double = fun(_x0) -> _x0 + _x0");
}

#[test]
fn false_idiom_becomes_literal_false() {
    // the function shape
    let shape1 = lambda::Value::Func(
        String::from("a"),
        Box::new(lambda::Value::Func(
            String::from("b"),
            Box::new(lambda::Value::Apply(
                Box::new(lambda::Value::Apply(
                    Box::new(lambda::Value::T),
                    Box::new(lambda::Value::SYMBOL(String::from("b"))),
                )),
                Box::new(lambda::Value::Apply(
                    Box::new(lambda::Value::SYMBOL(String::from("a"))),
                    Box::new(lambda::Value::SYMBOL(String::from("b"))),
                )),
            )),
        )),
    );
    assert_eq!(simplified::simplify(shape1), simplified::Value::F);

    // the applied shape: t (λx.x)
    let shape2 = lambda::Value::Apply(
        Box::new(lambda::Value::T),
        Box::new(lambda::Value::Func(
            String::from("x"),
            Box::new(lambda::Value::SYMBOL(String::from("x"))),
        )),
    );
    assert_eq!(simplified::simplify(shape2), simplified::Value::F);

    // the bare true constant prints as literal true
    assert_eq!(expr::Expr::True.render(), "true");
    assert_eq!(expr::Expr::False.render(), "false");
}

#[test]
fn evaluator_is_idempotent_on_examples() {
    for line in [
        "ap ap b neg i",
        "ap ap c eq 0",
        "ap ap cons 1 ap ap cons 2 nil",
        "ap ap s t i",
    ]
    .iter()
    {
        let full = format!("d = {}", line);
        let d = parser::parse_line(&full).unwrap();
        let lam = lambda::lamdify(&d.value);
        let once = lambda::eval(lam);
        let again = lambda::eval(clone_lambda(&once));
        assert_eq!(once, again);
    }
}

fn clone_lambda(v: &lambda::Value) -> lambda::Value {
    v.clone()
}

#[test]
fn algebraic_simplifier_is_idempotent_on_examples() {
    // a + (-b)
    let e = expr::Expr::Add(
        Box::new(expr::Expr::Symbol(String::from("a"))),
        Box::new(expr::Expr::Neg(Box::new(expr::Expr::Symbol(String::from(
            "b",
        ))))),
    );
    let once = expr::simplify(&e);
    let again = expr::simplify(&once);
    assert_eq!(once, again);
    assert_eq!(once.render(), "a - b");
}

#[test]
fn modulo_idiom_is_recognized() {
    // a + (-(b * (a / b)))  becomes  a % b
    let a = || expr::Expr::Symbol(String::from("a"));
    let b = || expr::Expr::Symbol(String::from("b"));
    let e = expr::Expr::Add(
        Box::new(a()),
        Box::new(expr::Expr::Neg(Box::new(expr::Expr::Mul(
            Box::new(b()),
            Box::new(expr::Expr::Div(Box::new(a()), Box::new(b()))),
        )))),
    );
    let s = expr::simplify(&e);
    assert_eq!(s.render(), "a % b");
}

#[test]
fn renamer_is_deterministic() {
    let env = empty_env();
    let e = expr::Expr::Func(
        vec![String::from("x7"), String::from("x9")],
        Box::new(expr::Expr::Add(
            Box::new(expr::Expr::Symbol(String::from("x7"))),
            Box::new(expr::Expr::Symbol(String::from("x9"))),
        )),
    );
    let once = expr::rename(&e, &env);
    let again = expr::rename(&e, &env);
    assert_eq!(once, again);
    assert_eq!(once.render(), "fun(_x0, _x1) -> _x0 + _x1");
}

#[test]
fn renamer_resolves_dictionary_names() {
    let mut env = expr::Env::new();
    env.insert(":1120", "Int.abs", None);
    let e = expr::Expr::Call(vec![
        expr::Expr::Symbol(String::from(":1120")),
        expr::Expr::Int(-3),
    ]);
    let renamed = expr::rename(&e, &env);
    assert_eq!(renamed.render(), "Int.abs(-3)");
}

#[test]
fn if_idiom_from_boolean_head() {
    // ap ap ap isnil x 1 0   reads as   if isnil(x) { 1 } else { 0 }
    let env = empty_env();
    let line = decompile::decompile_line("f = ap ap ap isnil x 1 0", &env).unwrap();
    assert_eq!(line, "f = if isnil(_x0) { 1 } else { 0 }");
}

#[test]
fn decimal_rendering() {
    assert_eq!(names::u64_to_string(0), "0");
    assert_eq!(names::u64_to_string(12345), "12345");
    assert_eq!(names::i64_to_string(-7), "-7");
    assert_eq!(names::i128_to_string(i128::MIN), i128::MIN.to_string());
    assert_eq!(names::isize_to_string(isize::MIN), isize::MIN.to_string());
}

#[test]
fn beam_intensity_values() {
    // at the origin there is no decay at all
    assert_eq!(game::get_intensity(&game::Point { x: 0, y: 0 }, 4), 12);
    // aligned on the diagonal, only the distance diminishes the beam
    assert_eq!(game::get_intensity(&game::Point { x: 3, y: 3 }, 10), 28);
}

#[test]
fn command_wire_forms() {
    let c = game::Command::Thrust(0, game::Point { x: -1, y: 0 });
    assert_eq!(c.to_value().to_string(), "(0 0 (-1 . 0))");
    let b = game::Command::Bomb(1);
    assert_eq!(b.to_value().to_string(), "(1 1)");
}

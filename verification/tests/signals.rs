//! The signal modulation, across each client's value type.

use galaxy_kit::interp;
use galaxy_kit::modtool;
use galaxy_kit::value;
use galaxy_kit::wire;

#[test]
fn value_test_demod() {
    for tc in [
        ("110110000111011111100001001111110100110000", "(1 81740)"),
        ("010", "0"),
        ("01100001", "1"),
        ("10100001", "-1"),
    ]
    .iter()
    {
        let bin = tc.0;
        let lst = tc.1;
        assert_eq!(
            lst,
            value::demodulate_from_string(bin).unwrap().to_string().as_str()
        );
    }
}

#[test]
fn value_test_mod() {
    for tc in [
        (
            "110110000111011111100001001111110100110000",
            value::Value::Cons(
                Box::new(value::Value::Int(1)),
                Box::new(value::Value::Cons(
                    Box::new(value::Value::Int(81740)),
                    Box::new(value::Value::Nil),
                )),
            ),
        ),
        ("010", value::Value::Int(0)),
        ("01100001", value::Value::Int(1)),
        ("10100001", value::Value::Int(-1)),
    ]
    .iter()
    {
        let bin = tc.0;
        let lst = &tc.1;
        let v = value::modulate_to_string(lst);
        assert_eq!(&v, bin);
    }
}

#[test]
fn lib_test_demod() {
    for tc in [
        (
            "110110000111011111100001001111110100110000",
            "(1 . (81740 . 'nil))",
        ),
        ("010", "0"),
        ("01100001", "1"),
        ("10100001", "-1"),
    ]
    .iter()
    {
        let bin = tc.0;
        let lst = tc.1;
        assert_eq!(
            lst,
            wire::demodulate_from_string(bin).unwrap().to_string().as_str()
        );
    }
}

#[test]
fn lib_test_mod() {
    for tc in [
        (
            "110110000111011111100001001111110100110000",
            wire::Value::Cons(
                Box::new(wire::Value::Int(1)),
                Box::new(wire::Value::Cons(
                    Box::new(wire::Value::Int(81740)),
                    Box::new(wire::Value::Nil),
                )),
            ),
        ),
        ("010", wire::Value::Int(0)),
        ("01100001", wire::Value::Int(1)),
        ("10100001", wire::Value::Int(-1)),
    ]
    .iter()
    {
        let bin = tc.0;
        let lst = &tc.1;
        let v = wire::modulate_to_string(lst);
        assert_eq!(&v, bin);
    }
}

#[test]
fn main_test_demod() {
    for tc in [
        (
            "110110000111011111100001001111110100110000",
            "(1, (81740, nil))",
        ),
        ("010", "0"),
        ("01100001", "1"),
        ("10100001", "-1"),
    ]
    .iter()
    {
        let bin = tc.0;
        let lst = tc.1;
        let bits = modtool::vec_from_str(bin);
        let mut pos = 0usize;
        assert_eq!(
            lst,
            modtool::demodulate(&bits, &mut pos)
                .unwrap()
                .to_string()
                .as_str()
        );
    }
}

#[test]
fn main_test_mod() {
    for tc in [
        (
            "110110000111011111100001001111110100110000",
            "(1, (81740, nil))",
        ),
        ("010", "0"),
        ("01100001", "1"),
        ("10100001", "-1"),
    ]
    .iter()
    {
        let bin = tc.0;
        let lst = tc.1;
        let val = modtool::Value::from_str(lst).unwrap();
        let v = modtool::modulate_to_string(&val);
        assert_eq!(&v, bin);
    }
}

#[test]
fn test_mod_demod() {
    let lst = "(1, (-81740, nil))";
    let val = modtool::Value::from_str(lst).unwrap();
    let v = modtool::modulate_to_string(&val);
    let bits = modtool::vec_from_str(&v);
    let mut pos = 0usize;
    assert_eq!(
        lst,
        modtool::demodulate(&bits, &mut pos)
            .unwrap()
            .to_string()
            .as_str()
    );
}

#[test]
fn test_mod() {
    assert_eq!(interp::modulate(&interp::Value::Nil), vec![false, false]);
}

#[test]
fn test_demod() {
    let t = "1101100001111101100010110110001100110110010000";
    let v = interp::decode(t);
    let v = interp::demodulate(&v).unwrap();
    let u = interp::encode(&interp::modulate(&v));
    assert_eq!(t, u);
}

#[test]
fn test_parse_sexp() {
    assert_eq!(
        interp::Value::parse_sexp_str("-123"),
        Some(interp::Value::int_val(-123))
    );
    assert_eq!(interp::Value::parse_sexp_str("()"), Some(interp::Value::nil()));

    assert_eq!(
        interp::Value::parse_sexp_str("(1 . 2)"),
        Some(interp::Value::cons(
            interp::Value::int_val(1),
            interp::Value::int_val(2)
        ))
    );

    assert_eq!(
        interp::Value::parse_sexp_str("(1 2)"),
        Some(interp::Value::list(vec![
            interp::Value::int_val(1),
            interp::Value::int_val(2)
        ]))
    );

    assert_eq!(
        interp::Value::parse_sexp_str("(1 2 . 3)"),
        Some(interp::Value::cons(
            interp::Value::int_val(1),
            interp::Value::cons(interp::Value::int_val(2), interp::Value::int_val(3))
        ))
    );

    assert_eq!(
        interp::Value::parse_sexp_str("(1 2 3)"),
        Some(interp::Value::list(vec![
            interp::Value::int_val(1),
            interp::Value::int_val(2),
            interp::Value::int_val(3)
        ]))
    );
}

#[test]
fn negative_roundtrip() {
    let v = value::Value::Int(-81740);
    let s = value::modulate_to_string(&v);
    let back = value::demodulate_from_string(&s).unwrap();
    assert_eq!(back.to_string(), "-81740");
}

#[test]
fn demod_rejects_truncated_signal() {
    assert!(value::demodulate_from_string("1101").is_none());
    assert!(value::demodulate_from_string("").is_none());
}

#[test]
fn modtool_parser_rejects_garbage() {
    assert!(modtool::Value::from_str("zzz").is_none());
    assert!(modtool::Value::from_str("").is_none());
}

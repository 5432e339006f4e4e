use lisp_rs::lisp::{Arena, Atom, Error, Expr};
use lisp_rs::render::render_expr;

fn num(i: i64) -> Expr {
    Expr::Atom(Atom::Int(i))
}

fn sym(s: &str) -> Expr {
    Expr::Atom(Atom::Sym(s.to_string()))
}

fn app(items: Vec<Expr>) -> Expr {
    Expr::Sexpr(items)
}

fn run(a: &mut Arena, e: Expr) -> Result<Expr, Error> {
    lisp_rs::lisp::eval(e, a, 0, 1000)
}

fn run_shows(e: Expr) -> String {
    let mut a = Arena::global();
    let v = run(&mut a, e).expect("evaluation should succeed");
    render_expr(&v)
}

#[test]
fn plus_no_args_is_zero() {
    assert_eq!(run_shows(app(vec![sym("+")])), "0");
}

#[test]
fn plus_one_arg_is_identity() {
    assert_eq!(run_shows(app(vec![sym("+"), num(5)])), "5");
}

#[test]
fn minus_one_arg_negates() {
    assert_eq!(run_shows(app(vec![sym("-"), num(5)])), "-5");
}

#[test]
fn div_one_arg_is_zero_quirk() {
    assert_eq!(run_shows(app(vec![sym("/"), num(5)])), "0");
}

#[test]
fn times_one_arg_is_zero_quirk() {
    assert_eq!(run_shows(app(vec![sym("*"), num(5)])), "0");
}

#[test]
fn plus_sums() {
    assert_eq!(run_shows(app(vec![sym("+"), num(1), num(2), num(3)])), "6");
}

#[test]
fn minus_folds_left() {
    assert_eq!(run_shows(app(vec![sym("-"), num(10), num(1), num(2)])), "7");
}

#[test]
fn times_multiplies() {
    assert_eq!(run_shows(app(vec![sym("*"), num(2), num(3), num(4)])), "24");
}

#[test]
fn div_folds_left() {
    assert_eq!(run_shows(app(vec![sym("/"), num(20), num(2), num(5)])), "2");
}

#[test]
fn div_truncates_toward_zero() {
    assert_eq!(run_shows(app(vec![sym("/"), num(-7), num(2)])), "-3");
}

#[test]
fn div_by_zero_fails() {
    let mut a = Arena::global();
    let r = run(&mut a, app(vec![sym("/"), num(5), num(0)]));
    assert!(matches!(r, Err(Error::ZeroDivision)));
}

#[test]
fn div_by_later_zero_fails() {
    let mut a = Arena::global();
    let r = run(&mut a, app(vec![sym("/"), num(8), num(2), num(0), num(2)]));
    assert!(matches!(r, Err(Error::ZeroDivision)));
}

#[test]
fn arith_rejects_non_number() {
    let mut a = Arena::global();
    let r = run(&mut a, app(vec![sym("+"), num(1), app(vec![sym("list")])]));
    match r {
        Err(Error::InvalidType(m)) => assert_eq!(m, "`()` is not a number"),
        _ => panic!("expected an invalid-type error"),
    }
}

#[test]
fn addition_wraps_on_overflow() {
    assert_eq!(
        run_shows(app(vec![sym("+"), num(i64::MAX), num(1)])),
        "-9223372036854775808"
    );
}

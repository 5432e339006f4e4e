use lisp_rs::lisp::{Atom, Builtin, Expr, Func};
use lisp_rs::render::render_expr;

fn num(i: i64) -> Expr {
    Expr::Atom(Atom::Int(i))
}

fn sym(s: &str) -> Expr {
    Expr::Atom(Atom::Sym(s.to_string()))
}

#[test]
fn renders_positive_integer() {
    assert_eq!(render_expr(&num(5)), "5");
}

#[test]
fn renders_negative_integer() {
    assert_eq!(render_expr(&num(-5)), "-5");
}

#[test]
fn renders_smallest_integer() {
    assert_eq!(render_expr(&num(i64::MIN)), "-9223372036854775808");
}

#[test]
fn renders_largest_integer() {
    assert_eq!(render_expr(&num(i64::MAX)), "9223372036854775807");
}

#[test]
fn renders_symbol_as_its_name() {
    assert_eq!(render_expr(&sym("hello")), "hello");
}

#[test]
fn renders_procedure_as_placeholder() {
    let f = Expr::Atom(Atom::Fun(Func::Builtin(Builtin::Add)));
    assert_eq!(render_expr(&f), "<function>");
}

#[test]
fn renders_empty_list() {
    assert_eq!(render_expr(&Expr::Sexpr(vec![])), "()");
}

#[test]
fn renders_list_with_spaces_and_parens() {
    let e = Expr::Sexpr(vec![num(1), Expr::Sexpr(vec![num(2), num(3)]), sym("x")]);
    assert_eq!(render_expr(&e), "(1 (2 3) x)");
}

#[test]
fn renders_quoted_as_inner() {
    let e = Expr::Qexpr(Box::new(Expr::Sexpr(vec![num(1), num(2)])));
    assert_eq!(render_expr(&e), "(1 2)");
}

#[test]
fn cloned_expression_renders_the_same() {
    let e = Expr::Sexpr(vec![num(1), sym("a"), Expr::Qexpr(Box::new(num(-2)))]);
    let c = e.clone();
    assert_eq!(render_expr(&e), render_expr(&c));
}

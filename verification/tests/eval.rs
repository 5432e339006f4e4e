use lisp_rs::lisp::{Arena, Atom, Error, Expr};
use lisp_rs::render::render_expr;

fn num(i: i64) -> Expr {
    Expr::Atom(Atom::Int(i))
}

fn sym(s: &str) -> Expr {
    Expr::Atom(Atom::Sym(s.to_string()))
}

fn app(items: Vec<Expr>) -> Expr {
    Expr::Sexpr(items)
}

fn quoted(e: Expr) -> Expr {
    Expr::Qexpr(Box::new(e))
}

fn run(a: &mut Arena, e: Expr) -> Result<Expr, Error> {
    lisp_rs::lisp::eval(e, a, 0, 1000)
}

fn run_shows(a: &mut Arena, e: Expr) -> String {
    let v = run(a, e).expect("evaluation should succeed");
    render_expr(&v)
}

/// A closure expression `(lambda (formals...) body)`, with the formals list
/// and the body quoted as the external reader would deliver them.
fn lambda_expr(formals: Vec<Expr>, body: Expr) -> Expr {
    app(vec![sym("lambda"), quoted(app(formals)), quoted(body)])
}

/// A definition expression `(def name value)`, with the name quoted as the
/// external reader would deliver it.
fn def_expr(name: &str, value: Expr) -> Expr {
    app(vec![sym("def"), quoted(sym(name)), value])
}

#[test]
fn integers_self_evaluate() {
    let mut a = Arena::global();
    assert_eq!(run_shows(&mut a, num(42)), "42");
}

#[test]
fn builtin_names_resolve_to_procedures() {
    let mut a = Arena::global();
    assert_eq!(run_shows(&mut a, sym("+")), "<function>");
    assert_eq!(run_shows(&mut a, sym("lambda")), "<function>");
}

#[test]
fn quoted_expression_is_literal_data() {
    let mut a = Arena::global();
    assert_eq!(
        run_shows(&mut a, quoted(app(vec![num(1), num(2), num(3)]))),
        "(1 2 3)"
    );
}

#[test]
fn quote_strips_one_level() {
    let mut a = Arena::global();
    let r = run(&mut a, quoted(quoted(num(1)))).expect("evaluation should succeed");
    assert!(matches!(r, Expr::Qexpr(_)));
}

#[test]
fn empty_list_evaluates_to_itself() {
    let mut a = Arena::global();
    assert_eq!(run_shows(&mut a, app(vec![])), "()");
}

#[test]
fn head_returns_first_element() {
    let mut a = Arena::global();
    let e = app(vec![sym("head"), app(vec![sym("list"), num(1), num(2), num(3)])]);
    assert_eq!(run_shows(&mut a, e), "1");
}

#[test]
fn tail_returns_rest() {
    let mut a = Arena::global();
    let e = app(vec![sym("tail"), app(vec![sym("list"), num(1), num(2), num(3)])]);
    assert_eq!(run_shows(&mut a, e), "(2 3)");
}

#[test]
fn head_of_empty_list_fails() {
    let mut a = Arena::global();
    let e = app(vec![sym("head"), app(vec![sym("list")])]);
    match run(&mut a, e) {
        Err(Error::Runtime(m)) => assert_eq!(m, "can't head empty list"),
        _ => panic!("expected a runtime error"),
    }
}

#[test]
fn tail_of_empty_list_fails() {
    let mut a = Arena::global();
    let e = app(vec![sym("tail"), app(vec![sym("list")])]);
    match run(&mut a, e) {
        Err(Error::Runtime(m)) => assert_eq!(m, "can't tail empty list"),
        _ => panic!("expected a runtime error"),
    }
}

#[test]
fn head_of_non_list_fails() {
    let mut a = Arena::global();
    match run(&mut a, app(vec![sym("head"), num(5)])) {
        Err(Error::InvalidType(m)) => assert_eq!(m, "`5` not a list"),
        _ => panic!("expected an invalid-type error"),
    }
}

#[test]
fn head_arity_checked() {
    let mut a = Arena::global();
    let e = app(vec![sym("head"), app(vec![sym("list"), num(1)]), app(vec![sym("list"), num(2)])]);
    match run(&mut a, e) {
        Err(Error::Arity(m)) => assert_eq!(m, "head expects one argument (a list)"),
        _ => panic!("expected an arity error"),
    }
}

#[test]
fn def_binds_and_symbol_resolves() {
    let mut a = Arena::global();
    run(&mut a, def_expr("x", num(10))).expect("def should succeed");
    assert_eq!(run_shows(&mut a, sym("x")), "10");
}

#[test]
fn def_returns_the_bound_value() {
    let mut a = Arena::global();
    assert_eq!(run_shows(&mut a, def_expr("x", num(10))), "10");
}

#[test]
fn def_overwrites() {
    let mut a = Arena::global();
    run(&mut a, def_expr("x", num(1))).expect("def should succeed");
    run(&mut a, def_expr("x", num(2))).expect("def should succeed");
    assert_eq!(run_shows(&mut a, sym("x")), "2");
}

#[test]
fn definition_visible_from_call_scope() {
    let mut a = Arena::global();
    run(&mut a, def_expr("x", num(10))).expect("def should succeed");
    let call = app(vec![lambda_expr(vec![], sym("x"))]);
    assert_eq!(run_shows(&mut a, call), "10");
}

#[test]
fn lambda_applies_to_arguments() {
    let mut a = Arena::global();
    let f = lambda_expr(vec![sym("x"), sym("y")], app(vec![sym("+"), sym("x"), sym("y")]));
    assert_eq!(run_shows(&mut a, app(vec![f, num(3), num(4)])), "7");
}

#[test]
fn closure_with_one_argument_fails_arity() {
    let mut a = Arena::global();
    let f = lambda_expr(vec![sym("x"), sym("y")], app(vec![sym("+"), sym("x"), sym("y")]));
    match run(&mut a, app(vec![f, num(3)])) {
        Err(Error::Arity(m)) => assert_eq!(m, "expected 2 args, but received 1"),
        _ => panic!("expected an arity error"),
    }
}

#[test]
fn closure_with_three_arguments_fails_arity() {
    let mut a = Arena::global();
    let f = lambda_expr(vec![sym("x"), sym("y")], app(vec![sym("+"), sym("x"), sym("y")]));
    match run(&mut a, app(vec![f, num(3), num(4), num(5)])) {
        Err(Error::Arity(m)) => assert_eq!(m, "expected 2 args, but received 3"),
        _ => panic!("expected an arity error"),
    }
}

#[test]
fn formal_shadows_outer_binding() {
    let mut a = Arena::global();
    run(&mut a, def_expr("x", num(1))).expect("def should succeed");
    let f = lambda_expr(vec![sym("x")], sym("x"));
    assert_eq!(run_shows(&mut a, app(vec![f, num(5)])), "5");
}

#[test]
fn closure_scoping_is_call_site() {
    let mut a = Arena::global();
    run(&mut a, def_expr("f", lambda_expr(vec![], sym("x")))).expect("def should succeed");
    run(&mut a, def_expr("x", num(1))).expect("def should succeed");
    assert_eq!(run_shows(&mut a, app(vec![sym("f")])), "1");
    run(&mut a, def_expr("x", num(2))).expect("def should succeed");
    assert_eq!(run_shows(&mut a, app(vec![sym("f")])), "2");
}

#[test]
fn eval_runs_constructed_data() {
    let mut a = Arena::global();
    let e = app(vec![sym("eval"), app(vec![sym("list"), sym("+"), num(1), num(2)])]);
    assert_eq!(run_shows(&mut a, e), "3");
}

#[test]
fn eval_arity_checked() {
    let mut a = Arena::global();
    match run(&mut a, app(vec![sym("eval"), num(1), num(2)])) {
        Err(Error::Arity(m)) => assert_eq!(m, "eval expects one argument (an sexpr)"),
        _ => panic!("expected an arity error"),
    }
}

#[test]
fn unbound_symbol_fails_name_resolution() {
    let mut a = Arena::global();
    match run(&mut a, sym("foo")) {
        Err(Error::NameResolution(m)) => assert_eq!(m, "foo"),
        _ => panic!("expected a name-resolution error"),
    }
}

#[test]
fn applying_non_procedure_fails() {
    let mut a = Arena::global();
    match run(&mut a, app(vec![num(1), num(2), num(3)])) {
        Err(Error::InvalidType(m)) => assert_eq!(m, "`1` not a function"),
        _ => panic!("expected an invalid-type error"),
    }
}

#[test]
fn lambda_formals_must_be_symbols() {
    let mut a = Arena::global();
    let e = app(vec![sym("lambda"), quoted(app(vec![num(1)])), quoted(sym("x"))]);
    match run(&mut a, e) {
        Err(Error::InvalidType(m)) => {
            assert_eq!(m, "formals declaration expects a list of symbols, `1` is not a symbol")
        },
        _ => panic!("expected an invalid-type error"),
    }
}

#[test]
fn lambda_arity_checked() {
    let mut a = Arena::global();
    match run(&mut a, app(vec![sym("lambda"), quoted(sym("x"))])) {
        Err(Error::Arity(m)) => assert_eq!(m, "lambda expects two arguments (qexpr, qexpr)"),
        _ => panic!("expected an arity error"),
    }
}

#[test]
fn def_of_non_symbol_fails() {
    let mut a = Arena::global();
    match run(&mut a, app(vec![sym("def"), num(1), num(2)])) {
        Err(Error::Arity(m)) => assert_eq!(m, "def expects two arguments (sym, expr)"),
        _ => panic!("expected an arity error"),
    }
}

#[test]
fn depth_budget_exhaustion_is_reported() {
    let mut a = Arena::global();
    let r = lisp_rs::lisp::eval(app(vec![sym("+")]), &mut a, 0, 0);
    match r {
        Err(Error::Runtime(m)) => assert_eq!(m, "evaluation depth limit exceeded"),
        _ => panic!("expected the depth error"),
    }
}

#[test]
fn failed_evaluation_keeps_earlier_definitions() {
    let mut a = Arena::global();
    let e = app(vec![app(vec![sym("list")]), def_expr("y", num(5))]);
    match run(&mut a, e) {
        Err(Error::InvalidType(m)) => assert_eq!(m, "`()` not a function"),
        _ => panic!("expected an invalid-type error"),
    }
    assert_eq!(run_shows(&mut a, sym("y")), "5");
}

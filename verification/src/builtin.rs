//! The builtin procedure library: the native procedures that the global
//! scope binds. Each receives its already-evaluated arguments; `eval` and
//! `def` also receive the arena and the scope the call runs in.
use vstd::prelude::*;
use vstd::string::StringExecFns;

use crate::lisp::{Arena, Atom, AtomS, Builtin, Error, Expr, ExprS};
use crate::lisp::{
    expr_view, exprs_view, lemma_exprs_view, lemma_exprs_view_first, res_view, strs_view,
};
use crate::render::{not_a_list_err, not_a_number_err, not_a_symbol_err};
use crate::semantics::{
    arith_fold, arith_pair, as_formals_spec, def_spec, do_arith_spec, eval_spec, head_spec,
    is_arith, lambda_spec, tail_spec,
};

verus! {

/// One arithmetic step: both operands must be integer atoms; division by
/// zero fails; otherwise the 64-bit operation is applied, wrapping on
/// overflow.
fn arith(l: Expr, r: Expr, op: Builtin) -> (res: Result<Expr, Error>)
    requires
        is_arith(op),
    ensures
        res_view(res) == arith_pair(op, l@, r@),
{
    proof {
        reveal_with_fuel(expr_view, 3);
    }
    match (l, r) {
        (Expr::Atom(Atom::Int(i1)), Expr::Atom(Atom::Int(i2))) => match op {
            Builtin::Add => Ok(Expr::Atom(Atom::Int(i1.wrapping_add(i2)))),
            Builtin::Sub => Ok(Expr::Atom(Atom::Int(i1.wrapping_sub(i2)))),
            Builtin::Div => {
                if i2 == 0 {
                    Err(Error::ZeroDivision)
                } else {
                    match i1.checked_div(i2) {
                        Some(q) => Ok(Expr::Atom(Atom::Int(q))),
                        None => Ok(Expr::Atom(Atom::Int(i64::MIN))),
                    }
                }
            },
            _ => Ok(Expr::Atom(Atom::Int(i1.wrapping_mul(i2)))),
        },
        (Expr::Atom(Atom::Int(_)), nan) => Err(not_a_number_err(&nan)),
        (nan, Expr::Atom(Atom::Int(_))) => Err(not_a_number_err(&nan)),
        (nan, _) => Err(not_a_number_err(&nan)),
    }
}

/// A variadic arithmetic procedure: zero arguments give `0`, one argument
/// `a` is computed as `0 (op) a`, more fold from the left; the first
/// non-integer operand or zero divisor stops the fold with its error.
#[verifier::loop_isolation(false)]
fn do_arith(args: Vec<Expr>, op: Builtin) -> (res: Result<Expr, Error>)
    requires
        is_arith(op),
    ensures
        res_view(res) == do_arith_spec(op, exprs_view(args@)),
{
    let ghost vs = exprs_view(args@);
    proof {
        lemma_exprs_view(args@);
        reveal_with_fuel(expr_view, 3);
    }
    if args.len() == 0 {
        return Ok(Expr::Atom(Atom::Int(0)));
    }
    let mut rest = args;
    let acc0 = rest.remove(0);
    proof {
        assert(rest@ =~= args@.skip(1));
        lemma_exprs_view_first(args@);
        assert(acc0@ == vs[0]);
        assert(exprs_view(rest@) == vs.skip(1));
    }
    if rest.len() == 0 {
        return arith(Expr::Atom(Atom::Int(0)), acc0, op);
    }
    let mut acc = acc0;
    while rest.len() > 0
        invariant
            arith_fold(op, vs[0], vs.skip(1)) == arith_fold(op, acc@, exprs_view(rest@)),
        decreases rest@.len(),
    {
        let ghost rpre = rest@;
        let ghost accpre = acc@;
        let x = rest.remove(0);
        proof {
            assert(rest@ =~= rpre.skip(1));
            lemma_exprs_view_first(rpre);
            assert(x@ == exprs_view(rpre)[0]);
            assert(exprs_view(rest@) == exprs_view(rpre).skip(1));
        }
        match arith(acc, x, op) {
            Ok(v) => {
                proof {
                    assert(arith_fold(op, accpre, exprs_view(rpre)) == arith_fold(
                        op,
                        v@,
                        exprs_view(rest@),
                    ));
                }
                acc = v;
            },
            Err(e) => {
                proof {
                    assert(arith_fold(op, accpre, exprs_view(rpre)) == Err::<ExprS, _>(e@));
                }
                return Err(e);
            },
        }
    }
    proof {
        assert(exprs_view(rest@) =~= Seq::<ExprS>::empty());
    }
    Ok(acc)
}

/// The variadic `+`: the wrapping sum of its integer operands.
pub fn add(args: Vec<Expr>) -> (res: Result<Expr, Error>)
    ensures
        res_view(res) == do_arith_spec(Builtin::Add, exprs_view(args@)),
{
    do_arith(args, Builtin::Add)
}

/// The variadic `-`: the wrapping left-fold difference; one operand negates.
pub fn sub(args: Vec<Expr>) -> (res: Result<Expr, Error>)
    ensures
        res_view(res) == do_arith_spec(Builtin::Sub, exprs_view(args@)),
{
    do_arith(args, Builtin::Sub)
}

/// The variadic `*`: the wrapping product of its integer operands.
pub fn mul(args: Vec<Expr>) -> (res: Result<Expr, Error>)
    ensures
        res_view(res) == do_arith_spec(Builtin::Mul, exprs_view(args@)),
{
    do_arith(args, Builtin::Mul)
}

/// The variadic `/`: the left-fold quotient; any zero divisor fails; one
/// operand `a` computes `0 / a`.
pub fn div(args: Vec<Expr>) -> (res: Result<Expr, Error>)
    ensures
        res_view(res) == do_arith_spec(Builtin::Div, exprs_view(args@)),
{
    do_arith(args, Builtin::Div)
}

/// `list` collects its evaluated arguments into a new list.
pub fn list(args: Vec<Expr>) -> (res: Result<Expr, Error>)
    ensures
        res_view(res) == Ok::<ExprS, crate::lisp::ErrorS>(ExprS::Sexpr(exprs_view(args@))),
{
    proof {
        reveal_with_fuel(expr_view, 2);
    }
    Ok(Expr::Sexpr(args))
}

/// `head` returns the first element of its one list argument; an empty list
/// is a runtime error, a non-list an invalid type.
pub fn head(args: Vec<Expr>) -> (res: Result<Expr, Error>)
    ensures
        res_view(res) == head_spec(exprs_view(args@)),
{
    let ghost vs = exprs_view(args@);
    proof {
        lemma_exprs_view(args@);
        reveal_with_fuel(expr_view, 3);
    }
    if args.len() != 1 {
        return Err(Error::Arity(String::from_str("head expects one argument (a list)")));
    }
    let ghost a0 = args@;
    let mut args = args;
    let first = args.remove(0);
    match first {
        Expr::Sexpr(mut items) => {
            let ghost ipre = items@;
            proof {
                assert(first == a0[0]);
                assert(vs[0] == a0[0]@);
                assert(a0[0]@ == expr_view(a0[0]));
                assert(expr_view(first) == ExprS::Sexpr(exprs_view(ipre)));
                assert(vs[0] == ExprS::Sexpr(exprs_view(ipre)));
            }
            if items.len() == 0 {
                proof {
                    assert(exprs_view(ipre) =~= Seq::<ExprS>::empty());
                }
                Err(Error::Runtime(String::from_str("can't head empty list")))
            } else {
                proof {
                    lemma_exprs_view_first(ipre);
                }
                let h = items.remove(0);
                proof {
                    assert(h@ == exprs_view(ipre)[0]);
                }
                Ok(h)
            }
        },
        other => Err(not_a_list_err(&other)),
    }
}

/// `tail` returns all but the first element of its one list argument; an
/// empty list is a runtime error, a non-list an invalid type.
pub fn tail(args: Vec<Expr>) -> (res: Result<Expr, Error>)
    ensures
        res_view(res) == tail_spec(exprs_view(args@)),
{
    let ghost vs = exprs_view(args@);
    proof {
        lemma_exprs_view(args@);
        reveal_with_fuel(expr_view, 3);
    }
    if args.len() != 1 {
        return Err(Error::Arity(String::from_str("tail expects one argument (a list)")));
    }
    let ghost a0 = args@;
    let mut args = args;
    let first = args.remove(0);
    proof {
        assert(first == a0[0]);
        assert(vs[0] == a0[0]@);
        assert(a0[0]@ == expr_view(a0[0]));
    }
    match first {
        Expr::Sexpr(mut items) => {
            let ghost ipre = items@;
            proof {
                assert(vs[0] == ExprS::Sexpr(exprs_view(ipre)));
            }
            if items.len() == 0 {
                proof {
                    assert(exprs_view(ipre) =~= Seq::<ExprS>::empty());
                }
                Err(Error::Runtime(String::from_str("can't tail empty list")))
            } else {
                proof {
                    lemma_exprs_view_first(ipre);
                }
                let _ = items.remove(0);
                proof {
                    assert(items@ =~= ipre.skip(1));
                    assert(exprs_view(items@) == exprs_view(ipre).skip(1));
                }
                Ok(Expr::Sexpr(items))
            }
        },
        other => Err(not_a_list_err(&other)),
    }
}

/// `eval` re-evaluates its one (already-evaluated) argument against the
/// scope the call runs in, so lists built at run time can be run as code.
pub fn eval(args: Vec<Expr>, a: &mut Arena, cur: usize, fuel: u64) -> (res: Result<Expr, Error>)
    requires
        cur < old(a)@.len(),
    ensures
        ({
            let vs = exprs_view(args@);
            if vs.len() == 1 {
                let (out, s2) = eval_spec(vs[0], old(a)@, cur as int, fuel as nat);
                res_view(res) == out && final(a)@ == s2
            } else {
                res_view(res) == Err::<ExprS, crate::lisp::ErrorS>(
                    crate::lisp::ErrorS::Arity(("eval expects one argument (an sexpr)")@),
                ) && final(a)@ == old(a)@
            }
        }),
        final(a)@.len() >= old(a)@.len(),
    decreases fuel, 1nat, 0nat,
{
    proof {
        lemma_exprs_view(args@);
    }
    if args.len() == 1 {
        let mut args = args;
        let e = args.remove(0);
        crate::lisp::eval(e, a, cur, fuel)
    } else {
        Err(Error::Arity(String::from_str("eval expects one argument (an sexpr)")))
    }
}

/// The name of a symbol expression; anything else is an invalid formals
/// entry.
fn as_name(e: &Expr) -> (res: Result<String, Error>)
    ensures
        match res {
            Ok(name) => e@ == ExprS::Atom(AtomS::Sym(name@)),
            Err(err) => {
                &&& err@ == crate::lisp::ErrorS::InvalidType(crate::render::msg_not_a_symbol(e@))
                &&& !(e@ matches ExprS::Atom(AtomS::Sym(_)))
            },
        },
{
    proof {
        reveal_with_fuel(expr_view, 3);
    }
    match e {
        Expr::Atom(Atom::Sym(name)) => Ok(name.clone()),
        other => Err(not_a_symbol_err(other)),
    }
}

/// The formal names of a formals list: every entry must be a symbol.
#[verifier::loop_isolation(false)]
fn as_formals(fs: &Vec<Expr>) -> (res: Result<Vec<String>, Error>)
    ensures
        match res {
            Ok(names) => as_formals_spec(exprs_view(fs@)) == Ok::<_, crate::lisp::ErrorS>(
                strs_view(names@),
            ),
            Err(e) => as_formals_spec(exprs_view(fs@)) == Err::<Seq<Seq<char>>, _>(e@),
        },
{
    let ghost vs = exprs_view(fs@);
    proof {
        lemma_exprs_view(fs@);
    }
    let mut names: Vec<String> = Vec::new();
    proof {
        assert(vs.skip(0) =~= vs);
        assert(strs_view(names@) =~= Seq::<Seq<char>>::empty());
        match as_formals_spec(vs) {
            Ok(rest) => {
                assert(strs_view(names@) + rest =~= rest);
            },
            Err(_) => {},
        }
    }
    let n = fs.len();
    let mut i: usize = 0;
    while i < n
        invariant
            i <= n,
            match as_formals_spec(vs.skip(i as int)) {
                Ok(rest) => as_formals_spec(vs) == Ok::<_, crate::lisp::ErrorS>(
                    strs_view(names@) + rest,
                ),
                Err(e) => as_formals_spec(vs) == Err::<Seq<Seq<char>>, _>(e),
            },
        decreases n - i,
    {
        let ghost names_pre = names@;
        proof {
            assert(vs.skip(i as int)[0] == vs[i as int]);
            assert(vs.skip(i as int).skip(1) =~= vs.skip(i + 1 as int));
        }
        match as_name(&fs[i]) {
            Ok(name) => {
                names.push(name);
                proof {
                    assert(strs_view(names@) =~= strs_view(names_pre) + seq![name@]);
                    match as_formals_spec(vs.skip(i + 1 as int)) {
                        Ok(rest2) => {
                            assert(as_formals_spec(vs.skip(i as int)) == Ok::<
                                _,
                                crate::lisp::ErrorS,
                            >(seq![name@] + rest2));
                            assert(strs_view(names_pre) + (seq![name@] + rest2) =~= strs_view(
                                names@,
                            ) + rest2);
                        },
                        Err(_) => {},
                    }
                }
            },
            Err(e) => {
                proof {
                    assert(as_formals_spec(vs.skip(i as int)) == Err::<Seq<Seq<char>>, _>(e@));
                }
                return Err(e);
            },
        }
        i = i + 1;
    }
    proof {
        assert(vs.skip(n as int) =~= Seq::<ExprS>::empty());
        assert(strs_view(names@) + Seq::<Seq<char>>::empty() =~= strs_view(names@));
    }
    Ok(names)
}

/// `lambda` takes a formals list of symbols and a body and makes a closure.
pub fn lambda(args: Vec<Expr>) -> (res: Result<Expr, Error>)
    ensures
        res_view(res) == lambda_spec(exprs_view(args@)),
{
    let ghost vs = exprs_view(args@);
    proof {
        lemma_exprs_view(args@);
        reveal_with_fuel(expr_view, 4);
    }
    if args.len() != 2 {
        return Err(Error::Arity(String::from_str("lambda expects two arguments (qexpr, qexpr)")));
    }
    let ghost a0 = args@;
    let mut args = args;
    let first = args.remove(0);
    proof {
        assert(first == a0[0]);
        assert(vs[0] == a0[0]@);
        assert(a0[0]@ == expr_view(a0[0]));
    }
    match first {
        Expr::Sexpr(fs) => {
            proof {
                assert(vs[0] == ExprS::Sexpr(exprs_view(fs@)));
            }
            match as_formals(&fs) {
            Ok(formals) => {
                let body = args.remove(0);
                proof {
                    assert(body@ == vs[1]);
                }
                Ok(Expr::Atom(Atom::Fun(crate::lisp::Func::Lambda(formals, Box::new(body)))))
            },
            Err(e) => Err(e),
        }
        },
        _ => Err(Error::Arity(String::from_str("lambda expects two arguments (qexpr, qexpr)"))),
    }
}

/// `def` binds its second argument to the symbol named by its first, in the
/// scope the call runs in, and returns the bound value.
pub fn def(args: Vec<Expr>, a: &mut Arena, cur: usize) -> (res: Result<Expr, Error>)
    requires
        cur < old(a)@.len(),
    ensures
        ({
            let (out, s2) = def_spec(exprs_view(args@), old(a)@, cur as int);
            res_view(res) == out && final(a)@ == s2
        }),
        final(a)@.len() == old(a)@.len(),
{
    let ghost vs = exprs_view(args@);
    proof {
        lemma_exprs_view(args@);
        reveal_with_fuel(expr_view, 3);
    }
    if args.len() != 2 {
        return Err(Error::Arity(String::from_str("def expects two arguments (sym, expr)")));
    }
    let ghost a0 = args@;
    let mut args = args;
    let first = args.remove(0);
    proof {
        assert(first == a0[0]);
        assert(vs[0] == a0[0]@);
        assert(a0[0]@ == expr_view(a0[0]));
    }
    match first {
        Expr::Atom(Atom::Sym(name)) => {
            let val = args.remove(0);
            proof {
                assert(val@ == vs[1]);
                assert(vs[0] == ExprS::Atom(AtomS::Sym(name@)));
            }
            let ret = val.clone();
            crate::lisp::insert_binding(&mut a.scopes[cur], name, val);
            proof {
                let s2 = def_spec(vs, old(a)@, cur as int).1;
                assert forall|k: int| 0 <= k < a@.len() implies a@[k] == s2[k] by {
                    if k == cur as int {
                        assert(a@[k].table == old(a)@[k].table.insert(name@, vs[1]));
                        assert(a@[k].parent == old(a)@[k].parent);
                        assert(a@[k] =~= s2[k]);
                    } else {
                        assert(a.scopes@[k] == old(a).scopes@[k]);
                    }
                }
                assert(a@ =~= s2);
            }
            Ok(ret)
        },
        _ => Err(Error::Arity(String::from_str("def expects two arguments (sym, expr)"))),
    }
}

} // verus!

//! General laws of the library, each proved once and for all inputs it
//! holds on: the variadic arithmetic procedures compute the exact integer
//! folds wherever no intermediate result overflows the 64-bit range, any
//! zero divisor fails division, and a binding made by `def` is visible from
//! every scope whose parent chain reaches the defining scope unshadowed.
use vstd::prelude::*;

use crate::lisp::{AtomS, Builtin, ContextS, ErrorS, ExprS};
use crate::semantics::{
    arith_fold, arith_pair, def_spec, div_wrap, do_arith_spec, is_arith, lookup_spec,
};

verus! {

/// The given integers as a sequence of integer atoms.
pub open spec fn int_exprs(l: Seq<i64>) -> Seq<ExprS> {
    Seq::new(l.len(), |i: int| ExprS::Atom(AtomS::Int(l[i])))
}

/// Division truncated toward zero, on unbounded integers.
pub open spec fn tdiv(x: int, d: int) -> int
    recommends
        d != 0,
{
    if x == 0 {
        0
    } else if x > 0 && d > 0 {
        x / d
    } else if x < 0 && d < 0 {
        (x * -1) / (d * -1)
    } else if x < 0 {
        ((x * -1) / d) * -1
    } else {
        (x / (d * -1)) * -1
    }
}

/// One fold step of an arithmetic procedure, on unbounded integers.
pub open spec fn mstep(op: Builtin, acc: int, x: i64) -> int
    recommends
        is_arith(op),
        op == Builtin::Div ==> x != 0,
{
    match op {
        Builtin::Add => acc + x,
        Builtin::Sub => acc - x,
        Builtin::Mul => acc * x,
        _ => tdiv(acc, x as int),
    }
}

/// The left fold of an arithmetic procedure, on unbounded integers.
pub open spec fn mfold(op: Builtin, acc: int, rest: Seq<i64>) -> int
    recommends
        is_arith(op),
    decreases rest.len(),
{
    if rest.len() == 0 {
        acc
    } else {
        mfold(op, mstep(op, acc, rest[0]), rest.skip(1))
    }
}

/// The sum of a sequence of integers.
pub open spec fn seq_sum(l: Seq<i64>) -> int
    decreases l.len(),
{
    if l.len() == 0 {
        0
    } else {
        l[0] + seq_sum(l.skip(1))
    }
}

/// The product of a sequence of integers.
pub open spec fn seq_prod(l: Seq<i64>) -> int
    decreases l.len(),
{
    if l.len() == 0 {
        1
    } else {
        l[0] * seq_prod(l.skip(1))
    }
}

/// Folding `+` adds the whole sequence; folding `-` subtracts it.
proof fn lemma_mfold_add_sub(acc: int, t: Seq<i64>)
    ensures
        mfold(Builtin::Add, acc, t) == acc + seq_sum(t),
        mfold(Builtin::Sub, acc, t) == acc - seq_sum(t),
    decreases t.len(),
{
    if t.len() > 0 {
        lemma_mfold_add_sub(acc + t[0], t.skip(1));
        lemma_mfold_add_sub(acc - t[0], t.skip(1));
    }
}

/// Folding `*` multiplies by the whole product.
proof fn lemma_mfold_mul(acc: int, t: Seq<i64>)
    ensures
        mfold(Builtin::Mul, acc, t) == acc * seq_prod(t),
    decreases t.len(),
{
    if t.len() > 0 {
        lemma_mfold_mul(acc * t[0], t.skip(1));
        assert((acc * t[0]) * seq_prod(t.skip(1)) == acc * (t[0] * seq_prod(t.skip(1))))
            by (nonlinear_arith);
    }
}

/// A wrapping step agrees with the exact step when the exact result is
/// representable.
proof fn lemma_step_exact(op: Builtin, acc: i64, x: i64)
    requires
        is_arith(op),
        op == Builtin::Div ==> x != 0,
        i64::MIN <= mstep(op, acc as int, x) <= i64::MAX,
    ensures
        arith_pair(op, ExprS::Atom(AtomS::Int(acc)), ExprS::Atom(AtomS::Int(x))) == Ok::<
            ExprS,
            ErrorS,
        >(ExprS::Atom(AtomS::Int(mstep(op, acc as int, x) as i64))),
{
    if op == Builtin::Mul {
        let v = acc as int * x as int;
        let r = 0x1_0000_0000_0000_0000int;
        if v >= 0 {
            vstd::arithmetic::div_mod::lemma_small_mod(v as nat, r as nat);
        } else {
            vstd::arithmetic::div_mod::lemma_mod_add_multiples_vanish(v, r);
            vstd::arithmetic::div_mod::lemma_small_mod((v + r) as nat, r as nat);
        }
        assert(vstd::wrapping::i64_specs::wrapping_mul(acc, x) == v as i64);
    }
    if op == Builtin::Div {
        assert(div_wrap(acc, x) == tdiv(acc as int, x as int) as i64);
    }
}

/// Over integer operands, the executable fold computes the exact integer
/// fold, provided every intermediate result is representable (and, for
/// division, no divisor is zero).
proof fn lemma_arith_fold_ints(op: Builtin, acc: i64, t: Seq<i64>)
    requires
        is_arith(op),
        forall|j: int| 1 <= j <= t.len() ==> i64::MIN <= #[trigger] mfold(
            op,
            acc as int,
            t.take(j),
        ) <= i64::MAX,
        op == Builtin::Div ==> forall|k: int| 0 <= k < t.len() ==> t[k] != 0,
    ensures
        arith_fold(op, ExprS::Atom(AtomS::Int(acc)), int_exprs(t)) == Ok::<ExprS, ErrorS>(
            ExprS::Atom(AtomS::Int(mfold(op, acc as int, t) as i64)),
        ),
    decreases t.len(),
{
    if t.len() == 0 {
        assert(int_exprs(t) =~= Seq::<ExprS>::empty());
    } else {
        assert(t.take(1) =~= seq![t[0]]);
        reveal_with_fuel(mfold, 3);
        assert(mfold(op, acc as int, t.take(1)) == mstep(op, acc as int, t[0]));
        lemma_step_exact(op, acc, t[0]);
        let acc2 = mstep(op, acc as int, t[0]) as i64;
        assert forall|j: int| 1 <= j <= t.skip(1).len() implies i64::MIN <= #[trigger] mfold(
            op,
            acc2 as int,
            t.skip(1).take(j),
        ) <= i64::MAX by {
            assert(t.take(j + 1)[0] == t[0]);
            assert(t.take(j + 1).skip(1) =~= t.skip(1).take(j));
            assert(mfold(op, acc as int, t.take(j + 1)) == mfold(
                op,
                acc2 as int,
                t.skip(1).take(j),
            ));
        }
        lemma_arith_fold_ints(op, acc2, t.skip(1));
        assert(int_exprs(t)[0] == ExprS::Atom(AtomS::Int(t[0])));
        assert(int_exprs(t).skip(1) =~= int_exprs(t.skip(1)));
        assert(mfold(op, acc as int, t) == mfold(op, acc2 as int, t.skip(1)));
    }
}

/// Law: on two or more integer operands, `+` returns their exact sum, as
/// long as every partial sum of the fold is representable in 64 bits.
pub proof fn law_add_is_sum(l: Seq<i64>)
    requires
        l.len() >= 2,
        forall|j: int| 1 <= j <= l.len() - 1 ==> i64::MIN <= #[trigger] mfold(
            Builtin::Add,
            l[0] as int,
            l.skip(1).take(j),
        ) <= i64::MAX,
    ensures
        do_arith_spec(Builtin::Add, int_exprs(l)) == Ok::<ExprS, ErrorS>(
            ExprS::Atom(AtomS::Int(seq_sum(l) as i64)),
        ),
{
    lemma_arith_fold_ints(Builtin::Add, l[0], l.skip(1));
    lemma_mfold_add_sub(l[0] as int, l.skip(1));
    assert(int_exprs(l)[0] == ExprS::Atom(AtomS::Int(l[0])));
    assert(int_exprs(l).skip(1) =~= int_exprs(l.skip(1)));
}

/// Law: on two or more integer operands, `-` returns the left-fold
/// difference — the first operand minus the sum of the rest — as long as
/// every partial difference of the fold is representable in 64 bits.
pub proof fn law_sub_is_fold_difference(l: Seq<i64>)
    requires
        l.len() >= 2,
        forall|j: int| 1 <= j <= l.len() - 1 ==> i64::MIN <= #[trigger] mfold(
            Builtin::Sub,
            l[0] as int,
            l.skip(1).take(j),
        ) <= i64::MAX,
    ensures
        do_arith_spec(Builtin::Sub, int_exprs(l)) == Ok::<ExprS, ErrorS>(
            ExprS::Atom(AtomS::Int((l[0] - seq_sum(l.skip(1))) as i64)),
        ),
{
    lemma_arith_fold_ints(Builtin::Sub, l[0], l.skip(1));
    lemma_mfold_add_sub(l[0] as int, l.skip(1));
    assert(int_exprs(l)[0] == ExprS::Atom(AtomS::Int(l[0])));
    assert(int_exprs(l).skip(1) =~= int_exprs(l.skip(1)));
}

/// Law: on two or more integer operands, `*` returns their exact product,
/// as long as every partial product of the fold is representable in 64 bits.
pub proof fn law_mul_is_product(l: Seq<i64>)
    requires
        l.len() >= 2,
        forall|j: int| 1 <= j <= l.len() - 1 ==> i64::MIN <= #[trigger] mfold(
            Builtin::Mul,
            l[0] as int,
            l.skip(1).take(j),
        ) <= i64::MAX,
    ensures
        do_arith_spec(Builtin::Mul, int_exprs(l)) == Ok::<ExprS, ErrorS>(
            ExprS::Atom(AtomS::Int((l[0] * seq_prod(l.skip(1))) as i64)),
        ),
{
    lemma_arith_fold_ints(Builtin::Mul, l[0], l.skip(1));
    lemma_mfold_mul(l[0] as int, l.skip(1));
    assert(int_exprs(l)[0] == ExprS::Atom(AtomS::Int(l[0])));
    assert(int_exprs(l).skip(1) =~= int_exprs(l.skip(1)));
}

/// Law: on two or more integer operands, `/` returns the left fold of
/// division truncated toward zero, as long as no divisor is zero and every
/// partial quotient is representable in 64 bits.
pub proof fn law_div_is_fold_quotient(l: Seq<i64>)
    requires
        l.len() >= 2,
        forall|k: int| 1 <= k < l.len() ==> l[k] != 0,
        forall|j: int| 1 <= j <= l.len() - 1 ==> i64::MIN <= #[trigger] mfold(
            Builtin::Div,
            l[0] as int,
            l.skip(1).take(j),
        ) <= i64::MAX,
    ensures
        do_arith_spec(Builtin::Div, int_exprs(l)) == Ok::<ExprS, ErrorS>(
            ExprS::Atom(AtomS::Int(mfold(Builtin::Div, l[0] as int, l.skip(1)) as i64)),
        ),
{
    assert(forall|k: int| 0 <= k < l.skip(1).len() ==> l.skip(1)[k] != 0);
    lemma_arith_fold_ints(Builtin::Div, l[0], l.skip(1));
    assert(int_exprs(l)[0] == ExprS::Atom(AtomS::Int(l[0])));
    assert(int_exprs(l).skip(1) =~= int_exprs(l.skip(1)));
}

/// The division fold fails with `ZeroDivision` as soon as it meets a zero
/// divisor, whatever stood before it.
proof fn lemma_div_fold_zero(acc: i64, t: Seq<i64>)
    requires
        exists|k: int| 0 <= k < t.len() && t[k] == 0,
    ensures
        arith_fold(Builtin::Div, ExprS::Atom(AtomS::Int(acc)), int_exprs(t)) == Err::<
            ExprS,
            ErrorS,
        >(ErrorS::ZeroDivision),
    decreases t.len(),
{
    assert(int_exprs(t)[0] == ExprS::Atom(AtomS::Int(t[0])));
    if t[0] != 0 {
        let k = choose|k: int| 0 <= k < t.len() && t[k] == 0;
        assert(t.skip(1)[k - 1] == t[k]);
        let acc2 = div_wrap(acc, t[0]);
        lemma_div_fold_zero(acc2, t.skip(1));
        assert(int_exprs(t).skip(1) =~= int_exprs(t.skip(1)));
    }
}

/// Law: on two or more integer operands, `/` fails with `ZeroDivision`
/// whenever any divisor after the first operand is zero, wherever it
/// stands.
pub proof fn law_div_zero_divisor(l: Seq<i64>)
    requires
        l.len() >= 2,
        exists|k: int| 1 <= k < l.len() && l[k] == 0,
    ensures
        do_arith_spec(Builtin::Div, int_exprs(l)) == Err::<ExprS, ErrorS>(ErrorS::ZeroDivision),
{
    let k = choose|k: int| 1 <= k < l.len() && l[k] == 0;
    assert(l.skip(1)[k - 1] == l[k]);
    lemma_div_fold_zero(l[0], l.skip(1));
    assert(int_exprs(l)[0] == ExprS::Atom(AtomS::Int(l[0])));
    assert(int_exprs(l).skip(1) =~= int_exprs(l.skip(1)));
}

/// Whether the parent chain of scope `i` reaches scope `g`.
pub open spec fn reaches(s: Seq<ContextS>, i: int, g: int) -> bool
    decreases i,
{
    if i < 0 || i >= s.len() {
        false
    } else if i == g {
        true
    } else {
        match s[i].parent {
            Some(p) => 0 <= p < i && reaches(s, p, g),
            None => false,
        }
    }
}

/// Whether no scope on the chain from `i` to `g`, except `g` itself, binds
/// `name`.
pub open spec fn unshadowed(s: Seq<ContextS>, i: int, g: int, name: Seq<char>) -> bool
    recommends
        reaches(s, i, g),
    decreases i,
{
    if i < 0 || i >= s.len() {
        true
    } else if i == g {
        true
    } else {
        !s[i].table.contains_key(name) && match s[i].parent {
            Some(p) => 0 <= p < i ==> unshadowed(s, p, g, name),
            None => true,
        }
    }
}

/// A binding held by scope `g` is found from every scope whose parent
/// chain reaches `g` without any nearer scope binding the same name.
pub proof fn law_lookup_reaches(s: Seq<ContextS>, i: int, g: int, name: Seq<char>)
    requires
        reaches(s, i, g),
        unshadowed(s, i, g, name),
        s[g].table.contains_key(name),
    ensures
        lookup_spec(s, i, name) == Some(s[g].table[name]),
    decreases i,
{
    if i != g {
        let p = s[i].parent->Some_0;
        law_lookup_reaches(s, p, g, name);
    }
}

/// Law: after `def` binds `name` to `val` in scope `cur`, the binding is
/// returned as the result and resolves to `val` from every scope whose
/// parent chain reaches `cur` without a nearer binding of `name` — so a
/// definition made in the global scope is visible everywhere it is not
/// shadowed.
pub proof fn law_def_visible(s: Seq<ContextS>, cur: int, i: int, name: Seq<char>, val: ExprS)
    requires
        0 <= cur < s.len(),
        ({
            let (r, s2) = def_spec(seq![ExprS::Atom(AtomS::Sym(name)), val], s, cur);
            reaches(s2, i, cur) && unshadowed(s2, i, cur, name)
        }),
    ensures
        ({
            let (r, s2) = def_spec(seq![ExprS::Atom(AtomS::Sym(name)), val], s, cur);
            r == Ok::<ExprS, ErrorS>(val) && lookup_spec(s2, i, name) == Some(val)
        }),
{
    let (r, s2) = def_spec(seq![ExprS::Atom(AtomS::Sym(name)), val], s, cur);
    assert(s2[cur].table.contains_key(name));
    assert(s2[cur].table[name] == val);
    law_lookup_reaches(s2, i, cur, name);
}

/// The second arena holds every scope of the first, with its parent link
/// unchanged; only tables may differ, and scopes may have been added at the
/// end.
pub open spec fn extends_scopes(s: Seq<ContextS>, s2: Seq<ContextS>) -> bool {
    s2.len() >= s.len() && forall|i: int| 0 <= i < s.len() ==> s2[i].parent == s[i].parent
}

/// Law: evaluating an expression never removes a scope and never rewires a
/// parent link — the only mutations are to tables (by `def`) and the
/// appending of call scopes.
pub proof fn law_eval_extends_scopes(e: ExprS, s: Seq<ContextS>, cur: int, fuel: nat)
    requires
        0 <= cur < s.len(),
    ensures
        extends_scopes(s, crate::semantics::eval_spec(e, s, cur, fuel).1),
    decreases fuel, 0nat, 0nat,
{
    match e {
        ExprS::Sexpr(items) => {
            if fuel > 0 {
                lemma_sexpr_extends(items, s, cur, (fuel - 1) as nat);
            }
        },
        _ => {},
    }
}

/// Evaluating each item of a list in turn only extends the arena.
proof fn lemma_eval_all_extends(items: Seq<ExprS>, s: Seq<ContextS>, cur: int, fuel: nat)
    requires
        0 <= cur < s.len(),
    ensures
        extends_scopes(s, crate::semantics::eval_all_spec(items, s, cur, fuel).1),
    decreases fuel, 1nat, items.len(),
{
    if items.len() > 0 {
        law_eval_extends_scopes(items[0], s, cur, fuel);
        let (r0, s1) = crate::semantics::eval_spec(items[0], s, cur, fuel);
        if r0 is Ok {
            lemma_eval_all_extends(items.skip(1), s1, cur, fuel);
        }
    }
}

/// Applying a procedure only extends the arena.
proof fn lemma_call_extends(fun: AtomS, xs: Seq<ExprS>, s: Seq<ContextS>, cur: int, fuel: nat)
    requires
        0 <= cur < s.len(),
    ensures
        extends_scopes(s, crate::semantics::call_spec(fun, xs, s, cur, fuel).1),
    decreases fuel, 2nat, 0nat,
{
    match fun {
        AtomS::Fun(crate::lisp::FuncS::Builtin(b)) => {
            if b == Builtin::Eval && xs.len() == 1 {
                law_eval_extends_scopes(xs[0], s, cur, fuel);
            }
        },
        AtomS::Fun(crate::lisp::FuncS::Lambda(formals, body)) => {
            match crate::semantics::bind_spec(formals, xs, cur) {
                Ok(scope) => {
                    law_eval_extends_scopes(*body, s.push(scope), s.len() as int, fuel);
                },
                Err(_) => {},
            }
        },
        _ => {},
    }
}

/// Evaluating an application list only extends the arena.
proof fn lemma_sexpr_extends(items: Seq<ExprS>, s: Seq<ContextS>, cur: int, fuel: nat)
    requires
        0 <= cur < s.len(),
    ensures
        extends_scopes(s, crate::semantics::sexpr_spec(items, s, cur, fuel).1),
    decreases fuel, 3nat, 0nat,
{
    lemma_eval_all_extends(items, s, cur, fuel);
    let (r, s1) = crate::semantics::eval_all_spec(items, s, cur, fuel);
    match r {
        Ok(vs) => {
            if vs.len() > 0 {
                match vs[0] {
                    ExprS::Atom(a0) => {
                        lemma_call_extends(a0, vs.skip(1), s1, cur, fuel);
                    },
                    _ => {},
                }
            }
        },
        Err(_) => {},
    }
}

} // verus!

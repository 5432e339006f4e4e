//! The big-step semantics of the language, stated over the mathematical
//! models of expressions and scopes.
//!
//! Every executable function of the evaluator and of the builtin library is
//! proved to agree with the functions here. Evaluation threads the arena of
//! scopes through every step, because `def` mutates the scope it runs in and
//! those mutations persist even when a later step fails. A fuel parameter
//! bounds the nesting of list evaluations; recursion past the budget yields
//! the depth error rather than unbounded recursion.
use vstd::prelude::*;

use crate::lisp::{AtomS, Builtin, ContextS, ErrorS, ExprS, FuncS};
use crate::render::{
    msg_depth, msg_expected_args, msg_not_a_function, msg_not_a_list, msg_not_a_number,
    msg_not_a_symbol,
};

verus! {

/// Resolution of a name: the innermost scope that binds it wins; a miss
/// walks the parent link. A parent link that does not point to an earlier
/// scope of the arena ends the walk (the arena is only ever built with
/// parent indices smaller than the scope that holds them).
pub open spec fn lookup_spec(s: Seq<ContextS>, i: int, name: Seq<char>) -> Option<ExprS>
    decreases i,
{
    if i < 0 || i >= s.len() {
        None
    } else if s[i].table.contains_key(name) {
        Some(s[i].table[name])
    } else {
        match s[i].parent {
            Some(p) => if 0 <= p < i {
                lookup_spec(s, p, name)
            } else {
                None
            },
            None => None,
        }
    }
}

/// The table that pairs each formal with the argument in the same position;
/// a repeated formal keeps its last pairing.
pub open spec fn zip_bindings(formals: Seq<Seq<char>>, args: Seq<ExprS>) -> Map<Seq<char>, ExprS>
    decreases formals.len(),
{
    if formals.len() == 0 || args.len() == 0 {
        Map::empty()
    } else {
        zip_bindings(formals.drop_last(), args.drop_last()).insert(formals.last(), args.last())
    }
}

/// A new scope for a closure call: exactly as many arguments as formals,
/// bound by position, chained to the calling scope.
pub open spec fn bind_spec(formals: Seq<Seq<char>>, args: Seq<ExprS>, parent: int) -> Result<
    ContextS,
    ErrorS,
> {
    if formals.len() == args.len() {
        Ok(ContextS { table: zip_bindings(formals, args), parent: Some(parent) })
    } else {
        Err(ErrorS::Arity(msg_expected_args(formals.len(), args.len())))
    }
}

/// Evaluation of an atom: a symbol resolves through the scope chain or fails
/// name resolution; integers and procedures evaluate to themselves.
pub open spec fn atom_spec(a: AtomS, s: Seq<ContextS>, cur: int) -> Result<ExprS, ErrorS> {
    match a {
        AtomS::Sym(name) => match lookup_spec(s, cur, name) {
            Some(v) => Ok(v),
            None => Err(ErrorS::NameResolution(name)),
        },
        _ => Ok(ExprS::Atom(a)),
    }
}

/// Whether the tag names one of the four arithmetic procedures.
pub open spec fn is_arith(op: Builtin) -> bool {
    op == Builtin::Add || op == Builtin::Sub || op == Builtin::Mul || op == Builtin::Div
}

/// Division on 64-bit words, truncated toward zero as the machine divides;
/// the single overflowing pair wraps around to the smallest value.
pub open spec fn div_wrap(l: i64, r: i64) -> i64
    recommends
        r != 0,
{
    match l.checked_div(r) {
        Some(q) => q,
        None => i64::MIN,
    }
}

/// One arithmetic step on two integers: wrapping 64-bit arithmetic, and the
/// zero-division error for a zero divisor.
pub open spec fn arith_op(op: Builtin, l: i64, r: i64) -> Result<i64, ErrorS>
    recommends
        is_arith(op),
{
    match op {
        Builtin::Add => Ok(vstd::wrapping::i64_specs::wrapping_add(l, r)),
        Builtin::Sub => Ok(vstd::wrapping::i64_specs::wrapping_sub(l, r)),
        Builtin::Div => if r == 0 {
            Err(ErrorS::ZeroDivision)
        } else {
            Ok(div_wrap(l, r))
        },
        _ => Ok(vstd::wrapping::i64_specs::wrapping_mul(l, r)),
    }
}

/// One arithmetic step on two operand values: both must be integer atoms;
/// the first operand that is not one is named in the error.
pub open spec fn arith_pair(op: Builtin, l: ExprS, r: ExprS) -> Result<ExprS, ErrorS>
    recommends
        is_arith(op),
{
    match (l, r) {
        (ExprS::Atom(AtomS::Int(i1)), ExprS::Atom(AtomS::Int(i2))) => match arith_op(op, i1, i2) {
            Ok(v) => Ok(ExprS::Atom(AtomS::Int(v))),
            Err(e) => Err(e),
        },
        (ExprS::Atom(AtomS::Int(_)), nan) => Err(ErrorS::InvalidType(msg_not_a_number(nan))),
        (nan, ExprS::Atom(AtomS::Int(_))) => Err(ErrorS::InvalidType(msg_not_a_number(nan))),
        (nan, _) => Err(ErrorS::InvalidType(msg_not_a_number(nan))),
    }
}

/// The left fold of an arithmetic procedure over the remaining operands.
pub open spec fn arith_fold(op: Builtin, acc: ExprS, rest: Seq<ExprS>) -> Result<ExprS, ErrorS>
    recommends
        is_arith(op),
    decreases rest.len(),
{
    if rest.len() == 0 {
        Ok(acc)
    } else {
        match arith_pair(op, acc, rest[0]) {
            Ok(v) => arith_fold(op, v, rest.skip(1)),
            Err(e) => Err(e),
        }
    }
}

/// A variadic arithmetic procedure: no operands give zero, one operand `a`
/// is computed as `0 (op) a`, more fold from the left.
pub open spec fn do_arith_spec(op: Builtin, args: Seq<ExprS>) -> Result<ExprS, ErrorS>
    recommends
        is_arith(op),
{
    if args.len() == 0 {
        Ok(ExprS::Atom(AtomS::Int(0)))
    } else if args.len() == 1 {
        arith_pair(op, ExprS::Atom(AtomS::Int(0)), args[0])
    } else {
        arith_fold(op, args[0], args.skip(1))
    }
}

/// `head`: the first element of a nonempty list argument.
pub open spec fn head_spec(args: Seq<ExprS>) -> Result<ExprS, ErrorS> {
    if args.len() == 1 {
        match args[0] {
            ExprS::Sexpr(items) => if items.len() == 0 {
                Err(ErrorS::Runtime(("can't head empty list")@))
            } else {
                Ok(items[0])
            },
            other => Err(ErrorS::InvalidType(msg_not_a_list(other))),
        }
    } else {
        Err(ErrorS::Arity(("head expects one argument (a list)")@))
    }
}

/// `tail`: all but the first element of a nonempty list argument.
pub open spec fn tail_spec(args: Seq<ExprS>) -> Result<ExprS, ErrorS> {
    if args.len() == 1 {
        match args[0] {
            ExprS::Sexpr(items) => if items.len() == 0 {
                Err(ErrorS::Runtime(("can't tail empty list")@))
            } else {
                Ok(ExprS::Sexpr(items.skip(1)))
            },
            other => Err(ErrorS::InvalidType(msg_not_a_list(other))),
        }
    } else {
        Err(ErrorS::Arity(("tail expects one argument (a list)")@))
    }
}

/// The formal names of a formals list: every entry must be a symbol; the
/// first entry that is not one is named in the error.
pub open spec fn as_formals_spec(fs: Seq<ExprS>) -> Result<Seq<Seq<char>>, ErrorS>
    decreases fs.len(),
{
    if fs.len() == 0 {
        Ok(Seq::empty())
    } else {
        match fs[0] {
            ExprS::Atom(AtomS::Sym(name)) => match as_formals_spec(fs.skip(1)) {
                Ok(rest) => Ok(seq![name] + rest),
                Err(e) => Err(e),
            },
            other => Err(ErrorS::InvalidType(msg_not_a_symbol(other))),
        }
    }
}

/// `lambda`: a formals list and a body make a closure value.
pub open spec fn lambda_spec(args: Seq<ExprS>) -> Result<ExprS, ErrorS> {
    if args.len() == 2 {
        match args[0] {
            ExprS::Sexpr(fs) => match as_formals_spec(fs) {
                Ok(formals) => Ok(
                    ExprS::Atom(AtomS::Fun(FuncS::Lambda(formals, Box::new(args[1])))),
                ),
                Err(e) => Err(e),
            },
            _ => Err(ErrorS::Arity(("lambda expects two arguments (qexpr, qexpr)")@)),
        }
    } else {
        Err(ErrorS::Arity(("lambda expects two arguments (qexpr, qexpr)")@))
    }
}

/// `def`: binds the value to the symbol in the scope the call runs in —
/// never in a parent — overwriting any binding there, and returns the value.
pub open spec fn def_spec(args: Seq<ExprS>, s: Seq<ContextS>, cur: int) -> (Result<
    ExprS,
    ErrorS,
>, Seq<ContextS>)
    recommends
        0 <= cur < s.len(),
{
    if args.len() == 2 {
        match args[0] {
            ExprS::Atom(AtomS::Sym(name)) => {
                let scope = s[cur];
                let scope2 = ContextS {
                    table: scope.table.insert(name, args[1]),
                    parent: scope.parent,
                };
                (Ok(args[1]), s.update(cur, scope2))
            },
            _ => (Err(ErrorS::Arity(("def expects two arguments (sym, expr)")@)), s),
        }
    } else {
        (Err(ErrorS::Arity(("def expects two arguments (sym, expr)")@)), s)
    }
}

/// Evaluation of one expression. A quoted expression yields its inner
/// expression unevaluated; an atom resolves as `atom_spec`; a list is an
/// application and consumes one unit of fuel, so the fuel bounds the nesting
/// of applications during a run.
pub open spec fn eval_spec(e: ExprS, s: Seq<ContextS>, cur: int, fuel: nat) -> (Result<
    ExprS,
    ErrorS,
>, Seq<ContextS>)
    recommends
        0 <= cur < s.len(),
    decreases fuel, 0nat, 0nat,
{
    match e {
        ExprS::Atom(a) => (atom_spec(a, s, cur), s),
        ExprS::Qexpr(inner) => (Ok(*inner), s),
        ExprS::Sexpr(items) => if fuel == 0 {
            (Err(ErrorS::Runtime(msg_depth())), s)
        } else {
            sexpr_spec(items, s, cur, (fuel - 1) as nat)
        },
    }
}

/// Evaluation of an application list: evaluate every item from the left,
/// stopping at the first error; an empty list yields itself; otherwise the
/// first value must be a procedure atom and is applied to the rest.
pub open spec fn sexpr_spec(items: Seq<ExprS>, s: Seq<ContextS>, cur: int, fuel: nat) -> (Result<
    ExprS,
    ErrorS,
>, Seq<ContextS>)
    recommends
        0 <= cur < s.len(),
    decreases fuel, 3nat, 0nat,
{
    let (r, s1) = eval_all_spec(items, s, cur, fuel);
    match r {
        Err(e) => (Err(e), s1),
        Ok(vs) => if vs.len() == 0 {
            (Ok(ExprS::Sexpr(Seq::empty())), s1)
        } else {
            match vs[0] {
                ExprS::Atom(a0) => call_spec(a0, vs.skip(1), s1, cur, fuel),
                first => (Err(ErrorS::InvalidType(msg_not_a_function(first))), s1),
            }
        },
    }
}

/// Evaluation of a sequence of expressions from the left; the first failure
/// aborts the whole sequence and no partial results are kept, though scope
/// mutations made before the failure persist.
pub open spec fn eval_all_spec(items: Seq<ExprS>, s: Seq<ContextS>, cur: int, fuel: nat) -> (Result<
    Seq<ExprS>,
    ErrorS,
>, Seq<ContextS>)
    recommends
        0 <= cur < s.len(),
    decreases fuel, 1nat, items.len(),
{
    if items.len() == 0 {
        (Ok(Seq::empty()), s)
    } else {
        let (r0, s1) = eval_spec(items[0], s, cur, fuel);
        match r0 {
            Err(e) => (Err(e), s1),
            Ok(v) => {
                let (rr, s2) = eval_all_spec(items.skip(1), s1, cur, fuel);
                match rr {
                    Err(e) => (Err(e), s2),
                    Ok(vs) => (Ok(seq![v] + vs), s2),
                }
            },
        }
    }
}

/// Application of an already-evaluated head to already-evaluated arguments.
/// A native procedure dispatches on its tag; a closure binds its formals to
/// the arguments in a fresh scope chained to the *calling* scope and
/// evaluates its body there; anything that is not a procedure is a type
/// error naming the value.
pub open spec fn call_spec(fun: AtomS, xs: Seq<ExprS>, s: Seq<ContextS>, cur: int, fuel: nat) -> (Result<
    ExprS,
    ErrorS,
>, Seq<ContextS>)
    recommends
        0 <= cur < s.len(),
    decreases fuel, 2nat, 0nat,
{
    match fun {
        AtomS::Fun(FuncS::Builtin(b)) => match b {
            Builtin::List => (Ok(ExprS::Sexpr(xs)), s),
            Builtin::Head => (head_spec(xs), s),
            Builtin::Tail => (tail_spec(xs), s),
            Builtin::Lambda => (lambda_spec(xs), s),
            Builtin::Def => def_spec(xs, s, cur),
            Builtin::Eval => if xs.len() == 1 {
                eval_spec(xs[0], s, cur, fuel)
            } else {
                (Err(ErrorS::Arity(("eval expects one argument (an sexpr)")@)), s)
            },
            _ => (do_arith_spec(b, xs), s),
        },
        AtomS::Fun(FuncS::Lambda(formals, body)) => match bind_spec(formals, xs, cur) {
            Ok(scope) => eval_spec(*body, s.push(scope), s.len() as int, fuel),
            Err(e) => (Err(e), s),
        },
        other => (Err(ErrorS::InvalidType(msg_not_a_function(ExprS::Atom(other)))), s),
    }
}

} // verus!

//! Canonical textual rendering of expressions, and the error messages that
//! name a rendered expression.
//!
//! A list renders as its children's renderings joined by single spaces and
//! wrapped in parentheses; an integer renders as its decimal value; a symbol
//! renders as its name; a procedure renders as an opaque placeholder; a
//! quoted expression renders as its inner expression.
use vstd::prelude::*;
use vstd::string::StringExecFns;

use crate::lisp::{Atom, AtomS, Error, ErrorS, Expr, ExprS};
use crate::lisp::exprs_view;

verus! {

/// The decimal digit character for a value below ten.
pub open spec fn digit_char(d: nat) -> char {
    if d == 0 {
        '0'
    } else if d == 1 {
        '1'
    } else if d == 2 {
        '2'
    } else if d == 3 {
        '3'
    } else if d == 4 {
        '4'
    } else if d == 5 {
        '5'
    } else if d == 6 {
        '6'
    } else if d == 7 {
        '7'
    } else if d == 8 {
        '8'
    } else {
        '9'
    }
}

/// The decimal digits of a nonnegative value, most significant first.
pub open spec fn dec_digits(n: nat) -> Seq<char>
    decreases n,
{
    if n < 10 {
        seq![digit_char(n)]
    } else {
        dec_digits(n / 10) + seq![digit_char(n % 10)]
    }
}

/// The decimal rendering of an integer: a minus sign for negative values,
/// then the digits of the magnitude.
pub open spec fn render_int(i: int) -> Seq<char> {
    if i < 0 {
        seq!['-'] + dec_digits((-i) as nat)
    } else {
        dec_digits(i as nat)
    }
}

/// The canonical rendering of an expression.
pub open spec fn render(e: ExprS) -> Seq<char>
    decreases e,
{
    match e {
        ExprS::Sexpr(items) => seq!['('] + render_items(items) + seq![')'],
        ExprS::Qexpr(inner) => render(*inner),
        ExprS::Atom(AtomS::Int(i)) => render_int(i as int),
        ExprS::Atom(AtomS::Sym(s)) => s,
        ExprS::Atom(AtomS::Fun(_)) => ("<function>")@,
    }
}

/// The renderings of a sequence of expressions, joined by single spaces.
pub open spec fn render_items(items: Seq<ExprS>) -> Seq<char>
    decreases items,
{
    if items.len() == 0 {
        Seq::empty()
    } else if items.len() == 1 {
        render(items[0])
    } else {
        render(items[0]) + seq![' '] + render_items(items.skip(1))
    }
}

/// Appending one expression to a joined rendering appends a space (when
/// anything precedes it) and the expression's rendering.
proof fn lemma_render_items_push(items: Seq<ExprS>, x: ExprS)
    ensures
        render_items(items.push(x)) == if items.len() == 0 {
            render(x)
        } else {
            render_items(items) + seq![' '] + render(x)
        },
    decreases items.len(),
{
    let whole = items.push(x);
    if items.len() == 0 {
        assert(whole.len() == 1);
        assert(whole[0] == x);
    } else {
        assert(whole.len() >= 2);
        assert(whole[0] == items[0]);
        assert(whole.skip(1) =~= items.skip(1).push(x));
        lemma_render_items_push(items.skip(1), x);
        if items.len() == 1 {
            assert(items.skip(1).len() == 0);
            assert(render_items(whole) == render(items[0]) + seq![' '] + render(x));
            assert(render_items(items) == render(items[0]));
        } else {
            assert(render_items(whole) == render(items[0]) + seq![' ']
                + (render_items(items.skip(1)) + seq![' '] + render(x)));
            assert(render_items(items) == render(items[0]) + seq![' '] + render_items(items.skip(1)));
            assert(render_items(whole) =~= render_items(items) + seq![' '] + render(x));
        }
    }
}

/// Appends one digit character.
fn push_digit(d: u64, out: &mut String)
    requires
        d < 10,
    ensures
        final(out)@ == old(out)@ + seq![digit_char(d as nat)],
{
    if d == 0 {
        out.append("0");
        proof { reveal_strlit("0"); }
    } else if d == 1 {
        out.append("1");
        proof { reveal_strlit("1"); }
    } else if d == 2 {
        out.append("2");
        proof { reveal_strlit("2"); }
    } else if d == 3 {
        out.append("3");
        proof { reveal_strlit("3"); }
    } else if d == 4 {
        out.append("4");
        proof { reveal_strlit("4"); }
    } else if d == 5 {
        out.append("5");
        proof { reveal_strlit("5"); }
    } else if d == 6 {
        out.append("6");
        proof { reveal_strlit("6"); }
    } else if d == 7 {
        out.append("7");
        proof { reveal_strlit("7"); }
    } else if d == 8 {
        out.append("8");
        proof { reveal_strlit("8"); }
    } else {
        out.append("9");
        proof { reveal_strlit("9"); }
    }
    proof {
        assert(final(out)@ =~= old(out)@ + seq![digit_char(d as nat)]);
    }
}

/// Appends the decimal digits of a magnitude.
fn push_dec(n: u64, out: &mut String)
    ensures
        final(out)@ == old(out)@ + dec_digits(n as nat),
    decreases n,
{
    if n < 10 {
        push_digit(n, out);
    } else {
        push_dec(n / 10, out);
        push_digit(n % 10, out);
        proof {
            assert(final(out)@ =~= old(out)@ + dec_digits(n as nat));
        }
    }
}

/// Appends the decimal rendering of a signed integer.
fn push_int(i: i64, out: &mut String)
    ensures
        final(out)@ == old(out)@ + render_int(i as int),
{
    if i < 0 {
        out.append("-");
        proof { reveal_strlit("-"); }
        let wide: i128 = -(i as i128);
        let magnitude: u64 = wide as u64;
        proof {
            assert(magnitude as nat == (-(i as int)) as nat);
        }
        push_dec(magnitude, out);
        proof {
            assert(final(out)@ =~= old(out)@ + render_int(i as int));
        }
    } else {
        let magnitude: u64 = i as u64;
        proof {
            assert(magnitude as nat == i as nat);
        }
        push_dec(magnitude, out);
    }
}

/// Appends the canonical rendering of an expression.
#[verifier::loop_isolation(false)]
fn push_render(e: &Expr, out: &mut String)
    ensures
        final(out)@ == old(out)@ + render(e@),
    decreases e,
{
    match e {
        Expr::Atom(Atom::Int(i)) => {
            push_int(*i, out);
            proof {
                reveal_with_fuel(crate::lisp::expr_view, 2);
                assert(render(e@) == render_int(*i as int));
            }
        },
        Expr::Atom(Atom::Sym(s)) => {
            out.append(s.as_str());
            proof {
                reveal_with_fuel(crate::lisp::expr_view, 2);
                assert(render(e@) == s@);
            }
        },
        Expr::Atom(Atom::Fun(_)) => {
            out.append("<function>");
            proof {
                reveal_with_fuel(crate::lisp::expr_view, 2);
                assert(render(e@) == ("<function>")@);
            }
        },
        Expr::Qexpr(inner) => {
            push_render(&**inner, out);
            proof {
                reveal_with_fuel(crate::lisp::expr_view, 2);
                assert(render(e@) == render((**inner)@));
            }
        },
        Expr::Sexpr(items) => {
            out.append("(");
            proof {
                reveal_strlit("(");
                reveal_with_fuel(crate::lisp::expr_view, 2);
            }
            let ghost views = exprs_view(items@);
            proof {
                crate::lisp::lemma_exprs_view(items@);
            }
            let ghost mid = out@;
            let n = items.len();
            let mut i: usize = 0;
            while i < n
                invariant
                    i <= n,
                    out@ == mid + render_items(views.take(i as int)),
                decreases n - i,
            {
                if i > 0 {
                    out.append(" ");
                    proof { reveal_strlit(" "); }
                }
                push_render(&items[i], out);
                proof {
                    assert(views.take(i + 1 as int) =~= views.take(i as int).push(views[i as int]));
                    lemma_render_items_push(views.take(i as int), views[i as int]);
                    assert(out@ =~= mid + render_items(views.take(i + 1 as int)));
                }
                i = i + 1;
            }
            out.append(")");
            proof {
                reveal_strlit(")");
                assert(views.take(n as int) =~= views);
                assert(final(out)@ =~= old(out)@ + render(e@));
            }
        },
    }
}

/// The canonical textual rendering of an expression, as a `String`.
pub fn render_expr(e: &Expr) -> (r: String)
    ensures
        r@ == render(e@),
{
    let mut out = String::new();
    push_render(e, &mut out);
    proof {
        assert(out@ =~= render(e@));
    }
    out
}

/// Evaluation ran out of nesting budget; see `lisp::eval`.
pub open spec fn msg_depth() -> Seq<char> {
    ("evaluation depth limit exceeded")@
}

/// An operand of an arithmetic procedure was not an integer.
pub open spec fn msg_not_a_number(v: ExprS) -> Seq<char> {
    ("`")@ + render(v) + ("` is not a number")@
}

/// The head of an application did not evaluate to a procedure.
pub open spec fn msg_not_a_function(v: ExprS) -> Seq<char> {
    ("`")@ + render(v) + ("` not a function")@
}

/// The argument of `head` or `tail` was not a list.
pub open spec fn msg_not_a_list(v: ExprS) -> Seq<char> {
    ("`")@ + render(v) + ("` not a list")@
}

/// An entry of a formals list was not a symbol.
pub open spec fn msg_not_a_symbol(v: ExprS) -> Seq<char> {
    ("formals declaration expects a list of symbols, `")@ + render(v) + ("` is not a symbol")@
}

/// A closure call received the wrong number of arguments.
pub open spec fn msg_expected_args(want: nat, got: nat) -> Seq<char> {
    ("expected ")@ + dec_digits(want) + (" args, but received ")@ + dec_digits(got)
}

/// Builds the message that wraps a rendering in backquotes and adds a suffix.
fn quoted_render(v: &Expr, suffix: &str) -> (r: String)
    ensures
        r@ == ("`")@ + render(v@) + suffix@,
{
    let mut out = String::from_str("`");
    push_render(v, &mut out);
    out.append(suffix);
    proof {
        assert(out@ =~= ("`")@ + render(v@) + suffix@);
    }
    out
}

/// The `InvalidType` error naming an operand that is not an integer.
pub fn not_a_number_err(v: &Expr) -> (r: Error)
    ensures
        r@ == ErrorS::InvalidType(msg_not_a_number(v@)),
{
    Error::InvalidType(quoted_render(v, "` is not a number"))
}

/// The `InvalidType` error naming a value that is not a procedure.
pub fn not_a_function_err(v: &Expr) -> (r: Error)
    ensures
        r@ == ErrorS::InvalidType(msg_not_a_function(v@)),
{
    Error::InvalidType(quoted_render(v, "` not a function"))
}

/// The `InvalidType` error naming a value that is not a list.
pub fn not_a_list_err(v: &Expr) -> (r: Error)
    ensures
        r@ == ErrorS::InvalidType(msg_not_a_list(v@)),
{
    Error::InvalidType(quoted_render(v, "` not a list"))
}

/// The `InvalidType` error naming a formals entry that is not a symbol.
pub fn not_a_symbol_err(v: &Expr) -> (r: Error)
    ensures
        r@ == ErrorS::InvalidType(msg_not_a_symbol(v@)),
{
    let mut out = String::from_str("formals declaration expects a list of symbols, `");
    push_render(v, &mut out);
    out.append("` is not a symbol");
    proof {
        assert(out@ =~= msg_not_a_symbol(v@));
    }
    Error::InvalidType(out)
}

/// The `Arity` error stating the expected and actual argument counts.
pub fn expected_args_err(want: usize, got: usize) -> (r: Error)
    ensures
        r@ == ErrorS::Arity(msg_expected_args(want as nat, got as nat)),
{
    let mut out = String::from_str("expected ");
    push_dec(want as u64, &mut out);
    out.append(" args, but received ");
    push_dec(got as u64, &mut out);
    proof {
        assert(out@ =~= msg_expected_args(want as nat, got as nat));
    }
    Error::Arity(out)
}

} // verus!

//! The expression data model, the scope arena, and the recursive evaluator.
use vstd::prelude::*;

verus! {

/// Identifier of one of the fixed native procedures. Dispatch at apply time
/// is an exhaustive match over this tag.
#[derive(Clone, Copy)]
pub enum Builtin {
    Add,
    Sub,
    Mul,
    Div,
    List,
    Head,
    Tail,
    Eval,
    Lambda,
    Def,
}

/// A procedure value: either a fixed native procedure or a user closure
/// made of formal parameter names and a body expression. Closures carry no
/// captured environment: the scope a call runs in is chained to the caller's.
pub enum Func {
    Builtin(Builtin),
    Lambda(Vec<String>, Box<Expr>),
}

/// An indivisible value: integer, symbol, or procedure. Integers and
/// procedures are self-evaluating; a symbol is a name to resolve.
pub enum Atom {
    Int(i64),
    Sym(String),
    Fun(Func),
}

/// An expression tree: an application list, a quoted expression (which
/// evaluates to its inner expression unchanged), or an atom.
pub enum Expr {
    Sexpr(Vec<Expr>),
    Qexpr(Box<Expr>),
    Atom(Atom),
}

/// An evaluation error. The message names the offending rendered expression
/// or states the expected and actual argument counts.
#[derive(Debug)]
pub enum Error {
    Runtime(String),
    ZeroDivision,
    NameResolution(String),
    InvalidType(String),
    Arity(String),
}

/// One binding scope: a table of name-to-expression bindings and an optional
/// link to the enclosing scope, given as an index into the arena that holds
/// all scopes. The earliest table entry for a name is the binding in force.
pub struct Context {
    pub table: Vec<(String, Expr)>,
    pub parent: Option<usize>,
}

/// The arena of scopes. Index 0 is the global scope; a scope created for a
/// procedure call is pushed at the end and points back to its caller's scope,
/// so every parent index is smaller than the index of the scope that holds it.
pub struct Arena {
    pub scopes: Vec<Context>,
}

/// Mathematical model of a procedure value.
#[verifier::ext_equal]
pub enum FuncS {
    Builtin(Builtin),
    Lambda(Seq<Seq<char>>, Box<ExprS>),
}

/// Mathematical model of an atom.
#[verifier::ext_equal]
pub enum AtomS {
    Int(i64),
    Sym(Seq<char>),
    Fun(FuncS),
}

/// Mathematical model of an expression tree.
#[verifier::ext_equal]
pub enum ExprS {
    Sexpr(Seq<ExprS>),
    Qexpr(Box<ExprS>),
    Atom(AtomS),
}

/// Mathematical model of an evaluation error.
#[verifier::ext_equal]
pub enum ErrorS {
    Runtime(Seq<char>),
    ZeroDivision,
    NameResolution(Seq<char>),
    InvalidType(Seq<char>),
    Arity(Seq<char>),
}

/// Mathematical model of one scope: a finite map of bindings and an optional
/// parent index.
#[verifier::ext_equal]
pub struct ContextS {
    pub table: Map<Seq<char>, ExprS>,
    pub parent: Option<int>,
}

/// The models of a sequence of names.
pub open spec fn strs_view(names: Seq<String>) -> Seq<Seq<char>> {
    Seq::new(names.len(), |i: int| names[i]@)
}

/// The model of a procedure value.
pub open spec fn func_view(f: Func) -> FuncS
    decreases f,
{
    match f {
        Func::Builtin(b) => FuncS::Builtin(b),
        Func::Lambda(formals, body) => FuncS::Lambda(
            strs_view(formals@),
            Box::new(expr_view(*body)),
        ),
    }
}

/// The model of an atom.
pub open spec fn atom_view(a: Atom) -> AtomS
    decreases a,
{
    match a {
        Atom::Int(i) => AtomS::Int(i),
        Atom::Sym(s) => AtomS::Sym(s@),
        Atom::Fun(f) => AtomS::Fun(func_view(f)),
    }
}

/// The model of an expression tree.
pub open spec fn expr_view(e: Expr) -> ExprS
    decreases e,
{
    match e {
        Expr::Sexpr(items) => ExprS::Sexpr(exprs_view(items@)),
        Expr::Qexpr(inner) => ExprS::Qexpr(Box::new(expr_view(*inner))),
        Expr::Atom(a) => ExprS::Atom(atom_view(a)),
    }
}

/// The models of a sequence of expressions, element by element.
pub open spec fn exprs_view(items: Seq<Expr>) -> Seq<ExprS>
    decreases items,
{
    if items.len() == 0 {
        Seq::empty()
    } else {
        seq![expr_view(items[0])] + exprs_view(items.skip(1))
    }
}

impl View for Func {
    type V = FuncS;

    open spec fn view(&self) -> FuncS {
        func_view(*self)
    }
}

impl View for Atom {
    type V = AtomS;

    open spec fn view(&self) -> AtomS {
        atom_view(*self)
    }
}

impl View for Expr {
    type V = ExprS;

    open spec fn view(&self) -> ExprS {
        expr_view(*self)
    }
}

/// `exprs_view` is the element-wise model map.
pub proof fn lemma_exprs_view(items: Seq<Expr>)
    ensures
        exprs_view(items).len() == items.len(),
        forall|i: int| 0 <= i < items.len() ==> exprs_view(items)[i] == #[trigger] items[i]@,
    decreases items.len(),
{
    if items.len() == 0 {
        assert(exprs_view(items) == Seq::<ExprS>::empty());
    } else {
        lemma_exprs_view(items.skip(1));
        assert(exprs_view(items) == seq![items[0].view()] + exprs_view(items.skip(1)));
        assert forall|i: int| 0 <= i < items.len() implies exprs_view(items)[i] == #[trigger] items[i]@ by {
            if i > 0 {
                assert(items.skip(1)[i - 1] == items[i]);
            }
        }
    }
}

impl View for Error {
    type V = ErrorS;

    open spec fn view(&self) -> ErrorS {
        match self {
            Error::Runtime(m) => ErrorS::Runtime(m@),
            Error::ZeroDivision => ErrorS::ZeroDivision,
            Error::NameResolution(m) => ErrorS::NameResolution(m@),
            Error::InvalidType(m) => ErrorS::InvalidType(m@),
            Error::Arity(m) => ErrorS::Arity(m@),
        }
    }
}

/// On a nonempty sequence, the model map commutes with taking the first
/// element and the rest.
pub proof fn lemma_exprs_view_first(items: Seq<Expr>)
    requires
        items.len() > 0,
    ensures
        exprs_view(items).len() == items.len(),
        exprs_view(items)[0] == items[0]@,
        exprs_view(items).skip(1) == exprs_view(items.skip(1)),
{
    lemma_exprs_view(items);
    lemma_exprs_view(items.skip(1));
    assert forall|k: int| 0 <= k < items.len() - 1 implies exprs_view(items).skip(1)[k]
        == exprs_view(items.skip(1))[k] by {
        assert(exprs_view(items).skip(1)[k] == exprs_view(items)[k + 1]);
        assert(items.skip(1)[k] == items[k + 1]);
    }
    assert(exprs_view(items).skip(1) =~= exprs_view(items.skip(1)));
}

/// The binding map described by an association list: the earliest entry for
/// a name shadows any later one.
pub open spec fn assoc_map(t: Seq<(String, Expr)>) -> Map<Seq<char>, ExprS>
    decreases t.len(),
{
    if t.len() == 0 {
        Map::empty()
    } else {
        assoc_map(t.skip(1)).insert(t[0].0@, t[0].1@)
    }
}

impl View for Context {
    type V = ContextS;

    open spec fn view(&self) -> ContextS {
        ContextS {
            table: assoc_map(self.table@),
            parent: match self.parent {
                Some(p) => Some(p as int),
                None => None,
            },
        }
    }
}

impl View for Arena {
    type V = Seq<ContextS>;

    open spec fn view(&self) -> Seq<ContextS> {
        Seq::new(self.scopes@.len(), |i: int| self.scopes@[i].view())
    }
}

/// The model of an `Option`al expression.
pub open spec fn opt_view(r: Option<Expr>) -> Option<ExprS> {
    match r {
        Some(e) => Some(e@),
        None => None,
    }
}

/// The model of an evaluation outcome.
pub open spec fn res_view(r: Result<Expr, Error>) -> Result<ExprS, ErrorS> {
    match r {
        Ok(e) => Ok(e@),
        Err(e) => Err(e@),
    }
}

/// An entry whose name no earlier entry shadows gives the binding in force.
proof fn lemma_assoc_first(t: Seq<(String, Expr)>, j: int, k: Seq<char>)
    requires
        0 <= j < t.len(),
        t[j].0@ == k,
        forall|i: int| 0 <= i < j ==> t[i].0@ != k,
    ensures
        assoc_map(t).contains_key(k),
        assoc_map(t)[k] == t[j].1@,
    decreases j,
{
    if j == 0 {
        assert(assoc_map(t) == assoc_map(t.skip(1)).insert(t[0].0@, t[0].1@));
    } else {
        assert(t.skip(1)[j - 1] == t[j]);
        assert forall|i: int| 0 <= i < j - 1 implies t.skip(1)[i].0@ != k by {
            assert(t.skip(1)[i] == t[i + 1]);
        }
        lemma_assoc_first(t.skip(1), j - 1, k);
        assert(assoc_map(t) == assoc_map(t.skip(1)).insert(t[0].0@, t[0].1@));
    }
}

/// A name no entry carries is not bound.
proof fn lemma_assoc_absent(t: Seq<(String, Expr)>, k: Seq<char>)
    requires
        forall|i: int| 0 <= i < t.len() ==> t[i].0@ != k,
    ensures
        !assoc_map(t).contains_key(k),
    decreases t.len(),
{
    if t.len() > 0 {
        assert forall|i: int| 0 <= i < t.skip(1).len() implies t.skip(1)[i].0@ != k by {
            assert(t.skip(1)[i] == t[i + 1]);
        }
        lemma_assoc_absent(t.skip(1), k);
        assert(assoc_map(t) == assoc_map(t.skip(1)).insert(t[0].0@, t[0].1@));
    }
}

/// Replacing the binding entry in force rebinds exactly that name.
proof fn lemma_assoc_replace(t: Seq<(String, Expr)>, j: int, p: (String, Expr))
    requires
        0 <= j < t.len(),
        t[j].0@ == p.0@,
        forall|i: int| 0 <= i < j ==> t[i].0@ != p.0@,
    ensures
        assoc_map(t.update(j, p)) == assoc_map(t).insert(p.0@, p.1@),
    decreases j,
{
    let k = p.0@;
    if j == 0 {
        assert(t.update(0, p).skip(1) =~= t.skip(1));
        assert(assoc_map(t.update(0, p)) == assoc_map(t.skip(1)).insert(k, p.1@));
        assert(assoc_map(t) == assoc_map(t.skip(1)).insert(k, t[0].1@));
        assert(assoc_map(t.skip(1)).insert(k, t[0].1@).insert(k, p.1@) =~= assoc_map(
            t.skip(1),
        ).insert(k, p.1@));
    } else {
        assert(t.update(j, p).skip(1) =~= t.skip(1).update(j - 1, p));
        assert(t.skip(1)[j - 1] == t[j]);
        assert forall|i: int| 0 <= i < j - 1 implies t.skip(1)[i].0@ != k by {
            assert(t.skip(1)[i] == t[i + 1]);
        }
        lemma_assoc_replace(t.skip(1), j - 1, p);
        assert(t.update(j, p)[0] == t[0]);
        assert(assoc_map(t.update(j, p)) == assoc_map(t.skip(1).update(j - 1, p)).insert(
            t[0].0@,
            t[0].1@,
        ));
        assert(assoc_map(t) == assoc_map(t.skip(1)).insert(t[0].0@, t[0].1@));
        assert(assoc_map(t.skip(1)).insert(k, p.1@).insert(t[0].0@, t[0].1@) =~= assoc_map(
            t.skip(1),
        ).insert(t[0].0@, t[0].1@).insert(k, p.1@));
    }
}

/// Appending an entry for a fresh name binds exactly that name.
proof fn lemma_assoc_push(t: Seq<(String, Expr)>, p: (String, Expr))
    requires
        forall|i: int| 0 <= i < t.len() ==> t[i].0@ != p.0@,
    ensures
        assoc_map(t.push(p)) == assoc_map(t).insert(p.0@, p.1@),
    decreases t.len(),
{
    let k = p.0@;
    if t.len() == 0 {
        assert(t.push(p)[0] == p);
        assert(t.push(p).skip(1) =~= Seq::<(String, Expr)>::empty());
        assert(assoc_map(t.push(p)) == assoc_map(t.push(p).skip(1)).insert(k, p.1@));
        assert(assoc_map(t) =~= Map::<Seq<char>, ExprS>::empty());
    } else {
        assert(t.push(p).skip(1) =~= t.skip(1).push(p));
        assert forall|i: int| 0 <= i < t.skip(1).len() implies t.skip(1)[i].0@ != k by {
            assert(t.skip(1)[i] == t[i + 1]);
        }
        lemma_assoc_push(t.skip(1), p);
        assert(t.push(p)[0] == t[0]);
        assert(assoc_map(t.push(p)) == assoc_map(t.skip(1).push(p)).insert(t[0].0@, t[0].1@));
        assert(assoc_map(t) == assoc_map(t.skip(1)).insert(t[0].0@, t[0].1@));
        assert(assoc_map(t.skip(1)).insert(k, p.1@).insert(t[0].0@, t[0].1@) =~= assoc_map(
            t.skip(1),
        ).insert(t[0].0@, t[0].1@).insert(k, p.1@));
    }
}

/// Duplicates a procedure value.
#[verifier::loop_isolation(false)]
fn clone_func(f: &Func) -> (r: Func)
    ensures
        func_view(r) == func_view(*f),
    decreases f,
{
    match f {
        Func::Builtin(b) => Func::Builtin(*b),
        Func::Lambda(formals, body) => {
            let mut names: Vec<String> = Vec::new();
            let n = formals.len();
            let mut i: usize = 0;
            while i < n
                invariant
                    i <= n,
                    names@.len() == i,
                    forall|k: int| 0 <= k < i ==> names@[k]@ == formals@[k]@,
                decreases n - i,
            {
                names.push(formals[i].clone());
                i = i + 1;
            }
            let body2 = Box::new(clone_expr(&**body));
            proof {
                assert(strs_view(names@) =~= strs_view(formals@));
            }
            Func::Lambda(names, body2)
        },
    }
}

/// Duplicates an atom.
fn clone_atom(a: &Atom) -> (r: Atom)
    ensures
        atom_view(r) == atom_view(*a),
    decreases a,
{
    match a {
        Atom::Int(i) => Atom::Int(*i),
        Atom::Sym(s) => Atom::Sym(s.clone()),
        Atom::Fun(f) => Atom::Fun(clone_func(f)),
    }
}

/// Duplicates an expression tree.
#[verifier::loop_isolation(false)]
fn clone_expr(e: &Expr) -> (r: Expr)
    ensures
        expr_view(r) == expr_view(*e),
    decreases e,
{
    match e {
        Expr::Atom(a) => Expr::Atom(clone_atom(a)),
        Expr::Qexpr(inner) => Expr::Qexpr(Box::new(clone_expr(&**inner))),
        Expr::Sexpr(items) => {
            let mut out: Vec<Expr> = Vec::new();
            let n = items.len();
            let mut i: usize = 0;
            while i < n
                invariant
                    i <= n,
                    out@.len() == i,
                    forall|k: int| 0 <= k < i ==> expr_view(out@[k]) == expr_view(items@[k]),
                decreases n - i,
            {
                out.push(clone_expr(&items[i]));
                i = i + 1;
            }
            proof {
                lemma_exprs_view(out@);
                lemma_exprs_view(items@);
                assert(exprs_view(out@).len() == exprs_view(items@).len());
                assert forall|k: int| 0 <= k < n implies exprs_view(out@)[k] == exprs_view(
                    items@,
                )[k] by {
                    assert(exprs_view(out@)[k] == out@[k]@);
                    assert(out@[k]@ == expr_view(out@[k]));
                    assert(expr_view(out@[k]) == expr_view(items@[k]));
                    assert(exprs_view(items@)[k] == items@[k]@);
                }
                assert(exprs_view(out@) =~= exprs_view(items@));
            }
            Expr::Sexpr(out)
        },
    }
}

/// Binds `name` to `val` in this scope's own table — never in a parent —
/// overwriting the binding in force if the name is already bound.
#[verifier::loop_isolation(false)]
pub(crate) fn insert_binding(scope: &mut Context, name: String, val: Expr)
    ensures
        final(scope)@.table == old(scope)@.table.insert(name@, val@),
        final(scope)@.parent == old(scope)@.parent,
{
    let ghost entry = (name, val);
    let n = scope.table.len();
    let mut j: usize = 0;
    while j < n
        invariant
            j <= n,
            *scope == *old(scope),
            forall|i: int| 0 <= i < j ==> scope.table@[i].0@ != name@,
        decreases n - j,
    {
        if scope.table[j].0 == name {
            scope.table[j] = (name, val);
            proof {
                lemma_assoc_replace(old(scope).table@, j as int, entry);
                assert(scope.table@ =~= old(scope).table@.update(j as int, entry));
            }
            return;
        }
        j = j + 1;
    }
    scope.table.push((name, val));
    proof {
        lemma_assoc_push(old(scope).table@, entry);
    }
}

/// The binding for `name` in this one scope's table, if any, without
/// consulting the parent chain.
#[verifier::loop_isolation(false)]
fn lookup_local(scope: &Context, name: &String) -> (r: Option<Expr>)
    ensures
        match r {
            Some(v) => scope@.table.contains_key(name@) && v@ == scope@.table[name@],
            None => !scope@.table.contains_key(name@),
        },
{
    let n = scope.table.len();
    let mut j: usize = 0;
    while j < n
        invariant
            j <= n,
            forall|i: int| 0 <= i < j ==> scope.table@[i].0@ != name@,
        decreases n - j,
    {
        if scope.table[j].0 == *name {
            let v = clone_expr(&scope.table[j].1);
            proof {
                lemma_assoc_first(scope.table@, j as int, name@);
            }
            return Some(v);
        }
        j = j + 1;
    }
    proof {
        lemma_assoc_absent(scope.table@, name@);
    }
    None
}

/// Resolves `name` starting at scope `cur` and walking the parent chain;
/// the innermost binding wins. Parent links always point to earlier scopes,
/// so the walk ends; a link that does not is treated as a miss.
fn lookup(name: &String, arena: &Arena, cur: usize) -> (r: Option<Expr>)
    ensures
        opt_view(r) == crate::semantics::lookup_spec(arena@, cur as int, name@),
    decreases cur,
{
    if cur >= arena.scopes.len() {
        return None;
    }
    match lookup_local(&arena.scopes[cur], name) {
        Some(v) => Some(v),
        None => match arena.scopes[cur].parent {
            Some(p) => if p < cur {
                lookup(name, arena, p)
            } else {
                None
            },
            None => None,
        },
    }
}

/// The model of the global scope: the ten builtin bindings and no parent.
pub open spec fn global_env_spec() -> ContextS {
    ContextS { table: global_table_spec(), parent: None }
}

/// The global bindings: each operator name bound to its native procedure.
pub open spec fn global_table_spec() -> Map<Seq<char>, ExprS> {
    Map::empty()
        .insert(("+")@, ExprS::Atom(AtomS::Fun(FuncS::Builtin(Builtin::Add))))
        .insert(("-")@, ExprS::Atom(AtomS::Fun(FuncS::Builtin(Builtin::Sub))))
        .insert(("*")@, ExprS::Atom(AtomS::Fun(FuncS::Builtin(Builtin::Mul))))
        .insert(("/")@, ExprS::Atom(AtomS::Fun(FuncS::Builtin(Builtin::Div))))
        .insert(("def")@, ExprS::Atom(AtomS::Fun(FuncS::Builtin(Builtin::Def))))
        .insert(("list")@, ExprS::Atom(AtomS::Fun(FuncS::Builtin(Builtin::List))))
        .insert(("tail")@, ExprS::Atom(AtomS::Fun(FuncS::Builtin(Builtin::Tail))))
        .insert(("head")@, ExprS::Atom(AtomS::Fun(FuncS::Builtin(Builtin::Head))))
        .insert(("eval")@, ExprS::Atom(AtomS::Fun(FuncS::Builtin(Builtin::Eval))))
        .insert(("lambda")@, ExprS::Atom(AtomS::Fun(FuncS::Builtin(Builtin::Lambda))))
}

/// A native procedure as a value.
fn builtin_val(b: Builtin) -> (r: Expr)
    ensures
        r@ == ExprS::Atom(AtomS::Fun(FuncS::Builtin(b))),
{
    proof {
        reveal_with_fuel(expr_view, 4);
    }
    Expr::Atom(Atom::Fun(Func::Builtin(b)))
}

impl Context {
    /// The global scope: no parent, and the table pre-loaded with the
    /// builtin procedure bindings.
    pub fn global() -> (r: Context)
        ensures
            r@ == global_env_spec(),
    {
        let mut scope = Context { table: Vec::new(), parent: None };
        proof {
            assert(scope@.table =~= Map::<Seq<char>, ExprS>::empty());
        }
        insert_binding(&mut scope, String::from_str("+"), builtin_val(Builtin::Add));
        insert_binding(&mut scope, String::from_str("-"), builtin_val(Builtin::Sub));
        insert_binding(&mut scope, String::from_str("*"), builtin_val(Builtin::Mul));
        insert_binding(&mut scope, String::from_str("/"), builtin_val(Builtin::Div));
        insert_binding(&mut scope, String::from_str("def"), builtin_val(Builtin::Def));
        insert_binding(&mut scope, String::from_str("list"), builtin_val(Builtin::List));
        insert_binding(&mut scope, String::from_str("tail"), builtin_val(Builtin::Tail));
        insert_binding(&mut scope, String::from_str("head"), builtin_val(Builtin::Head));
        insert_binding(&mut scope, String::from_str("eval"), builtin_val(Builtin::Eval));
        insert_binding(&mut scope, String::from_str("lambda"), builtin_val(Builtin::Lambda));
        proof {
            assert(scope@ =~= global_env_spec());
        }
        scope
    }
}

impl Arena {
    /// A fresh arena holding the global scope alone, at index 0.
    pub fn global() -> (r: Arena)
        ensures
            r@ == seq![global_env_spec()],
    {
        let a = Arena { scopes: vec![Context::global()] };
        proof {
            assert(a@ =~= seq![global_env_spec()]);
        }
        a
    }
}

/// A new scope for a closure call: requires exactly as many arguments as
/// formals, pairs them by position, and chains the scope to the caller's.
#[verifier::loop_isolation(false)]
fn bind(formals: Vec<String>, args: Vec<Expr>, parent: usize) -> (r: Result<Context, Error>)
    ensures
        match r {
            Ok(scope) => crate::semantics::bind_spec(
                strs_view(formals@),
                exprs_view(args@),
                parent as int,
            ) == Ok::<ContextS, ErrorS>(scope@),
            Err(e) => crate::semantics::bind_spec(
                strs_view(formals@),
                exprs_view(args@),
                parent as int,
            ) == Err::<ContextS, ErrorS>(e@),
        },
{
    if formals.len() != args.len() {
        proof {
            crate::lisp::lemma_exprs_view(args@);
        }
        return Err(crate::render::expected_args_err(formals.len(), args.len()));
    }
    let mut scope = Context { table: Vec::new(), parent: Some(parent) };
    proof {
        assert(scope@.table =~= Map::<Seq<char>, ExprS>::empty());
        lemma_exprs_view(args@);
    }
    let n = formals.len();
    let mut i: usize = 0;
    while i < n
        invariant
            i <= n,
            scope@.parent == Some(parent as int),
            scope@.table == crate::semantics::zip_bindings(
                strs_view(formals@.take(i as int)),
                exprs_view(args@.take(i as int)),
            ),
        decreases n - i,
    {
        let name = formals[i].clone();
        let val = clone_expr(&args[i]);
        insert_binding(&mut scope, name, val);
        proof {
            let fv1 = strs_view(formals@.take(i + 1 as int));
            let av1 = exprs_view(args@.take(i + 1 as int));
            lemma_exprs_view(args@.take(i as int));
            lemma_exprs_view(args@.take(i + 1 as int));
            assert(fv1.drop_last() =~= strs_view(formals@.take(i as int)));
            assert forall|k: int| 0 <= k < i implies av1[k] == exprs_view(
                args@.take(i as int),
            )[k] by {
                assert(av1[k] == args@.take(i + 1 as int)[k]@);
                assert(args@.take(i + 1 as int)[k] == args@[k]);
                assert(exprs_view(args@.take(i as int))[k] == args@.take(i as int)[k]@);
                assert(args@.take(i as int)[k] == args@[k]);
            }
            assert(av1.drop_last() =~= exprs_view(args@.take(i as int)));
            assert(fv1.last() == formals@[i as int]@);
            assert(av1.last() == args@.take(i + 1 as int)[i as int]@);
            assert(args@.take(i + 1 as int)[i as int] == args@[i as int]);
            assert(args@[i as int]@ == expr_view(args@[i as int]));
            assert(scope@.table == crate::semantics::zip_bindings(fv1, av1));
        }
        i = i + 1;
    }
    proof {
        assert(formals@.take(n as int) =~= formals@);
        assert(args@.take(n as int) =~= args@);
        assert(strs_view(formals@).len() == exprs_view(args@).len());
    }
    Ok(scope)
}

/// Evaluates an atom: a symbol resolves through the scope chain starting at
/// `cur` or fails name resolution; integers and procedures are
/// self-evaluating.
pub fn atom(a: Atom, arena: &Arena, cur: usize) -> (r: Result<Expr, Error>)
    ensures
        res_view(r) == crate::semantics::atom_spec(a@, arena@, cur as int),
{
    match a {
        Atom::Sym(name) => match lookup(&name, arena, cur) {
            Some(v) => Ok(v),
            None => Err(Error::NameResolution(name)),
        },
        other => {
            proof {
                reveal_with_fuel(expr_view, 2);
            }
            Ok(Expr::Atom(other))
        },
    }
}

/// Evaluates every expression of a list from the left; the first failure
/// aborts the rest and is returned, and no partial results are kept.
#[verifier::loop_isolation(false)]
fn eval_all(items: Vec<Expr>, a: &mut Arena, cur: usize, fuel: u64) -> (r: Result<Vec<Expr>, Error>)
    requires
        cur < old(a)@.len(),
    ensures
        ({
            let (out, s2) = crate::semantics::eval_all_spec(
                exprs_view(items@),
                old(a)@,
                cur as int,
                fuel as nat,
            );
            final(a)@ == s2 && match (r, out) {
                (Ok(v), Ok(vs)) => exprs_view(v@) == vs,
                (Err(e), Err(es)) => e@ == es,
                _ => false,
            }
        }),
        final(a)@.len() >= old(a)@.len(),
    decreases fuel, 1nat, 0nat,
{
    let ghost vs0 = exprs_view(items@);
    let ghost s0 = a@;
    proof {
        lemma_exprs_view(items@);
    }
    let mut rest = items;
    let mut done: Vec<Expr> = Vec::new();
    while rest.len() > 0
        invariant
            cur < a@.len(),
            a@.len() >= s0.len(),
            ({
                let (out, s2) = crate::semantics::eval_all_spec(vs0, s0, cur as int, fuel as nat);
                match crate::semantics::eval_all_spec(
                    exprs_view(rest@),
                    a@,
                    cur as int,
                    fuel as nat,
                ) {
                    (Ok(tailvs), s3) => out == Ok::<Seq<ExprS>, ErrorS>(
                        exprs_view(done@) + tailvs,
                    ) && s2 == s3,
                    (Err(e), s3) => out == Err::<Seq<ExprS>, ErrorS>(e) && s2 == s3,
                }
            }),
        decreases rest@.len(),
    {
        let ghost rpre = rest@;
        let ghost dpre = done@;
        let ghost spre = a@;
        let e = rest.remove(0);
        proof {
            assert(rest@ =~= rpre.skip(1));
            lemma_exprs_view_first(rpre);
        }
        match eval(e, a, cur, fuel) {
            Ok(v) => {
                done.push(v);
                proof {
                    assert(done@ =~= dpre.push(v));
                    lemma_exprs_view(dpre);
                    lemma_exprs_view(done@);
                    assert forall|k: int| 0 <= k < done@.len() implies exprs_view(done@)[k]
                        == exprs_view(dpre).push(v@)[k] by {
                        assert(exprs_view(done@)[k] == done@[k]@);
                        if k < dpre.len() {
                            assert(done@[k] == dpre[k]);
                            assert(exprs_view(dpre)[k] == dpre[k]@);
                            assert(exprs_view(dpre).push(v@)[k] == exprs_view(dpre)[k]);
                        } else {
                            assert(done@[k] == v);
                            assert(exprs_view(dpre).push(v@)[k] == v@);
                        }
                    }
                    assert(exprs_view(done@) =~= exprs_view(dpre).push(v@));
                    let (tr, ts) = crate::semantics::eval_all_spec(
                        exprs_view(rest@),
                        a@,
                        cur as int,
                        fuel as nat,
                    );
                    match tr {
                        Ok(tailvs) => {
                            assert(exprs_view(dpre) + (seq![v@] + tailvs) =~= exprs_view(done@)
                                + tailvs);
                        },
                        Err(_) => {},
                    }
                }
            },
            Err(e2) => {
                return Err(e2);
            },
        }
    }
    proof {
        assert(exprs_view(rest@) =~= Seq::<ExprS>::empty());
        assert(exprs_view(done@) + Seq::<ExprS>::empty() =~= exprs_view(done@));
    }
    Ok(done)
}

/// Evaluates an application list: every item is evaluated from the left; an
/// empty list yields itself; otherwise the first value must be a procedure
/// atom and is applied to the rest.
#[verifier::loop_isolation(false)]
pub fn sexpr(l: Vec<Expr>, a: &mut Arena, cur: usize, fuel: u64) -> (r: Result<Expr, Error>)
    requires
        cur < old(a)@.len(),
    ensures
        ({
            let (out, s2) = crate::semantics::sexpr_spec(
                exprs_view(l@),
                old(a)@,
                cur as int,
                fuel as nat,
            );
            res_view(r) == out && final(a)@ == s2
        }),
        final(a)@.len() >= old(a)@.len(),
    decreases fuel, 3nat, 0nat,
{
    let mut vs = match eval_all(l, a, cur, fuel) {
        Ok(v) => v,
        Err(e) => {
            return Err(e);
        },
    };
    if vs.len() == 0 {
        proof {
            reveal_with_fuel(expr_view, 2);
            assert(exprs_view(vs@) =~= Seq::<ExprS>::empty());
        }
        return Ok(Expr::Sexpr(Vec::new()));
    }
    let ghost vpre = vs@;
    proof {
        lemma_exprs_view_first(vpre);
    }
    let first = vs.remove(0);
    proof {
        assert(vs@ =~= vpre.skip(1));
        assert(exprs_view(vs@) == exprs_view(vpre).skip(1));
        reveal_with_fuel(expr_view, 2);
    }
    match first {
        Expr::Atom(a0) => call(a0, vs, a, cur, fuel),
        other => Err(crate::render::not_a_function_err(&other)),
    }
}

/// Applies an already-evaluated head to already-evaluated arguments: a
/// native procedure dispatches on its tag, a closure binds its formals in a
/// fresh scope chained to the calling scope and evaluates its body there,
/// and anything else is a type error naming the value.
fn call(fun: Atom, xs: Vec<Expr>, a: &mut Arena, cur: usize, fuel: u64) -> (r: Result<Expr, Error>)
    requires
        cur < old(a)@.len(),
    ensures
        ({
            let (out, s2) = crate::semantics::call_spec(
                fun@,
                exprs_view(xs@),
                old(a)@,
                cur as int,
                fuel as nat,
            );
            res_view(r) == out && final(a)@ == s2
        }),
        final(a)@.len() >= old(a)@.len(),
    decreases fuel, 2nat, 0nat,
{
    proof {
        reveal_with_fuel(atom_view, 2);
    }
    match fun {
        Atom::Fun(Func::Builtin(b)) => match b {
            Builtin::Add => crate::builtin::add(xs),
            Builtin::Sub => crate::builtin::sub(xs),
            Builtin::Mul => crate::builtin::mul(xs),
            Builtin::Div => crate::builtin::div(xs),
            Builtin::List => crate::builtin::list(xs),
            Builtin::Head => crate::builtin::head(xs),
            Builtin::Tail => crate::builtin::tail(xs),
            Builtin::Lambda => crate::builtin::lambda(xs),
            Builtin::Def => crate::builtin::def(xs, a, cur),
            Builtin::Eval => crate::builtin::eval(xs, a, cur, fuel),
        },
        Atom::Fun(Func::Lambda(formals, body)) => match bind(formals, xs, cur) {
            Ok(scope) => {
                let idx = a.scopes.len();
                a.scopes.push(scope);
                proof {
                    assert(a@ =~= old(a)@.push(a@[idx as int]));
                }
                eval(*body, a, idx, fuel)
            },
            Err(e) => Err(e),
        },
        other => {
            proof {
                reveal_with_fuel(expr_view, 2);
            }
            let ex = Expr::Atom(other);
            Err(crate::render::not_a_function_err(&ex))
        },
    }
}

/// Evaluates one expression against the scope `cur` of `arena`. A quoted
/// expression yields its inner expression; an atom resolves or
/// self-evaluates; a list is an application. Each nested application
/// consumes one unit of `fuel`: an expression nested more deeply than the
/// fuel allows fails with the depth error, which stands in for the
/// exhaustion of the call stack that unbounded recursion would reach.
pub fn eval(e: Expr, a: &mut Arena, cur: usize, fuel: u64) -> (r: Result<Expr, Error>)
    requires
        cur < old(a)@.len(),
    ensures
        ({
            let (out, s2) = crate::semantics::eval_spec(e@, old(a)@, cur as int, fuel as nat);
            res_view(r) == out && final(a)@ == s2
        }),
        final(a)@.len() >= old(a)@.len(),
    decreases fuel, 0nat, 0nat,
{
    proof {
        reveal_with_fuel(expr_view, 2);
    }
    match e {
        Expr::Atom(at) => atom(at, a, cur),
        Expr::Qexpr(inner) => Ok(*inner),
        Expr::Sexpr(items) => {
            if fuel == 0 {
                Err(Error::Runtime(String::from_str("evaluation depth limit exceeded")))
            } else {
                sexpr(items, a, cur, fuel - 1)
            }
        },
    }
}

impl Clone for Expr {
    /// Duplicates the tree; the copy has the same model.
    fn clone(&self) -> (r: Self)
        ensures
            r@ == self@,
    {
        clone_expr(self)
    }
}

impl Clone for Atom {
    /// Duplicates the atom; the copy has the same model.
    fn clone(&self) -> (r: Self)
        ensures
            r@ == self@,
    {
        clone_atom(self)
    }
}

impl Clone for Func {
    /// Duplicates the procedure value; the copy has the same model.
    fn clone(&self) -> (r: Self)
        ensures
            r@ == self@,
    {
        clone_func(self)
    }
}

} // verus!

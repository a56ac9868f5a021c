//! The text of a single call: what a call of a candidate turns into.

use crate::copy::copy_stmts;
use crate::hir::{Expr, FuncId, Function, LocalId, Param, Stmt};
use crate::inline::candidate::{bound_ids, collect_body_local_ids, is_trivial, is_trivial_expr};
use crate::inline::subst::{
    substitute_locals, substitute_locals_in_stmts, substitute_this, substitute_this_in_stmts,
};
use crate::model::{
    exprs_view, params_view, stmts_view, ExprView, FunctionView, ParamView, StmtView,
};
use crate::rewrite::{exprs_map, remap, rewrite_expr, rewrite_stmts, Rewrite};
use crate::shape::{find_member_of_local, member_of_local};
use crate::text::str_eq;
use std::collections::HashMap;
use vstd::prelude::*;

verus! {

broadcast use vstd::std_specs::hash::group_hash_axioms;

// ---------------------------------------------------------------------------
// Candidates and callees
// ---------------------------------------------------------------------------

/// The functions, and the methods with their classes, that may be inlined.
pub struct CandidatesView {
    pub funcs: Map<FuncId, FunctionView>,
    pub methods: Seq<(Seq<char>, FunctionView)>,
}

/// The method of the class; of several, the last.
pub open spec fn find_method(
    methods: Seq<(Seq<char>, FunctionView)>,
    class: Seq<char>,
    name: Seq<char>,
) -> Option<FunctionView>
    decreases methods.len(),
{
    if methods.len() == 0 {
        None
    } else if methods.last().0 == class && methods.last().1.name == name {
        Some(methods.last().1)
    } else {
        find_method(methods.drop_last(), class, name)
    }
}

/// What a call calls, as far as it can be inlined.
pub enum CalleeView {
    Function(FunctionView),
    /// A method, on the object in the variable.
    Method(LocalId, FunctionView),
}

/// The candidate that `e` calls: a function by its reference, or a method on a
/// variable whose class is known.
pub open spec fn callee_of(
    e: ExprView,
    c: CandidatesView,
    types: Map<LocalId, Seq<char>>,
) -> Option<CalleeView> {
    match e {
        ExprView::Call { callee, .. } => match *callee {
            ExprView::FuncRef(id) => if c.funcs.contains_key(id) {
                Some(CalleeView::Function(c.funcs[id]))
            } else {
                None
            },
            _ => match member_of_local(*callee) {
                Some((obj, name)) => if types.contains_key(obj) {
                    match find_method(c.methods, types[obj], name) {
                        Some(f) => Some(CalleeView::Method(obj, f)),
                        None => None,
                    }
                } else {
                    None
                },
                None => None,
            },
        },
        _ => None,
    }
}

/// The arguments of a call.
pub open spec fn args_of(e: ExprView) -> Seq<ExprView> {
    match e {
        ExprView::Call { args, .. } => args,
        _ => Seq::empty(),
    }
}

// ---------------------------------------------------------------------------
// Binding of arguments
// ---------------------------------------------------------------------------

/// How many parameters get an argument.
pub open spec fn pairs(params: Seq<ParamView>, args: Seq<ExprView>) -> nat {
    if params.len() < args.len() {
        params.len()
    } else {
        args.len()
    }
}

/// The first `k` parameters mapped to their arguments.
pub open spec fn bind_args(params: Seq<ParamView>, args: Seq<ExprView>, k: nat) -> Map<
    LocalId,
    ExprView,
>
    decreases k,
{
    if k == 0 {
        Map::empty()
    } else {
        bind_args(params, args, (k - 1) as nat).insert(params[k - 1].id, args[k - 1])
    }
}

/// The first `k` parameters mapped to their arguments where those are trivial,
/// and otherwise to fresh variables, counted from `n`; and the count after that.
pub open spec fn bind_fresh(params: Seq<ParamView>, args: Seq<ExprView>, k: nat, n: nat) -> (
    Map<LocalId, ExprView>,
    nat,
)
    decreases k,
{
    if k == 0 {
        (Map::empty(), n)
    } else {
        let (m, n1) = bind_fresh(params, args, (k - 1) as nat, n);
        if is_trivial(args[k - 1]) {
            (m.insert(params[k - 1].id, args[k - 1]), n1)
        } else {
            (m.insert(params[k - 1].id, ExprView::LocalGet(n1 as LocalId)), n1 + 1)
        }
    }
}

/// The lets that evaluate the nontrivial ones of the first `k` arguments into the
/// variables that [`bind_fresh`] chooses.
pub open spec fn argument_lets(params: Seq<ParamView>, args: Seq<ExprView>, k: nat, n: nat) -> Seq<
    StmtView,
>
    decreases k,
{
    if k == 0 {
        Seq::empty()
    } else {
        let front = argument_lets(params, args, (k - 1) as nat, n);
        if is_trivial(args[k - 1]) {
            front
        } else {
            front.push(
                argument_let(
                    bind_fresh(params, args, (k - 1) as nat, n).1 as LocalId,
                    params[k - 1],
                    args[k - 1],
                ),
            )
        }
    }
}

/// `const id = arg`, named and typed like the parameter.
pub open spec fn argument_let(id: LocalId, p: ParamView, arg: ExprView) -> StmtView {
    StmtView::Let { id, name: p.name, ty: p.ty, mutable: false, init: Some(arg) }
}

/// The lets for the nontrivial ones of the first `k` arguments, into the variables
/// that the parameters are mapped to.
pub open spec fn mapped_lets(
    params: Seq<ParamView>,
    args: Seq<ExprView>,
    k: nat,
    m: Map<LocalId, ExprView>,
) -> Seq<StmtView>
    decreases k,
{
    if k == 0 {
        Seq::empty()
    } else {
        let front = mapped_lets(params, args, (k - 1) as nat, m);
        let p = params[k - 1];
        if !is_trivial(args[k - 1]) && m.contains_key(p.id) && m[p.id] is LocalGet {
            front.push(argument_let(remap(p.id, m), p, args[k - 1]))
        } else {
            front
        }
    }
}

/// The map extended by a fresh variable for each id that it does not map yet.
pub open spec fn rename_fresh(ids: Seq<LocalId>, m: Map<LocalId, ExprView>, n: nat) -> (
    Map<LocalId, ExprView>,
    nat,
)
    decreases ids.len(),
{
    if ids.len() == 0 {
        (m, n)
    } else {
        let (m1, n1) = rename_fresh(ids.drop_last(), m, n);
        if m1.contains_key(ids.last()) {
            (m1, n1)
        } else {
            (m1.insert(ids.last(), ExprView::LocalGet(n1 as LocalId)), n1 + 1)
        }
    }
}

/// The map for a call whose body keeps its variables: arguments and fresh names
/// for parameters, fresh names for the variables of the body.
pub open spec fn call_map(f: FunctionView, args: Seq<ExprView>, n: nat) -> (
    Map<LocalId, ExprView>,
    nat,
) {
    let (m, n1) = bind_fresh(f.params, args, pairs(f.params, args), n);
    rename_fresh(bound_ids(f.body), m, n1)
}

// ---------------------------------------------------------------------------
// Expansion inside an expression
// ---------------------------------------------------------------------------

/// Statements to run first, the expression that then stands for the call, and
/// the next free id.
pub struct SimpleView {
    pub setup: Seq<StmtView>,
    pub result: ExprView,
    pub next: nat,
}

/// Whether every statement is an immutable let with a value.
pub open spec fn all_const_lets(v: Seq<StmtView>) -> bool {
    forall|i: int| 0 <= i < v.len() ==> is_const_let(#[trigger] v[i])
}

pub open spec fn is_const_let(s: StmtView) -> bool {
    match s {
        StmtView::Let { mutable, init, .. } => !mutable && init is Some,
        _ => false,
    }
}

/// The value that the last statement of the body returns.
pub open spec fn last_return(v: Seq<StmtView>) -> Option<ExprView> {
    if v.len() == 0 {
        None
    } else {
        match v.last() {
            StmtView::Return(Some(e)) => Some(e),
            _ => None,
        }
    }
}

/// A function call as an expression: a single return gives its value with the
/// arguments put in; constant lets before it become statements to run first.
pub open spec fn simple_function(f: FunctionView, args: Seq<ExprView>, n: nat) -> Option<
    SimpleView,
> {
    match last_return(f.body) {
        Some(e) => if f.body.len() == 1 {
            let m = bind_args(f.params, args, pairs(f.params, args));
            Some(
                SimpleView {
                    setup: Seq::empty(),
                    result: rewrite_expr(e, Rewrite::Locals(m)),
                    next: n,
                },
            )
        } else if all_const_lets(f.body.drop_last()) {
            let (m, n1) = call_map(f, args, n);
            Some(
                SimpleView {
                    setup: mapped_lets(f.params, args, pairs(f.params, args), m)
                        + rewrite_stmts(f.body.drop_last(), Rewrite::Locals(m)),
                    result: rewrite_expr(e, Rewrite::Locals(m)),
                    next: n1,
                },
            )
        } else {
            None
        },
        None => None,
    }
}

/// The expression of a method body in the caller: arguments for parameters, the
/// receiver for `this`.
pub open spec fn method_expr(e: ExprView, m: Map<LocalId, ExprView>, obj: LocalId) -> ExprView {
    rewrite_expr(rewrite_expr(e, Rewrite::Locals(m)), Rewrite::This(obj))
}

/// The expression statements of a method that returns nothing, in the caller;
/// `None` where it has other statements.
pub open spec fn void_stmts(v: Seq<StmtView>, m: Map<LocalId, ExprView>, obj: LocalId) -> Option<
    Seq<StmtView>,
>
    decreases v.len(),
{
    if v.len() == 0 {
        Some(Seq::empty())
    } else {
        match void_stmts(v.drop_last(), m, obj) {
            Some(front) => match v.last() {
                StmtView::Return(None) => Some(front),
                StmtView::Expr(e) => Some(front.push(StmtView::Expr(method_expr(e, m, obj)))),
                _ => None,
            },
            None => None,
        }
    }
}

/// A method call as an expression: a single return gives its value; one or two
/// statements that return nothing are run first, and the value is undefined.
pub open spec fn simple_method(
    obj: LocalId,
    f: FunctionView,
    args: Seq<ExprView>,
    n: nat,
) -> Option<SimpleView> {
    let m = bind_args(f.params, args, pairs(f.params, args));
    if f.body.len() == 1 && last_return(f.body) is Some {
        Some(
            SimpleView {
                setup: Seq::empty(),
                result: method_expr(last_return(f.body)->0, m, obj),
                next: n,
            },
        )
    } else if f.body.len() <= 2 {
        match void_stmts(f.body, m, obj) {
            Some(setup) => if setup.len() > 0 {
                Some(SimpleView { setup, result: ExprView::Undefined, next: n })
            } else {
                None
            },
            None => None,
        }
    } else {
        None
    }
}

/// What the expression turns into, if it is a call that can be inlined inside an
/// expression.
pub open spec fn simple_call(
    e: ExprView,
    c: CandidatesView,
    types: Map<LocalId, Seq<char>>,
    n: nat,
) -> Option<SimpleView> {
    match callee_of(e, c, types) {
        Some(CalleeView::Function(f)) => simple_function(f, args_of(e), n),
        Some(CalleeView::Method(obj, f)) => simple_method(obj, f, args_of(e), n),
        None => None,
    }
}

// ---------------------------------------------------------------------------
// Expansion in place of a statement
// ---------------------------------------------------------------------------

/// The statements that a call turns into where its value is not used, and the
/// next free id.
pub open spec fn full_call(
    e: ExprView,
    c: CandidatesView,
    types: Map<LocalId, Seq<char>>,
    n: nat,
) -> Option<(Seq<StmtView>, nat)> {
    let args = args_of(e);
    match callee_of(e, c, types) {
        Some(CalleeView::Function(f)) => {
            let (m, n1) = call_map(f, args, n);
            Some(
                (
                    argument_lets(f.params, args, pairs(f.params, args), n) + rewrite_stmts(
                        f.body,
                        Rewrite::Locals(m),
                    ),
                    n1,
                ),
            )
        },
        Some(CalleeView::Method(obj, f)) => {
            let (m, n1) = call_map(f, args, n);
            Some(
                (
                    argument_lets(f.params, args, pairs(f.params, args), n) + rewrite_stmts(
                        rewrite_stmts(f.body, Rewrite::Locals(m)),
                        Rewrite::This(obj),
                    ),
                    n1,
                ),
            )
        },
        None => None,
    }
}

// ---------------------------------------------------------------------------
// Execution
// ---------------------------------------------------------------------------

/// A method that may be inlined, and its class.
pub struct MethodCandidate {
    pub class_name: String,
    pub func: Function,
}

/// The functions and methods that may be inlined.
pub struct Candidates<'a> {
    pub funcs: &'a HashMap<FuncId, Function>,
    pub methods: &'a Vec<MethodCandidate>,
}

pub open spec fn funcs_map(m: Map<FuncId, Function>) -> Map<FuncId, FunctionView> {
    Map::new(|id: FuncId| m.contains_key(id), |id: FuncId| m[id].view())
}

pub open spec fn methods_view(v: Seq<MethodCandidate>) -> Seq<(Seq<char>, FunctionView)> {
    v.map_values(|m: MethodCandidate| (m.class_name@, m.func.view()))
}

/// The classes of the variables.
pub open spec fn types_map(m: Map<LocalId, String>) -> Map<LocalId, Seq<char>> {
    Map::new(|id: LocalId| m.contains_key(id), |id: LocalId| m[id]@)
}

impl<'a> Candidates<'a> {
    pub open spec fn view(self) -> CandidatesView {
        CandidatesView { funcs: funcs_map(self.funcs@), methods: methods_view(self.methods@) }
    }
}

proof fn lemma_exprs_map_insert(m: Map<LocalId, Expr>, id: LocalId, e: Expr)
    ensures
        exprs_map(m.insert(id, e)) == exprs_map(m).insert(id, e.view()),
{
    assert(exprs_map(m.insert(id, e)) =~= exprs_map(m).insert(id, e.view()));
}

/// The candidate for a method of a class; of several, the last.
pub fn lookup_method<'a>(
    methods: &'a Vec<MethodCandidate>,
    class: &String,
    name: &String,
) -> (r: Option<&'a Function>)
    ensures
        (match r {
            Some(f) => Some(f@),
            None => None,
        }) == find_method(methods_view(methods@), class@, name@),
{
    let ghost all = methods_view(methods@);
    let mut i: usize = methods.len();
    assert(all.take(i as int) =~= all);
    while i > 0
        invariant
            i <= methods@.len(),
            all == methods_view(methods@),
            find_method(all, class@, name@) == find_method(all.take(i as int), class@, name@),
        decreases i,
    {
        let m: &MethodCandidate = &methods[i - 1];
        assert(all.take(i as int).last() == (m.class_name@, m.func.view()));
        assert(all.take(i as int).drop_last() =~= all.take(i - 1));
        if str_eq(&m.class_name, class) && str_eq(&m.func.name, name) {
            return Some(&m.func);
        }
        i -= 1;
    }
    None
}

/// What a call calls, as far as it can be inlined.
pub enum Callee<'a> {
    Function(&'a Function),
    Method(LocalId, &'a Function),
}

impl<'a> Callee<'a> {
    pub open spec fn view(self) -> CalleeView {
        match self {
            Callee::Function(f) => CalleeView::Function(f@),
            Callee::Method(obj, f) => CalleeView::Method(obj, f@),
        }
    }
}

pub open spec fn opt_callee_view(o: Option<Callee>) -> Option<CalleeView> {
    match o {
        Some(c) => Some(c.view()),
        None => None,
    }
}

fn func_ref_of(e: &Expr) -> (r: Option<FuncId>)
    ensures
        r == match e@ {
            ExprView::FuncRef(id) => Some(id),
            _ => None,
        },
{
    match e {
        Expr::FuncRef(id) => Some(*id),
        _ => None,
    }
}

fn find_callee<'a>(
    e: &Expr,
    c: &Candidates<'a>,
    types: &HashMap<LocalId, String>,
) -> (r: Option<Callee<'a>>)
    ensures
        opt_callee_view(r) == callee_of(e@, c@, types_map(types@)),
{
    match e {
        Expr::Call { callee, .. } => {
            match func_ref_of(callee) {
                Some(id) => {
                    return match c.funcs.get(&id) {
                        Some(f) => Some(Callee::Function(f)),
                        None => None,
                    };
                },
                None => {},
            }
            match find_member_of_local(callee) {
                Some((obj, name)) => match types.get(&obj) {
                    Some(class) => match lookup_method(c.methods, class, name) {
                        Some(f) => Some(Callee::Method(obj, f)),
                        None => None,
                    },
                    None => None,
                },
                None => None,
            }
        },
        _ => None,
    }
}

fn map_args(params: &Vec<Param>, args: &Vec<Expr>) -> (r: HashMap<LocalId, Expr>)
    ensures
        exprs_map(r@) == bind_args(
            params_view(params@),
            exprs_view(args@),
            pairs(params_view(params@), exprs_view(args@)),
        ),
{
    let ghost ps = params_view(params@);
    let ghost xs = exprs_view(args@);
    let mut m: HashMap<LocalId, Expr> = HashMap::new();
    assert(exprs_map(m@) =~= bind_args(ps, xs, 0));
    let mut k: usize = 0;
    while k < params.len() && k < args.len()
        invariant
            ps == params_view(params@),
            xs == exprs_view(args@),
            ps.len() == params@.len(),
            xs.len() == args@.len(),
            k <= params@.len(),
            k <= args@.len(),
            exprs_map(m@) == bind_args(ps, xs, k as nat),
        decreases params@.len() - k,
    {
        let arg: Expr = args[k].clone();
        proof {
            assert(ps[k as int].id == params@[k as int].id);
            assert(xs[k as int] == args@[k as int].view());
            lemma_exprs_map_insert(m@, params@[k as int].id, arg);
        }
        m.insert(params[k].id, arg);
        k += 1;
    }
    m
}

/// Binding more arguments takes more ids, not fewer.
pub proof fn lemma_bind_fresh_grows(
    params: Seq<ParamView>,
    args: Seq<ExprView>,
    j: nat,
    k: nat,
    n: nat,
)
    requires
        j <= k,
    ensures
        n <= bind_fresh(params, args, j, n).1 <= bind_fresh(params, args, k, n).1,
    decreases k,
{
    if j < k {
        lemma_bind_fresh_grows(params, args, j, (k - 1) as nat, n);
    } else if k > 0 {
        lemma_bind_fresh_grows(params, args, (k - 1) as nat, (k - 1) as nat, n);
    }
}

/// Renaming more variables takes more ids, not fewer.
pub proof fn lemma_rename_fresh_grows(
    ids: Seq<LocalId>,
    j: int,
    m: Map<LocalId, ExprView>,
    n: nat,
)
    requires
        0 <= j <= ids.len(),
    ensures
        n <= rename_fresh(ids.take(j), m, n).1 <= rename_fresh(ids, m, n).1,
    decreases ids.len(),
{
    if j < ids.len() {
        assert(ids.drop_last().take(j) =~= ids.take(j));
        lemma_rename_fresh_grows(ids.drop_last(), j, m, n);
    } else {
        assert(ids.take(j) =~= ids);
        if ids.len() > 0 {
            lemma_rename_fresh_grows(ids.drop_last(), ids.len() - 1, m, n);
            assert(ids.drop_last().take(ids.len() - 1) =~= ids.drop_last());
        }
    }
}

fn const_let(id: LocalId, p: &Param, arg: &Expr) -> (r: Stmt)
    ensures
        r@ == argument_let(id, p@, arg@),
{
    Stmt::Let {
        id,
        name: p.name.clone(),
        ty: p.ty.clone(),
        mutable: false,
        init: Some(arg.clone()),
    }
}

/// Maps the parameters to trivial arguments or to fresh variables. The result has
/// the map, the lets for the nontrivial arguments, and the next free id; there is
/// none where the ids run out.
fn map_fresh(params: &Vec<Param>, args: &Vec<Expr>, n: LocalId) -> (r: Option<
    (HashMap<LocalId, Expr>, Vec<Stmt>, LocalId),
>)
    ensures
        ({
            let ps = params_view(params@);
            let xs = exprs_view(args@);
            let k = pairs(ps, xs);
            let want = bind_fresh(ps, xs, k, n as nat);
            match r {
                Some((m, lets, n1)) => {
                    &&& want == (exprs_map(m@), n1 as nat)
                    &&& stmts_view(lets@) == argument_lets(ps, xs, k, n as nat)
                },
                None => want.1 > u32::MAX,
            }
        }),
{
    let ghost ps = params_view(params@);
    let ghost xs = exprs_view(args@);
    let mut m: HashMap<LocalId, Expr> = HashMap::new();
    let mut lets: Vec<Stmt> = Vec::new();
    let mut next: LocalId = n;
    assert(exprs_map(m@) =~= Map::empty());
    assert(stmts_view(lets@) =~= Seq::empty());
    let mut k: usize = 0;
    while k < params.len() && k < args.len()
        invariant
            ps == params_view(params@),
            xs == exprs_view(args@),
            ps.len() == params@.len(),
            xs.len() == args@.len(),
            k <= params@.len(),
            k <= args@.len(),
            bind_fresh(ps, xs, k as nat, n as nat) == (exprs_map(m@), next as nat),
            stmts_view(lets@) == argument_lets(ps, xs, k as nat, n as nat),
        decreases params@.len() - k,
    {
        let arg: &Expr = &args[k];
        let p: &Param = &params[k];
        assert(ps[k as int] == p@);
        assert(xs[k as int] == arg@);
        if is_trivial_expr(arg) {
            let x: Expr = arg.clone();
            proof {
                lemma_exprs_map_insert(m@, p.id, x);
            }
            m.insert(p.id, x);
        } else {
            if next == u32::MAX {
                proof {
                    lemma_bind_fresh_grows(ps, xs, (k + 1) as nat, pairs(ps, xs), n as nat);
                }
                return None;
            }
            let ghost before = stmts_view(lets@);
            lets.push(const_let(next, p, arg));
            assert(stmts_view(lets@) =~= before.push(argument_let(next, p@, arg@)));
            proof {
                lemma_exprs_map_insert(m@, p.id, Expr::LocalGet(next));
            }
            m.insert(p.id, Expr::LocalGet(next));
            next = next + 1;
        }
        k += 1;
    }
    Some((m, lets, next))
}

/// Maps each id that is not mapped yet to a fresh variable. The result is the
/// next free id; there is none where the ids run out.
fn add_fresh(ids: &Vec<LocalId>, m: &mut HashMap<LocalId, Expr>, n: LocalId) -> (r: Option<LocalId>)
    ensures
        ({
            let want = rename_fresh(ids@, exprs_map(old(m)@), n as nat);
            match r {
                Some(n1) => want == (exprs_map(final(m)@), n1 as nat),
                None => want.1 > u32::MAX,
            }
        }),
{
    let ghost start = exprs_map(m@);
    let mut next: LocalId = n;
    let mut i: usize = 0;
    while i < ids.len()
        invariant
            i <= ids@.len(),
            start == exprs_map(old(m)@),
            rename_fresh(ids@.take(i as int), start, n as nat) == (exprs_map(m@), next as nat),
        decreases ids@.len() - i,
    {
        let id: LocalId = ids[i];
        assert(ids@.take(i + 1).drop_last() =~= ids@.take(i as int));
        assert(ids@.take(i + 1).last() == id);
        if !m.contains_key(&id) {
            if next == u32::MAX {
                proof {
                    lemma_rename_fresh_grows(ids@, i + 1, start, n as nat);
                }
                return None;
            }
            proof {
                lemma_exprs_map_insert(m@, id, Expr::LocalGet(next));
            }
            m.insert(id, Expr::LocalGet(next));
            next = next + 1;
        }
        i += 1;
    }
    assert(ids@.take(i as int) =~= ids@);
    Some(next)
}

/// The outcome of an attempt to inline a call inside an expression.
pub enum Simple {
    /// The call stays.
    Kept,
    /// There are not enough ids left.
    OutOfIds,
    /// Statements to run first, the expression in place of the call, and the next
    /// free id.
    Inlined { setup: Vec<Stmt>, result: Expr, next: LocalId },
}

impl Simple {
    /// Whether this is the outcome for what the call turns into.
    pub open spec fn is_for(self, want: Option<SimpleView>) -> bool {
        match self {
            Simple::Kept => want is None,
            Simple::OutOfIds => want matches Some(v) && v.next > u32::MAX,
            Simple::Inlined { setup, result, next } => want == Some(
                SimpleView { setup: stmts_view(setup@), result: result@, next: next as nat },
            ),
        }
    }
}

fn find_last_return(v: &Vec<Stmt>) -> (r: Option<&Expr>)
    ensures
        (match r {
            Some(e) => Some(e@),
            None => None,
        }) == last_return(stmts_view(v@)),
{
    if v.len() == 0 {
        return None;
    }
    let s: &Stmt = &v[v.len() - 1];
    assert(stmts_view(v@).last() == s@);
    match s {
        Stmt::Return(Some(e)) => Some(e),
        _ => None,
    }
}

fn binds_const(s: &Stmt) -> (r: bool)
    ensures
        r == is_const_let(s@),
{
    match s {
        Stmt::Let { mutable, init, .. } => !*mutable && init.is_some(),
        _ => false,
    }
}

fn front_binds_consts(v: &Vec<Stmt>) -> (r: bool)
    requires
        v@.len() > 0,
    ensures
        r == all_const_lets(stmts_view(v@).drop_last()),
{
    let ghost front = stmts_view(v@).drop_last();
    let mut i: usize = 0;
    while i < v.len() - 1
        invariant
            v@.len() > 0,
            i <= v@.len() - 1,
            front == stmts_view(v@).drop_last(),
            forall|j: int| 0 <= j < i ==> is_const_let(#[trigger] front[j]),
        decreases v@.len() - i,
    {
        assert(front[i as int] == v@[i as int].view());
        if !binds_const(&v[i]) {
            return false;
        }
        i += 1;
    }
    true
}

fn lets_of_mapped(params: &Vec<Param>, args: &Vec<Expr>, m: &HashMap<LocalId, Expr>) -> (r: Vec<Stmt>)
    ensures
        stmts_view(r@) == mapped_lets(
            params_view(params@),
            exprs_view(args@),
            pairs(params_view(params@), exprs_view(args@)),
            exprs_map(m@),
        ),
{
    let ghost ps = params_view(params@);
    let ghost xs = exprs_view(args@);
    let mut lets: Vec<Stmt> = Vec::new();
    assert(stmts_view(lets@) =~= Seq::empty());
    let mut k: usize = 0;
    while k < params.len() && k < args.len()
        invariant
            ps == params_view(params@),
            xs == exprs_view(args@),
            ps.len() == params@.len(),
            xs.len() == args@.len(),
            k <= params@.len(),
            k <= args@.len(),
            stmts_view(lets@) == mapped_lets(ps, xs, k as nat, exprs_map(m@)),
        decreases params@.len() - k,
    {
        let arg: &Expr = &args[k];
        let p: &Param = &params[k];
        assert(ps[k as int] == p@);
        assert(xs[k as int] == arg@);
        if !is_trivial_expr(arg) {
            match m.get(&p.id) {
                Some(Expr::LocalGet(id)) => {
                    let ghost before = stmts_view(lets@);
                    lets.push(const_let(*id, p, arg));
                    assert(stmts_view(lets@) =~= before.push(argument_let(*id, p@, arg@)));
                },
                _ => {},
            }
        }
        k += 1;
    }
    lets
}

/// The map for a call whose body keeps its variables, with the lets for its
/// arguments and the next free id; there is none where the ids run out.
fn map_call(f: &Function, args: &Vec<Expr>, n: LocalId) -> (r: Option<
    (HashMap<LocalId, Expr>, Vec<Stmt>, LocalId),
>)
    ensures
        ({
            let xs = exprs_view(args@);
            let want = call_map(f@, xs, n as nat);
            match r {
                Some((m, lets, n1)) => {
                    &&& want == (exprs_map(m@), n1 as nat)
                    &&& stmts_view(lets@) == argument_lets(
                        f@.params,
                        xs,
                        pairs(f@.params, xs),
                        n as nat,
                    )
                },
                None => want.1 > u32::MAX,
            }
        }),
{
    let ids: Vec<LocalId> = collect_body_local_ids(&f.body);
    match map_fresh(&f.params, args, n) {
        Some((map, lets, n1)) => {
            let mut m: HashMap<LocalId, Expr> = map;
            match add_fresh(&ids, &mut m, n1) {
                Some(n2) => Some((m, lets, n2)),
                None => None,
            }
        },
        None => {
            proof {
                let ps = f@.params;
                let xs = exprs_view(args@);
                let (m1, n1) = bind_fresh(ps, xs, pairs(ps, xs), n as nat);
                lemma_rename_fresh_grows(ids@, 0, m1, n1);
            }
            None
        },
    }
}

fn inline_simple_function(f: &Function, args: &Vec<Expr>, n: LocalId) -> (r: Simple)
    ensures
        r.is_for(simple_function(f@, exprs_view(args@), n as nat)),
{
    let ghost xs = exprs_view(args@);
    let e: &Expr = match find_last_return(&f.body) {
        Some(e) => e,
        None => {
            return Simple::Kept;
        },
    };
    let mut result: Expr = e.clone();
    if f.body.len() == 1 {
        let m = map_args(&f.params, args);
        substitute_locals(&mut result, &m);
        let setup: Vec<Stmt> = Vec::new();
        assert(stmts_view(setup@) =~= Seq::empty());
        return Simple::Inlined { setup, result, next: n };
    }
    if !front_binds_consts(&f.body) {
        return Simple::Kept;
    }
    match map_call(f, args, n) {
        Some((m, _, n1)) => {
            let mut setup: Vec<Stmt> = lets_of_mapped(&f.params, args, &m);
            let mut body: Vec<Stmt> = copy_stmts(&f.body);
            body.pop();
            assert(stmts_view(body@) =~= f@.body.drop_last());
            substitute_locals_in_stmts(&mut body, &m);
            substitute_locals(&mut result, &m);
            append_stmts(&mut setup, body);
            Simple::Inlined { setup, result, next: n1 }
        },
        None => Simple::OutOfIds,
    }
}

/// Puts the statements behind the others.
pub fn append_stmts(v: &mut Vec<Stmt>, more: Vec<Stmt>)
    ensures
        stmts_view(final(v)@) == stmts_view(old(v)@) + stmts_view(more@),
{
    let ghost a = v@;
    let ghost b = more@;
    let mut more = more;
    v.append(&mut more);
    assert(v@ =~= a + b);
    assert(stmts_view(v@) =~= stmts_view(a) + stmts_view(b));
}

fn expr_in_caller(e: &Expr, m: &HashMap<LocalId, Expr>, obj: LocalId) -> (r: Expr)
    ensures
        r@ == method_expr(e@, exprs_map(m@), obj),
{
    let mut x: Expr = e.clone();
    substitute_locals(&mut x, m);
    substitute_this(&mut x, obj);
    x
}

fn void_in_caller(v: &Vec<Stmt>, m: &HashMap<LocalId, Expr>, obj: LocalId) -> (r: Option<Vec<Stmt>>)
    ensures
        (match r {
            Some(s) => Some(stmts_view(s@)),
            None => None,
        }) == void_stmts(stmts_view(v@), exprs_map(m@), obj),
{
    let ghost all = stmts_view(v@);
    let ghost map = exprs_map(m@);
    let mut out: Vec<Stmt> = Vec::new();
    assert(stmts_view(out@) =~= Seq::empty());
    let mut i: usize = 0;
    while i < v.len()
        invariant
            i <= v@.len(),
            all == stmts_view(v@),
            map == exprs_map(m@),
            void_stmts(all.take(i as int), map, obj) == Some(stmts_view(out@)),
        decreases v@.len() - i,
    {
        assert(all.take(i + 1).drop_last() =~= all.take(i as int));
        assert(all.take(i + 1).last() == v@[i as int].view());
        match &v[i] {
            Stmt::Return(None) => {},
            Stmt::Expr(e) => {
                let ghost before = stmts_view(out@);
                let x: Expr = expr_in_caller(e, m, obj);
                out.push(Stmt::Expr(x));
                assert(stmts_view(out@) =~= before.push(StmtView::Expr(x@)));
            },
            _ => {
                proof {
                    assert(void_stmts(all.take(i + 1), map, obj) is None);
                    lemma_void_stops(all, i + 1, map, obj);
                }
                return None;
            },
        }
        i += 1;
    }
    assert(all.take(i as int) =~= all);
    Some(out)
}

proof fn lemma_void_stops(v: Seq<StmtView>, k: int, m: Map<LocalId, ExprView>, obj: LocalId)
    requires
        0 <= k <= v.len(),
        void_stmts(v.take(k), m, obj) is None,
    ensures
        void_stmts(v, m, obj) is None,
    decreases v.len(),
{
    if k < v.len() {
        assert(v.drop_last().take(k) =~= v.take(k));
        lemma_void_stops(v.drop_last(), k, m, obj);
    } else {
        assert(v.take(k) =~= v);
    }
}

fn inline_simple_method(obj: LocalId, f: &Function, args: &Vec<Expr>, n: LocalId) -> (r: Simple)
    ensures
        r.is_for(simple_method(obj, f@, exprs_view(args@), n as nat)),
{
    let m = map_args(&f.params, args);
    if f.body.len() == 1 {
        match find_last_return(&f.body) {
            Some(e) => {
                let setup: Vec<Stmt> = Vec::new();
                assert(stmts_view(setup@) =~= Seq::empty());
                return Simple::Inlined { setup, result: expr_in_caller(e, &m, obj), next: n };
            },
            None => {},
        }
    }
    if f.body.len() <= 2 {
        match void_in_caller(&f.body, &m, obj) {
            Some(setup) => {
                if setup.len() > 0 {
                    return Simple::Inlined { setup, result: Expr::Undefined, next: n };
                }
            },
            None => {},
        }
    }
    Simple::Kept
}

/// Tries to inline a call of a function or a method inside an expression: a body
/// that is a single return, constant lets before a return, or a method of one or
/// two statements that returns nothing.
pub fn try_inline_simple_call(
    e: &Expr,
    c: &Candidates,
    types: &HashMap<LocalId, String>,
    n: LocalId,
) -> (r: Simple)
    ensures
        r.is_for(simple_call(e@, c@, types_map(types@), n as nat)),
{
    match e {
        Expr::Call { args, .. } => match find_callee(e, c, types) {
            Some(Callee::Function(f)) => inline_simple_function(f, args, n),
            Some(Callee::Method(obj, f)) => inline_simple_method(obj, f, args, n),
            None => Simple::Kept,
        },
        _ => Simple::Kept,
    }
}

/// The outcome of an attempt to put a body in place of a call.
pub enum Full {
    /// The call stays.
    Kept,
    /// There are not enough ids left.
    OutOfIds,
    /// The statements in place of the call, and the next free id.
    Inlined { stmts: Vec<Stmt>, next: LocalId },
}

impl Full {
    /// Whether this is the outcome for what the call turns into.
    pub open spec fn is_for(self, want: Option<(Seq<StmtView>, nat)>) -> bool {
        match self {
            Full::Kept => want is None,
            Full::OutOfIds => want matches Some((_, n)) && n > u32::MAX,
            Full::Inlined { stmts, next } => want == Some((stmts_view(stmts@), next as nat)),
        }
    }
}

/// Tries to put the body of a function or a method in place of a call whose value
/// is not used.
pub fn try_inline_call(
    e: &Expr,
    c: &Candidates,
    types: &HashMap<LocalId, String>,
    n: LocalId,
) -> (r: Full)
    ensures
        r.is_for(full_call(e@, c@, types_map(types@), n as nat)),
{
    match e {
        Expr::Call { args, .. } => match find_callee(e, c, types) {
            Some(Callee::Function(f)) => match map_call(f, args, n) {
                Some((m, lets, next)) => {
                    let mut stmts: Vec<Stmt> = lets;
                    let mut body: Vec<Stmt> = copy_stmts(&f.body);
                    substitute_locals_in_stmts(&mut body, &m);
                    append_stmts(&mut stmts, body);
                    Full::Inlined { stmts, next }
                },
                None => Full::OutOfIds,
            },
            Some(Callee::Method(obj, f)) => match map_call(f, args, n) {
                Some((m, lets, next)) => {
                    let mut stmts: Vec<Stmt> = lets;
                    let mut body: Vec<Stmt> = copy_stmts(&f.body);
                    substitute_locals_in_stmts(&mut body, &m);
                    substitute_this_in_stmts(&mut body, obj);
                    append_stmts(&mut stmts, body);
                    Full::Inlined { stmts, next }
                },
                None => Full::OutOfIds,
            },
            None => Full::Kept,
        },
        _ => Full::Kept,
    }
}

} // verus!

//! Where inlining comes to an end: calls that weigh less than the call that they
//! come out of.

use crate::hir::{FuncId, LocalId};
use crate::inline::calls::{
    inline_children, inline_expr, inline_first, inline_head, inline_stmt, inline_stmts, noted,
    returns_early, searched,
};
use crate::inline::candidate::{bound_ids, is_trivial};
use crate::inline::expand::{
    bind_args, bind_fresh, call_map, callee_of, find_method, full_call, last_return, pairs,
    rename_fresh, simple_call, CalleeView, CandidatesView,
};
use crate::inline::module_ids::module_max;
use crate::inline::pass::{
    candidates_of, first_free, imul_ids, imul_in_module, inline_in_classes, inline_in_functions,
    inline_in_methods, inline_init, inline_module, param_types, pure_only,
};
use crate::model::{ClassView, ExprView, FunctionView, ModuleView, ParamView, StmtView};
use crate::rebuild::{lemma_children_of_rebuilt, with_children};
use crate::rewrite::{renamed, rewrite_children, rewrite_expr, Rewrite};
use crate::shape::member_of_local;
use crate::walk::{children, lemma_children_smaller};
use vstd::prelude::*;

verus! {

/// What a call of a function, and a call of a method of some name, weighs.
pub struct Weights {
    pub funcs: spec_fn(FuncId) -> nat,
    pub methods: spec_fn(Seq<char>) -> nat,
}

/// What the node itself weighs.
pub open spec fn own_weight(e: ExprView, w: Weights) -> nat {
    match e {
        ExprView::Call { callee, .. } => match *callee {
            ExprView::FuncRef(id) => (w.funcs)(id),
            ExprView::PropertyGet { property, .. } => (w.methods)(property),
            _ => 0,
        },
        _ => 0,
    }
}

/// The weight of the heaviest path through the places where calls are looked for.
pub open spec fn weight(e: ExprView, w: Weights) -> nat
    decreases e, 1nat, 0nat,
{
    if searched(e) {
        own_weight(e, w) + heaviest(e, children(e).len(), w)
    } else {
        0
    }
}

/// The largest weight among the first `k` children.
pub open spec fn heaviest(e: ExprView, k: nat, w: Weights) -> nat
    decreases e, 0nat, k,
{
    if k == 0 || k > children(e).len() {
        0
    } else {
        proof {
            lemma_children_smaller(e, k - 1);
        }
        let front = heaviest(e, (k - 1) as nat, w);
        let last = weight(children(e)[k - 1], w);
        if front < last {
            last
        } else {
            front
        }
    }
}

/// Whether no call calls what is in a variable.
pub open spec fn direct(e: ExprView) -> bool
    decreases e,
{
    proof {
        assert forall|i: int| 0 <= i < children(e).len() implies decreases_to!(
            e => #[trigger] children(e)[i],
        ) by {
            lemma_children_smaller(e, i);
        }
    }
    searched(e) ==> {
        &&& match e {
            ExprView::Call { callee, .. } => !(*callee is LocalGet),
            _ => true,
        }
        &&& forall|i: int| 0 <= i < children(e).len() ==> direct(#[trigger] children(e)[i])
    }
}

/// Whether every candidate weighs more than the calls in the value that it
/// returns, and calls nothing that it is handed.
pub open spec fn outweighs(f: FunctionView, n: nat, w: Weights) -> bool {
    &&& n > 0
    &&& (last_return(f.body) matches Some(e) ==> direct(e) && weight(e, w) < n)
}

pub open spec fn bounded(c: CandidatesView, w: Weights) -> bool {
    &&& forall|id: FuncId|
        c.funcs.contains_key(id) ==> outweighs(#[trigger] c.funcs[id], (w.funcs)(id), w)
    &&& forall|i: int|
        0 <= i < c.methods.len() ==> outweighs(
            (#[trigger] c.methods[i]).1,
            (w.methods)(c.methods[i].1.name),
            w,
        )
}

// ---------------------------------------------------------------------------
// Weights
// ---------------------------------------------------------------------------

proof fn lemma_heaviest(e: ExprView, k: nat, i: int, w: Weights)
    requires
        0 <= i < k <= children(e).len(),
    ensures
        weight(children(e)[i], w) <= heaviest(e, k, w),
    decreases k,
{
    if i < k - 1 {
        lemma_heaviest(e, (k - 1) as nat, i, w);
    }
}

proof fn lemma_heaviest_bound(e: ExprView, k: nat, bound: nat, w: Weights)
    requires
        k <= children(e).len(),
        forall|i: int| 0 <= i < k ==> weight(#[trigger] children(e)[i], w) <= bound,
    ensures
        heaviest(e, k, w) <= bound,
    decreases k,
{
    if k > 0 {
        lemma_heaviest_bound(e, (k - 1) as nat, bound, w);
    }
}

/// Whether no expression that stands for a variable weighs more than the bound.
pub open spec fn values_within(m: Map<LocalId, ExprView>, bound: nat, w: Weights) -> bool {
    forall|id: LocalId| m.contains_key(id) ==> weight(#[trigger] m[id], w) <= bound
}

/// Substitution leaves the kind of a callee as it is.
proof fn lemma_callee_kind(e: ExprView, r: Rewrite)
    requires
        r is Locals || r is This,
        r is Locals ==> !(e is LocalGet),
    ensures
        match e {
            ExprView::FuncRef(_) => rewrite_expr(e, r) == e,
            ExprView::PropertyGet { property, .. } => {
                &&& rewrite_expr(e, r) matches ExprView::PropertyGet { property: p, .. }
                &&& p == property
            },
            _ => !(rewrite_expr(e, r) is FuncRef) && !(rewrite_expr(e, r) is PropertyGet),
        },
{
}

/// A node that is rebuilt with children at most so heavy weighs at most that much
/// more than it does itself.
proof fn lemma_rebuilt_weight(e: ExprView, kids: Seq<ExprView>, bound: nat, w: Weights)
    requires
        !(e is Closure),
        kids.len() == children(e).len(),
        forall|i: int| 0 <= i < kids.len() ==> weight(#[trigger] kids[i], w) <= bound,
    ensures
        searched(with_children(e, kids)) == searched(e),
        weight(with_children(e, kids), w) <= own_weight(with_children(e, kids), w) + bound,
{
    let r = with_children(e, kids);
    lemma_children_of_rebuilt(e, kids);
    lemma_heaviest_bound(r, children(r).len(), bound, w);
}

proof fn lemma_locals_weight(e: ExprView, m: Map<LocalId, ExprView>, bound: nat, w: Weights)
    requires
        direct(e),
        values_within(m, bound, w),
    ensures
        weight(rewrite_expr(e, Rewrite::Locals(m)), w) <= weight(e, w) + bound,
    decreases e,
{
    let r = Rewrite::Locals(m);
    match e {
        ExprView::LocalGet(id) => {
            if m.contains_key(id) {
                assert(weight(m[id], w) <= bound);
            }
        },
        ExprView::Closure { .. } => {},
        _ => {
            let base = renamed(e, r);
            let kids = rewrite_children(e, r);
            let total = heaviest(e, children(e).len(), w) + bound;
            assert(children(base) == children(e));
            if searched(e) {
                assert forall|i: int| 0 <= i < kids.len() implies weight(#[trigger] kids[i], w)
                    <= total by {
                    lemma_children_smaller(e, i);
                    assert(direct(children(e)[i]));
                    lemma_locals_weight(children(e)[i], m, bound, w);
                    lemma_heaviest(e, children(e).len(), i, w);
                }
                lemma_rebuilt_weight(base, kids, total, w);
                match e {
                    ExprView::Call { callee, .. } => {
                        assert(children(e)[0] == *callee);
                        lemma_callee_kind(*callee, r);
                    },
                    _ => {},
                }
            } else {
                assert(!searched(with_children(base, kids)));
            }
        },
    }
}

proof fn lemma_this_weight(e: ExprView, obj: LocalId, w: Weights)
    ensures
        weight(rewrite_expr(e, Rewrite::This(obj)), w) <= weight(e, w),
    decreases e,
{
    let r = Rewrite::This(obj);
    if !(e is This) && !(e is Closure) {
        let kids = rewrite_children(e, r);
        let total = heaviest(e, children(e).len(), w);
        if searched(e) {
            assert forall|i: int| 0 <= i < kids.len() implies weight(#[trigger] kids[i], w)
                <= total by {
                lemma_children_smaller(e, i);
                lemma_this_weight(children(e)[i], obj, w);
                lemma_heaviest(e, children(e).len(), i, w);
            }
            lemma_rebuilt_weight(e, kids, total, w);
            match e {
                ExprView::Call { callee, .. } => {
                    assert(children(e)[0] == *callee);
                    lemma_callee_kind(*callee, r);
                },
                _ => {},
            }
        } else {
            assert(!searched(with_children(e, kids)));
        }
    }
}

// ---------------------------------------------------------------------------
// A single call
// ---------------------------------------------------------------------------

proof fn lemma_insert_within(
    m: Map<LocalId, ExprView>,
    id: LocalId,
    e: ExprView,
    bound: nat,
    w: Weights,
)
    requires
        values_within(m, bound, w),
        weight(e, w) <= bound,
    ensures
        values_within(m.insert(id, e), bound, w),
{
    let m1 = m.insert(id, e);
    assert forall|k: LocalId| m1.contains_key(k) implies weight(#[trigger] m1[k], w) <= bound by {
        if k != id {
            assert(weight(m[k], w) <= bound);
        }
    }
}

pub open spec fn all_within(v: Seq<ExprView>, bound: nat, w: Weights) -> bool {
    forall|i: int| 0 <= i < v.len() ==> weight(#[trigger] v[i], w) <= bound
}

proof fn lemma_bind_args_within(
    params: Seq<ParamView>,
    args: Seq<ExprView>,
    k: nat,
    bound: nat,
    w: Weights,
)
    requires
        k <= args.len(),
        all_within(args, bound, w),
    ensures
        values_within(bind_args(params, args, k), bound, w),
    decreases k,
{
    if k > 0 {
        lemma_bind_args_within(params, args, (k - 1) as nat, bound, w);
        lemma_insert_within(
            bind_args(params, args, (k - 1) as nat),
            params[k - 1].id,
            args[k - 1],
            bound,
            w,
        );
    }
}

proof fn lemma_bind_fresh_within(
    params: Seq<ParamView>,
    args: Seq<ExprView>,
    k: nat,
    n: nat,
    bound: nat,
    w: Weights,
)
    requires
        k <= args.len(),
        all_within(args, bound, w),
    ensures
        values_within(bind_fresh(params, args, k, n).0, bound, w),
    decreases k,
{
    if k > 0 {
        lemma_bind_fresh_within(params, args, (k - 1) as nat, n, bound, w);
        let (m, n1) = bind_fresh(params, args, (k - 1) as nat, n);
        if is_trivial(args[k - 1]) {
            lemma_insert_within(m, params[k - 1].id, args[k - 1], bound, w);
        } else {
            lemma_insert_within(
                m,
                params[k - 1].id,
                ExprView::LocalGet(n1 as LocalId),
                bound,
                w,
            );
        }
    }
}

proof fn lemma_rename_within(
    ids: Seq<LocalId>,
    m: Map<LocalId, ExprView>,
    n: nat,
    bound: nat,
    w: Weights,
)
    requires
        values_within(m, bound, w),
    ensures
        values_within(rename_fresh(ids, m, n).0, bound, w),
    decreases ids.len(),
{
    if ids.len() > 0 {
        lemma_rename_within(ids.drop_last(), m, n, bound, w);
        let (m1, n1) = rename_fresh(ids.drop_last(), m, n);
        lemma_insert_within(m1, ids.last(), ExprView::LocalGet(n1 as LocalId), bound, w);
    }
}

proof fn lemma_find_method_outweighs(
    methods: Seq<(Seq<char>, FunctionView)>,
    class: Seq<char>,
    name: Seq<char>,
    w: Weights,
)
    requires
        forall|i: int|
            0 <= i < methods.len() ==> outweighs(
                (#[trigger] methods[i]).1,
                (w.methods)(methods[i].1.name),
                w,
            ),
    ensures
        find_method(methods, class, name) matches Some(f) ==> outweighs(f, (w.methods)(name), w),
    decreases methods.len(),
{
    if methods.len() > 0 {
        assert(methods[methods.len() - 1] == methods.last());
        let front = methods.drop_last();
        assert forall|i: int| 0 <= i < front.len() implies outweighs(
            (#[trigger] front[i]).1,
            (w.methods)(front[i].1.name),
            w,
        ) by {
            assert(front[i] == methods[i]);
        }
        lemma_find_method_outweighs(front, class, name, w);
    }
}

/// What a call turns into weighs less than the call.
proof fn lemma_simple_weight(
    e: ExprView,
    c: CandidatesView,
    types: Map<LocalId, Seq<char>>,
    n: nat,
    w: Weights,
)
    requires
        bounded(c, w),
    ensures
        simple_call(e, c, types, n) matches Some(s) ==> weight(s.result, w) < weight(e, w),
{
    match e {
        ExprView::Call { callee, args, .. } => {
            let most = heaviest(e, children(e).len(), w);
            assert forall|i: int| 0 <= i < args.len() implies weight(#[trigger] args[i], w)
                <= most by {
                assert(children(e)[i + 1] == args[i]);
                lemma_heaviest(e, children(e).len(), i + 1, w);
            }
            match callee_of(e, c, types) {
                Some(CalleeView::Function(f)) => {
                    assert(*callee is FuncRef);
                    let k = pairs(f.params, args);
                    match last_return(f.body) {
                        Some(value) => {
                            let m = bind_args(f.params, args, k);
                            lemma_bind_args_within(f.params, args, k, most, w);
                            lemma_locals_weight(value, m, most, w);
                            let (m1, n1) = bind_fresh(f.params, args, k, n);
                            lemma_bind_fresh_within(f.params, args, k, n, most, w);
                            lemma_rename_within(bound_ids(f.body), m1, n1, most, w);
                            lemma_locals_weight(value, call_map(f, args, n).0, most, w);
                        },
                        None => {},
                    }
                },
                Some(CalleeView::Method(obj, f)) => {
                    match member_of_local(*callee) {
                        Some((id, name)) => {
                            lemma_find_method_outweighs(c.methods, types[id], name, w);
                            assert(own_weight(e, w) == (w.methods)(name));
                        },
                        None => {},
                    }
                    let k = pairs(f.params, args);
                    let m = bind_args(f.params, args, k);
                    lemma_bind_args_within(f.params, args, k, most, w);
                    match last_return(f.body) {
                        Some(value) => {
                            lemma_locals_weight(value, m, most, w);
                            lemma_this_weight(rewrite_expr(value, Rewrite::Locals(m)), obj, w);
                        },
                        None => {},
                    }
                },
                None => {},
            }
        },
        _ => {},
    }
}

// ---------------------------------------------------------------------------
// Expressions and statements
// ---------------------------------------------------------------------------

proof fn lemma_expr_steady(
    e: ExprView,
    c: CandidatesView,
    types: Map<LocalId, Seq<char>>,
    n: nat,
    d: nat,
    more: nat,
    w: Weights,
)
    requires
        bounded(c, w),
        weight(e, w) <= d <= more,
    ensures
        inline_expr(e, c, types, n, d) == inline_expr(e, c, types, n, more),
    decreases d, e, 1nat, 0nat,
{
    lemma_simple_weight(e, c, types, n, w);
    match simple_call(e, c, types, n) {
        Some(simple) => {
            lemma_expr_steady(
                simple.result,
                c,
                types,
                simple.next,
                (d - 1) as nat,
                (more - 1) as nat,
                w,
            );
        },
        None => {
            if searched(e) {
                lemma_children_steady(e, children(e).len(), c, types, n, d, more, w);
            }
        },
    }
}

proof fn lemma_children_steady(
    e: ExprView,
    k: nat,
    c: CandidatesView,
    types: Map<LocalId, Seq<char>>,
    n: nat,
    d: nat,
    more: nat,
    w: Weights,
)
    requires
        bounded(c, w),
        searched(e),
        weight(e, w) <= d <= more,
    ensures
        inline_children(e, k, c, types, n, d) == inline_children(e, k, c, types, n, more),
    decreases d, e, 0nat, k,
{
    if 0 < k <= children(e).len() {
        lemma_children_smaller(e, k - 1);
        lemma_heaviest(e, children(e).len(), k - 1, w);
        lemma_children_steady(e, (k - 1) as nat, c, types, n, d, more, w);
        match inline_children(e, (k - 1) as nat, c, types, n, d) {
            Some(front) => lemma_expr_steady(
                children(e)[k - 1],
                c,
                types,
                front.next,
                d,
                more,
                w,
            ),
            None => {},
        }
    }
}

proof fn lemma_opt_steady(
    o: Option<ExprView>,
    c: CandidatesView,
    types: Map<LocalId, Seq<char>>,
    n: nat,
    d: nat,
    more: nat,
    w: Weights,
)
    requires
        bounded(c, w),
        opt_weight(o, w) <= d <= more,
    ensures
        inline_head(o, c, types, n, d) == inline_head(o, c, types, n, more),
{
    match o {
        Some(e) => lemma_expr_steady(e, c, types, n, d, more, w),
        None => {},
    }
}

pub open spec fn opt_weight(o: Option<ExprView>, w: Weights) -> nat {
    match o {
        Some(e) => weight(e, w),
        None => 0,
    }
}

/// Whether no expression of the statement, where calls are looked for, weighs more
/// than the bound.
pub open spec fn stmt_within(s: StmtView, bound: nat, w: Weights) -> bool
    decreases s,
{
    match s {
        StmtView::Expr(e) => weight(e, w) <= bound,
        StmtView::Let { init, .. } => opt_weight(init, w) <= bound,
        StmtView::Return(o) => opt_weight(o, w) <= bound,
        StmtView::Throw(e) => weight(e, w) <= bound,
        StmtView::If { condition, then_branch, else_branch } => {
            &&& weight(condition, w) <= bound
            &&& stmts_within(then_branch, bound, w)
            &&& match else_branch {
                Some(b) => stmts_within(b, bound, w),
                None => true,
            }
        },
        StmtView::While { condition, body } => {
            &&& weight(condition, w) <= bound
            &&& stmts_within(body, bound, w)
        },
        StmtView::For { init, condition, update, body } => {
            &&& match init {
                Some(i) => stmt_within(*i, bound, w),
                None => true,
            }
            &&& opt_weight(condition, w) <= bound
            &&& opt_weight(update, w) <= bound
            &&& stmts_within(body, bound, w)
        },
        _ => true,
    }
}

pub open spec fn stmts_within(v: Seq<StmtView>, bound: nat, w: Weights) -> bool
    decreases v,
{
    forall|i: int| 0 <= i < v.len() ==> stmt_within(#[trigger] v[i], bound, w)
}

proof fn lemma_stmt_steady(
    s: StmtView,
    c: CandidatesView,
    known: Map<LocalId, Seq<char>>,
    n: nat,
    d: nat,
    more: nat,
    w: Weights,
)
    requires
        bounded(c, w),
        stmt_within(s, d, w),
        d <= more,
    ensures
        inline_stmt(s, c, known, n, d) == inline_stmt(s, c, known, n, more),
    decreases s, 2nat,
{
    let types = noted(s, known);
    match s {
        StmtView::Expr(e) => {
            match full_call(e, c, types, n) {
                Some((body, n1)) => {
                    if returns_early(body) {
                        lemma_expr_steady(e, c, types, n1, d, more, w);
                    }
                },
                None => lemma_expr_steady(e, c, types, n, d, more, w),
            }
        },
        StmtView::Let { init: Some(e), .. } => lemma_expr_steady(e, c, types, n, d, more, w),
        StmtView::Return(Some(e)) => lemma_expr_steady(e, c, types, n, d, more, w),
        StmtView::Throw(e) => lemma_expr_steady(e, c, types, n, d, more, w),
        StmtView::If { .. } => lemma_if_steady(s, c, known, n, d, more, w),
        StmtView::While { .. } => lemma_while_steady(s, c, known, n, d, more, w),
        StmtView::For { .. } => lemma_for_steady(s, c, known, n, d, more, w),
        _ => {},
    }
}

proof fn lemma_if_steady(
    s: StmtView,
    c: CandidatesView,
    known: Map<LocalId, Seq<char>>,
    n: nat,
    d: nat,
    more: nat,
    w: Weights,
)
    requires
        s is If,
        bounded(c, w),
        stmt_within(s, d, w),
        d <= more,
    ensures
        inline_stmt(s, c, known, n, d) == inline_stmt(s, c, known, n, more),
    decreases s, 1nat,
{
    let types = noted(s, known);
    match s {
        StmtView::If { condition, then_branch, else_branch } => {
            lemma_expr_steady(condition, c, types, n, d, more, w);
            match inline_expr(condition, c, types, n, d) {
                Some(cond) => {
                    lemma_stmts_steady(then_branch, c, types, cond.next, d, more, w);
                    match (inline_stmts(then_branch, c, types, cond.next, d), else_branch) {
                        (Some(yes), Some(b)) => lemma_stmts_steady(
                            b,
                            c,
                            yes.types,
                            yes.next,
                            d,
                            more,
                            w,
                        ),
                        _ => {},
                    }
                },
                None => {},
            }
        },
        _ => {},
    }
}

proof fn lemma_while_steady(
    s: StmtView,
    c: CandidatesView,
    known: Map<LocalId, Seq<char>>,
    n: nat,
    d: nat,
    more: nat,
    w: Weights,
)
    requires
        s is While,
        bounded(c, w),
        stmt_within(s, d, w),
        d <= more,
    ensures
        inline_stmt(s, c, known, n, d) == inline_stmt(s, c, known, n, more),
    decreases s, 1nat,
{
    let types = noted(s, known);
    match s {
        StmtView::While { condition, body } => {
            lemma_expr_steady(condition, c, types, n, d, more, w);
            match inline_expr(condition, c, types, n, d) {
                Some(cond) => lemma_stmts_steady(body, c, types, cond.next, d, more, w),
                None => {},
            }
        },
        _ => {},
    }
}

proof fn lemma_for_steady(
    s: StmtView,
    c: CandidatesView,
    known: Map<LocalId, Seq<char>>,
    n: nat,
    d: nat,
    more: nat,
    w: Weights,
)
    requires
        s is For,
        bounded(c, w),
        stmt_within(s, d, w),
        d <= more,
    ensures
        inline_stmt(s, c, known, n, d) == inline_stmt(s, c, known, n, more),
    decreases s, 1nat,
{
    let types = noted(s, known);
    match s {
        StmtView::For { init, condition, update, body } => {
            let start = match init {
                Some(i) => {
                    lemma_stmt_steady(*i, c, types, n, d, more, w);
                    match inline_stmt(*i, c, types, n, d) {
                        Some(run) => Some((run.types, run.next)),
                        None => None,
                    }
                },
                None => Some((types, n)),
            };
            match start {
                Some((types1, n1)) => {
                    lemma_opt_steady(condition, c, types1, n1, d, more, w);
                    match inline_head(condition, c, types1, n1, d) {
                        Some((_, n2)) => {
                            lemma_opt_steady(update, c, types1, n2, d, more, w);
                            match inline_head(update, c, types1, n2, d) {
                                Some((_, n3)) => lemma_stmts_steady(
                                    body,
                                    c,
                                    types1,
                                    n3,
                                    d,
                                    more,
                                    w,
                                ),
                                None => {},
                            }
                        },
                        None => {},
                    }
                },
                None => {},
            }
        },
        _ => {},
    }
}

proof fn lemma_stmts_steady(
    v: Seq<StmtView>,
    c: CandidatesView,
    types: Map<LocalId, Seq<char>>,
    n: nat,
    d: nat,
    more: nat,
    w: Weights,
)
    requires
        bounded(c, w),
        stmts_within(v, d, w),
        d <= more,
    ensures
        inline_stmts(v, c, types, n, d) == inline_stmts(v, c, types, n, more),
    decreases v, v.len() + 1,
{
    lemma_first_steady(v, v.len(), c, types, n, d, more, w);
}

proof fn lemma_first_steady(
    v: Seq<StmtView>,
    k: nat,
    c: CandidatesView,
    types: Map<LocalId, Seq<char>>,
    n: nat,
    d: nat,
    more: nat,
    w: Weights,
)
    requires
        bounded(c, w),
        stmts_within(v, d, w),
        d <= more,
    ensures
        inline_first(v, k, c, types, n, d) == inline_first(v, k, c, types, n, more),
    decreases v, k,
{
    if 0 < k <= v.len() {
        lemma_first_steady(v, (k - 1) as nat, c, types, n, d, more, w);
        match inline_first(v, (k - 1) as nat, c, types, n, d) {
            Some(front) => {
                assert(stmt_within(v[k - 1], d, w));
                lemma_stmt_steady(v[k - 1], c, front.types, front.next, d, more, w);
            },
            None => {},
        }
    }
}

// ---------------------------------------------------------------------------
// Modules
// ---------------------------------------------------------------------------

pub open spec fn functions_within(v: Seq<FunctionView>, bound: nat, w: Weights) -> bool {
    forall|i: int| 0 <= i < v.len() ==> stmts_within((#[trigger] v[i]).body, bound, w)
}

/// Whether nothing that the module does weighs more than the bound.
pub open spec fn module_within(m: ModuleView, bound: nat, w: Weights) -> bool {
    &&& stmts_within(m.init, bound, w)
    &&& functions_within(m.functions, bound, w)
    &&& forall|i: int|
        0 <= i < m.classes.len() ==> functions_within((#[trigger] m.classes[i]).methods, bound, w)
}

proof fn lemma_functions_steady(
    v: Seq<FunctionView>,
    k: nat,
    c: CandidatesView,
    n: nat,
    d: nat,
    more: nat,
    w: Weights,
)
    requires
        bounded(c, w),
        functions_within(v, d, w),
        d <= more,
    ensures
        inline_in_functions(v, k, c, n, d) == inline_in_functions(v, k, c, n, more),
    decreases k,
{
    if 0 < k <= v.len() {
        lemma_functions_steady(v, (k - 1) as nat, c, n, d, more, w);
        let f = v[k - 1];
        assert(stmts_within(v[k - 1].body, d, w));
        match inline_in_functions(v, (k - 1) as nat, c, n, d) {
            Some((_, n1)) => lemma_stmts_steady(f.body, c, param_types(f.params), n1, d, more, w),
            None => {},
        }
    }
}

proof fn lemma_methods_steady(
    class: Seq<char>,
    v: Seq<FunctionView>,
    k: nat,
    c: CandidatesView,
    n: nat,
    d: nat,
    more: nat,
    w: Weights,
)
    requires
        bounded(c, w),
        functions_within(v, d, w),
        d <= more,
    ensures
        inline_in_methods(class, v, k, c, n, d) == inline_in_methods(class, v, k, c, n, more),
    decreases k,
{
    if 0 < k <= v.len() {
        lemma_methods_steady(class, v, (k - 1) as nat, c, n, d, more, w);
        let f = v[k - 1];
        assert(stmts_within(v[k - 1].body, d, w));
        match inline_in_methods(class, v, (k - 1) as nat, c, n, d) {
            Some((_, n1)) => lemma_stmts_steady(f.body, c, param_types(f.params), n1, d, more, w),
            None => {},
        }
    }
}

proof fn lemma_classes_steady(
    v: Seq<ClassView>,
    k: nat,
    c: CandidatesView,
    n: nat,
    d: nat,
    more: nat,
    w: Weights,
)
    requires
        bounded(c, w),
        forall|i: int| 0 <= i < v.len() ==> functions_within((#[trigger] v[i]).methods, d, w),
        d <= more,
    ensures
        inline_in_classes(v, k, c, n, d) == inline_in_classes(v, k, c, n, more),
    decreases k,
{
    if 0 < k <= v.len() {
        lemma_classes_steady(v, (k - 1) as nat, c, n, d, more, w);
        let class = v[k - 1];
        assert(functions_within(v[k - 1].methods, d, w));
        match inline_in_classes(v, (k - 1) as nat, c, n, d) {
            Some((_, n1)) => lemma_methods_steady(
                class.name,
                class.methods,
                class.methods.len(),
                c,
                n1,
                d,
                more,
                w,
            ),
            None => {},
        }
    }
}

/// Inlining ends where the functions do not call each other in a circle: if every
/// candidate can be given a weight above that of the calls in its value, a depth
/// that nothing in the module outweighs is deep enough. A larger one changes
/// nothing; if there is no result, it is the ids that ran out.
pub proof fn law_weighed_calls_end(m: ModuleView, d: nat, more: nat, w: Weights)
    requires
        bounded(candidates_of(m), w),
        module_within(imul_in_module(m, imul_ids(m.functions)), d, w),
        d <= more,
    ensures
        inline_module(m, more) == inline_module(m, d),
{
    let m1 = imul_in_module(m, imul_ids(m.functions));
    let c = candidates_of(m);
    let init_c = CandidatesView { funcs: pure_only(c.funcs), ..c };
    assert(bounded(init_c, w)) by {
        assert forall|id: FuncId| init_c.funcs.contains_key(id) implies outweighs(
            #[trigger] init_c.funcs[id],
            (w.funcs)(id),
            w,
        ) by {
            assert(outweighs(c.funcs[id], (w.funcs)(id), w));
        }
    }
    lemma_stmts_steady(
        m1.init,
        init_c,
        Map::empty(),
        module_max(m1) as nat + 1,
        d,
        more,
        w,
    );
    match inline_init(m1, c, d) {
        Some(m2) => {
            let n = first_free(m1, m2);
            lemma_functions_steady(m2.functions, m2.functions.len(), c, n, d, more, w);
            match inline_in_functions(m2.functions, m2.functions.len(), c, n, d) {
                Some((_, n1)) => lemma_classes_steady(
                    m2.classes,
                    m2.classes.len(),
                    c,
                    n1,
                    d,
                    more,
                    w,
                ),
                None => {},
            }
        },
        None => {},
    }
}

} // verus!

//! What the pass splices in, read from the top down.

use crate::hir::{FuncId, LocalId};
use crate::inline::calls::{
    head_of, inline_children, inline_expr, inline_first, inline_head, inline_stmt, inline_stmts,
    noted, searched, without_return,
};
use crate::inline::candidate::{bound_ids, is_trivial};
use crate::inline::expand::{
    argument_let, argument_lets, args_of, bind_args, bind_fresh, call_map, callee_of, find_method,
    full_call, mapped_lets, method_expr, pairs, rename_fresh, simple_call, void_stmts, CalleeView,
    CandidatesView,
};
use crate::inline::fresh::{
    free, lemma_free, lemma_local_free, lemma_rebuilt_free, lemma_stmts_free_front, stmt_free,
    stmts_free,
};
use crate::inline::reads::{
    all_fit, bound_after, bound_behind, fits, lemma_bound_grows, lemma_expr_fits,
    lemma_orderly_concat, lemma_orderly_one, lemma_orderly_push, lemma_stmts_fit,
    lemma_this_orderly, lemma_this_uses_bound, lemma_unwatched_each, lemma_unwatched_orderly_stmt,
    lemma_unwatched_parts, lemma_uses_more, opt_uses_bound, orderly, orderly_stmt, parts_free_of,
    stmt_unwatched, stmts_unwatched, unwatched, uses_bound,
};
use crate::model::{ExprView, FunctionView, ParamView, StmtView};
use crate::rebuild::with_children;
use crate::rewrite::{remap, rewrite_expr, rewrite_stmts, Rewrite};
use crate::shape::member_of_local;
use crate::walk::{children, lemma_children_smaller};
use vstd::prelude::*;

verus! {

// ---------------------------------------------------------------------------
// Candidates
// ---------------------------------------------------------------------------

/// The variables that the body of the function binds, closures aside.
pub open spec fn let_ids(f: FunctionView) -> Set<LocalId> {
    Set::new(|x: LocalId| bound_ids(f.body).contains(x))
}

/// Whether the function uses none of its variables before the let that binds it.
pub open spec fn lets_first(f: FunctionView) -> bool {
    orderly(f.body, Set::empty(), let_ids(f))
}

/// Whether the function does, and names no watched variable.
pub open spec fn suits(f: FunctionView, watched: Set<LocalId>) -> bool {
    lets_first(f) && stmts_unwatched(f.body, watched)
}

pub open spec fn candidates_suit(c: CandidatesView, watched: Set<LocalId>) -> bool {
    &&& forall|id: FuncId| c.funcs.contains_key(id) ==> suits(#[trigger] c.funcs[id], watched)
    &&& forall|i: int| 0 <= i < c.methods.len() ==> suits((#[trigger] c.methods[i]).1, watched)
}

proof fn lemma_find_method_suits(
    methods: Seq<(Seq<char>, FunctionView)>,
    class: Seq<char>,
    name: Seq<char>,
    watched: Set<LocalId>,
)
    requires
        forall|i: int| 0 <= i < methods.len() ==> suits((#[trigger] methods[i]).1, watched),
    ensures
        find_method(methods, class, name) matches Some(f) ==> suits(f, watched),
    decreases methods.len(),
{
    if methods.len() > 0 {
        assert(suits(methods[methods.len() - 1].1, watched));
        let front = methods.drop_last();
        assert forall|i: int| 0 <= i < front.len() implies suits(
            (#[trigger] front[i]).1,
            watched,
        ) by {
            assert(front[i] == methods[i]);
        }
        lemma_find_method_suits(front, class, name, watched);
    }
}

proof fn lemma_callee_suits(
    e: ExprView,
    c: CandidatesView,
    types: Map<LocalId, Seq<char>>,
    watched: Set<LocalId>,
)
    requires
        candidates_suit(c, watched),
    ensures
        match callee_of(e, c, types) {
            Some(CalleeView::Function(f)) => suits(f, watched),
            Some(CalleeView::Method(_, f)) => suits(f, watched),
            None => true,
        },
{
    match e {
        ExprView::Call { callee, .. } => match member_of_local(*callee) {
            Some((obj, name)) => {
                lemma_find_method_suits(c.methods, types[obj], name, watched);
            },
            None => {},
        },
        _ => {},
    }
}

// ---------------------------------------------------------------------------
// The parts of a call
// ---------------------------------------------------------------------------

/// Whether the watched variables that the expressions name are among the bound ones.
spec fn all_use_bound(v: Seq<ExprView>, bound: Set<LocalId>, watched: Set<LocalId>) -> bool {
    forall|i: int| 0 <= i < v.len() ==> uses_bound(#[trigger] v[i], bound, watched)
}

proof fn lemma_children_use_bound(e: ExprView, bound: Set<LocalId>, watched: Set<LocalId>)
    requires
        uses_bound(e, bound, watched),
    ensures
        all_use_bound(children(e), bound, watched),
{
    assert forall|i: int| 0 <= i < children(e).len() implies uses_bound(
        #[trigger] children(e)[i],
        bound,
        watched,
    ) by {
        assert forall|x: LocalId| #[trigger] watched.contains(x) && !bound.contains(x) implies free(
            children(e)[i],
            x,
        ) by {
            lemma_free(e, x);
        }
    }
}

proof fn lemma_args_use_bound(e: ExprView, bound: Set<LocalId>, watched: Set<LocalId>)
    requires
        uses_bound(e, bound, watched),
    ensures
        all_use_bound(args_of(e), bound, watched),
{
    lemma_children_use_bound(e, bound, watched);
    match e {
        ExprView::Call { args, .. } => {
            assert forall|i: int| 0 <= i < args.len() implies uses_bound(
                #[trigger] args[i],
                bound,
                watched,
            ) by {
                assert(children(e)[i + 1] == args[i]);
            }
        },
        _ => {},
    }
}

/// The receiver of a method call is bound, if it is watched.
proof fn lemma_receiver_bound(
    e: ExprView,
    c: CandidatesView,
    types: Map<LocalId, Seq<char>>,
    bound: Set<LocalId>,
    watched: Set<LocalId>,
)
    requires
        uses_bound(e, bound, watched),
    ensures
        callee_of(e, c, types) matches Some(CalleeView::Method(obj, _)) ==> (watched.contains(obj)
            ==> bound.contains(obj)),
{
    match callee_of(e, c, types) {
        Some(CalleeView::Method(obj, _)) => {
            lemma_free(e, obj);
            let callee = children(e)[0];
            lemma_free(callee, obj);
            assert(children(callee)[0] == ExprView::LocalGet(obj));
            lemma_local_free(obj, obj);
        },
        _ => {},
    }
}

// ---------------------------------------------------------------------------
// A single call
// ---------------------------------------------------------------------------

proof fn lemma_bind_args_fit(
    params: Seq<ParamView>,
    args: Seq<ExprView>,
    k: nat,
    own: Set<LocalId>,
    bound: Set<LocalId>,
    watched: Set<LocalId>,
)
    requires
        k <= args.len(),
        all_use_bound(args, bound, watched),
    ensures
        all_fit(bind_args(params, args, k), own, Set::empty(), bound, watched),
    decreases k,
{
    if k > 0 {
        lemma_bind_args_fit(params, args, (k - 1) as nat, own, bound, watched);
        let before = bind_args(params, args, (k - 1) as nat);
        let m = bind_args(params, args, k);
        assert(uses_bound(args[k - 1], bound, watched));
        assert forall|y: LocalId| #[trigger] m.contains_key(y) implies fits(
            y,
            m,
            own,
            Set::empty(),
            bound,
            watched,
        ) by {
            if y != params[k - 1].id {
                assert(before.contains_key(y));
                assert(fits(y, before, own, Set::empty(), bound, watched));
            }
        }
    }
}

/// Whether the value names only what is bound.
spec fn map_uses_bound(
    m: Map<LocalId, ExprView>,
    bound: Set<LocalId>,
    watched: Set<LocalId>,
) -> bool {
    forall|y: LocalId| #[trigger] m.contains_key(y) ==> uses_bound(m[y], bound, watched)
}

proof fn lemma_local_uses_bound(id: LocalId, bound: Set<LocalId>, watched: Set<LocalId>)
    requires
        watched.contains(id) ==> bound.contains(id),
    ensures
        uses_bound(ExprView::LocalGet(id), bound, watched),
{
    assert forall|x: LocalId| #[trigger] watched.contains(x) && !bound.contains(x) implies free(
        ExprView::LocalGet(id),
        x,
    ) by {
        lemma_local_free(id, x);
    }
}

/// The lets for the arguments bind what the parameters are mapped to.
proof fn lemma_argument_lets_orderly(
    params: Seq<ParamView>,
    args: Seq<ExprView>,
    k: nat,
    n: nat,
    bound: Set<LocalId>,
    watched: Set<LocalId>,
)
    requires
        k <= args.len(),
        all_use_bound(args, bound, watched),
    ensures
        orderly(argument_lets(params, args, k, n), bound, watched),
        map_uses_bound(
            bind_fresh(params, args, k, n).0,
            bound_after(argument_lets(params, args, k, n), bound),
            watched,
        ),
    decreases k,
{
    if k > 0 {
        lemma_argument_lets_orderly(params, args, (k - 1) as nat, n, bound, watched);
        let front = argument_lets(params, args, (k - 1) as nat, n);
        let (m0, n1) = bind_fresh(params, args, (k - 1) as nat, n);
        let (m, _) = bind_fresh(params, args, k, n);
        let before = bound_after(front, bound);
        let lets = argument_lets(params, args, k, n);
        let after = bound_after(lets, bound);
        let arg = args[k - 1];
        assert(uses_bound(args[k - 1], bound, watched));
        lemma_bound_grows(front, bound);
        lemma_uses_more(arg, bound, before, watched);
        if !is_trivial(arg) {
            let s = argument_let(n1 as LocalId, params[k - 1], arg);
            lemma_orderly_push(front, s, bound, watched);
            lemma_local_uses_bound(n1 as LocalId, after, watched);
        }
        assert forall|y: LocalId| #[trigger] m.contains_key(y) implies uses_bound(
            m[y],
            after,
            watched,
        ) by {
            if y != params[k - 1].id {
                assert(m0.contains_key(y));
                lemma_uses_more(m0[y], before, after, watched);
            }
        }
    }
}

/// So do the lets over a map that extends it.
proof fn lemma_mapped_lets_orderly(
    params: Seq<ParamView>,
    args: Seq<ExprView>,
    k: nat,
    n: nat,
    m: Map<LocalId, ExprView>,
    bound: Set<LocalId>,
    watched: Set<LocalId>,
)
    requires
        k <= args.len(),
        all_use_bound(args, bound, watched),
    ensures
        orderly(mapped_lets(params, args, k, m), bound, watched),
        forall|y: LocalId| #[trigger]
            bind_fresh(params, args, k, n).0.contains_key(y) && m.contains_key(y) && m[y]
                == bind_fresh(params, args, k, n).0[y] ==> uses_bound(
                m[y],
                bound_after(mapped_lets(params, args, k, m), bound),
                watched,
            ),
    decreases k,
{
    if k > 0 {
        lemma_mapped_lets_orderly(params, args, (k - 1) as nat, n, m, bound, watched);
        let front = mapped_lets(params, args, (k - 1) as nat, m);
        let b0 = bind_fresh(params, args, (k - 1) as nat, n).0;
        let b = bind_fresh(params, args, k, n).0;
        let before = bound_after(front, bound);
        let lets = mapped_lets(params, args, k, m);
        let after = bound_after(lets, bound);
        let p = params[k - 1];
        let arg = args[k - 1];
        assert(uses_bound(args[k - 1], bound, watched));
        lemma_bound_grows(front, bound);
        lemma_uses_more(arg, bound, before, watched);
        if !is_trivial(arg) && m.contains_key(p.id) && m[p.id] is LocalGet {
            lemma_orderly_push(front, argument_let(remap(p.id, m), p, arg), bound, watched);
            lemma_local_uses_bound(remap(p.id, m), after, watched);
        }
        assert forall|y: LocalId| #[trigger] b.contains_key(y) && m.contains_key(y) && m[y]
            == b[y] implies uses_bound(m[y], after, watched) by {
            if y != p.id {
                assert(b0.contains_key(y));
                lemma_uses_more(m[y], before, after, watched);
            }
        }
    }
}

/// A map that was extended by fresh variables.
proof fn lemma_rename_values(ids: Seq<LocalId>, m: Map<LocalId, ExprView>, n: nat)
    ensures
        forall|y: LocalId| #[trigger]
            m.contains_key(y) ==> rename_fresh(ids, m, n).0.contains_key(y) && rename_fresh(
                ids,
                m,
                n,
            ).0[y] == m[y],
        forall|y: LocalId| #[trigger]
            rename_fresh(ids, m, n).0.contains_key(y) && !m.contains_key(y) ==> ids.contains(y)
                && rename_fresh(ids, m, n).0[y] is LocalGet,
    decreases ids.len(),
{
    if ids.len() > 0 {
        let front = ids.drop_last();
        lemma_rename_values(front, m, n);
        let m1 = rename_fresh(front, m, n).0;
        let m2 = rename_fresh(ids, m, n).0;
        assert(ids[ids.len() - 1] == ids.last());
        assert forall|y: LocalId| #[trigger] m2.contains_key(y) && !m.contains_key(y) implies
            ids.contains(y) && m2[y] is LocalGet by {
            if m1.contains_key(y) {
                let i = choose|i: int| 0 <= i < front.len() && front[i] == y;
                assert(ids[i] == y);
            }
        }
    }
}

/// The map of a call fits behind lets that bind what its parameters are mapped to.
proof fn lemma_call_map_fits(
    f: FunctionView,
    args: Seq<ExprView>,
    n: nat,
    bound: Set<LocalId>,
    watched: Set<LocalId>,
)
    requires
        forall|y: LocalId| #[trigger]
            bind_fresh(f.params, args, pairs(f.params, args), n).0.contains_key(y) ==> uses_bound(
                call_map(f, args, n).0[y],
                bound,
                watched,
            ),
    ensures
        all_fit(call_map(f, args, n).0, let_ids(f), Set::empty(), bound, watched),
{
    let (m0, n1) = bind_fresh(f.params, args, pairs(f.params, args), n);
    let m = call_map(f, args, n).0;
    lemma_rename_values(bound_ids(f.body), m0, n1);
    assert forall|y: LocalId| #[trigger] m.contains_key(y) implies fits(
        y,
        m,
        let_ids(f),
        Set::empty(),
        bound,
        watched,
    ) by {
        if !m0.contains_key(y) {
            assert(let_ids(f).contains(y));
        }
    }
}

proof fn lemma_void_orderly(
    v: Seq<StmtView>,
    m: Map<LocalId, ExprView>,
    obj: LocalId,
    bound: Set<LocalId>,
    watched: Set<LocalId>,
)
    requires
        stmts_unwatched(v, watched),
        all_fit(m, Set::empty(), Set::empty(), bound, watched),
        watched.contains(obj) ==> bound.contains(obj),
    ensures
        void_stmts(v, m, obj) matches Some(out) ==> orderly(out, bound, watched) && bound_after(
            out,
            bound,
        ) == bound,
    decreases v.len(),
{
    if v.len() > 0 {
        let front = v.drop_last();
        assert forall|x: LocalId| #[trigger] watched.contains(x) implies
            stmts_free(front, x) by {
            lemma_stmts_free_front(v, x);
        }
        lemma_void_orderly(front, m, obj, bound, watched);
        lemma_unwatched_each(v, watched, v.len() - 1);
        lemma_unwatched_parts(v[v.len() - 1], watched);
        match (void_stmts(front, m, obj), v.last()) {
            (Some(out), StmtView::Expr(e)) => {
                lemma_method_expr_bound(e, m, obj, bound, watched);
                lemma_orderly_push(
                    out,
                    StmtView::Expr(method_expr(e, m, obj)),
                    bound,
                    watched,
                );
            },
            _ => {},
        }
    }
}

proof fn lemma_method_expr_bound(
    e: ExprView,
    m: Map<LocalId, ExprView>,
    obj: LocalId,
    bound: Set<LocalId>,
    watched: Set<LocalId>,
)
    requires
        unwatched(e, watched),
        all_fit(m, Set::empty(), Set::empty(), bound, watched),
        watched.contains(obj) ==> bound.contains(obj),
    ensures
        uses_bound(method_expr(e, m, obj), bound, watched),
{
    lemma_expr_fits(e, m, Set::empty(), Set::empty(), bound, watched);
    lemma_this_uses_bound(rewrite_expr(e, Rewrite::Locals(m)), obj, bound, watched);
}

/// A call inside an expression: what it needs is orderly, and what then stands for it
/// uses what that binds.
proof fn lemma_simple_orderly(
    e: ExprView,
    c: CandidatesView,
    types: Map<LocalId, Seq<char>>,
    n: nat,
    bound: Set<LocalId>,
    watched: Set<LocalId>,
)
    requires
        candidates_suit(c, watched),
        uses_bound(e, bound, watched),
    ensures
        simple_call(e, c, types, n) matches Some(simple) ==> orderly(simple.setup, bound, watched)
            && uses_bound(simple.result, bound_after(simple.setup, bound), watched),
{
    lemma_callee_suits(e, c, types, watched);
    lemma_args_use_bound(e, bound, watched);
    lemma_receiver_bound(e, c, types, bound, watched);
    let args = args_of(e);
    let none = Set::<LocalId>::empty();
    match callee_of(e, c, types) {
        Some(CalleeView::Function(f)) => {
            if f.body.len() > 0 {
                let last = f.body.len() - 1;
                assert(f.body.last() == f.body[last]);
                lemma_unwatched_each(f.body, watched, last);
                lemma_unwatched_parts(f.body[last], watched);
                let k = pairs(f.params, args);
                let own = let_ids(f);
                let front = f.body.drop_last();
                assert(orderly_stmt(f.body.last(), bound_after(front, none), own));
                if f.body.len() == 1 {
                    lemma_bind_args_fit(f.params, args, k, own, bound, watched);
                    let m = bind_args(f.params, args, k);
                    match f.body.last() {
                        StmtView::Return(Some(value)) => {
                            assert(front =~= Seq::empty());
                            assert(bound_after(front, none) == none);
                            lemma_expr_fits(value, m, own, none, bound, watched);
                        },
                        _ => {},
                    }
                } else {
                    let (m, n1) = call_map(f, args, n);
                    let lets = mapped_lets(f.params, args, k, m);
                    let mid = bound_after(lets, bound);
                    lemma_mapped_lets_orderly(f.params, args, k, n, m, bound, watched);
                    let (m0, n0) = bind_fresh(f.params, args, k, n);
                    lemma_rename_values(bound_ids(f.body), m0, n0);
                    lemma_call_map_fits(f, args, n, mid, watched);
                    assert forall|x: LocalId| #[trigger] watched.contains(x) implies
                        stmts_free(front, x) by {
                        lemma_stmts_free_front(f.body, x);
                    }
                    lemma_stmts_fit(front, m, own, none, mid, watched);
                    let body = rewrite_stmts(front, Rewrite::Locals(m));
                    lemma_orderly_concat(lets, body, bound, watched);
                    match f.body.last() {
                        StmtView::Return(Some(value)) => {
                            lemma_expr_fits(
                                value,
                                m,
                                own,
                                bound_after(front, none),
                                bound_after(body, mid),
                                watched,
                            );
                        },
                        _ => {},
                    }
                }
            }
        },
        Some(CalleeView::Method(obj, f)) => {
            let k = pairs(f.params, args);
            let m = bind_args(f.params, args, k);
            lemma_bind_args_fit(f.params, args, k, none, bound, watched);
            lemma_void_orderly(f.body, m, obj, bound, watched);
            lemma_free(ExprView::Undefined, 0);
            assert(uses_bound(ExprView::Undefined, bound, watched)) by {
                assert forall|x: LocalId| free(ExprView::Undefined, x) by {
                    lemma_free(ExprView::Undefined, x);
                }
            }
            if f.body.len() == 1 {
                lemma_unwatched_each(f.body, watched, 0);
                lemma_unwatched_parts(f.body[0], watched);
                match f.body.last() {
                    StmtView::Return(Some(value)) => {
                        lemma_method_expr_bound(value, m, obj, bound, watched);
                    },
                    _ => {},
                }
            }
        },
        None => {},
    }
}

/// A call that is a statement.
proof fn lemma_full_orderly(
    e: ExprView,
    c: CandidatesView,
    types: Map<LocalId, Seq<char>>,
    n: nat,
    bound: Set<LocalId>,
    watched: Set<LocalId>,
)
    requires
        candidates_suit(c, watched),
        uses_bound(e, bound, watched),
    ensures
        full_call(e, c, types, n) matches Some((body, _)) ==> orderly(body, bound, watched),
{
    lemma_callee_suits(e, c, types, watched);
    lemma_args_use_bound(e, bound, watched);
    lemma_receiver_bound(e, c, types, bound, watched);
    let args = args_of(e);
    let none = Set::<LocalId>::empty();
    let callee = match callee_of(e, c, types) {
        Some(CalleeView::Function(f)) => Some(f),
        Some(CalleeView::Method(_, f)) => Some(f),
        None => None,
    };
    match callee {
        Some(f) => {
            let k = pairs(f.params, args);
            let (m, n1) = call_map(f, args, n);
            let (m0, n0) = bind_fresh(f.params, args, k, n);
            let lets = argument_lets(f.params, args, k, n);
            let mid = bound_after(lets, bound);
            lemma_argument_lets_orderly(f.params, args, k, n, bound, watched);
            lemma_rename_values(bound_ids(f.body), m0, n0);
            lemma_call_map_fits(f, args, n, mid, watched);
            lemma_stmts_fit(f.body, m, let_ids(f), none, mid, watched);
            let body = rewrite_stmts(f.body, Rewrite::Locals(m));
            lemma_orderly_concat(lets, body, bound, watched);
            match callee_of(e, c, types) {
                Some(CalleeView::Method(obj, _)) => {
                    lemma_bound_grows(lets, bound);
                    lemma_this_orderly(body, obj, mid, watched);
                    lemma_orderly_concat(
                        lets,
                        rewrite_stmts(body, Rewrite::This(obj)),
                        bound,
                        watched,
                    );
                },
                _ => {},
            }
        },
        None => {},
    }
}

proof fn lemma_without_return_orderly(
    v: Seq<StmtView>,
    bound: Set<LocalId>,
    watched: Set<LocalId>,
)
    requires
        orderly(v, bound, watched),
    ensures
        orderly(without_return(v), bound, watched),
{
    if v.len() > 0 {
        assert(orderly_stmt(v.last(), bound_after(v.drop_last(), bound), watched));
        match v.last() {
            StmtView::Return(Some(e)) => {
                lemma_orderly_push(v.drop_last(), StmtView::Expr(e), bound, watched);
            },
            _ => {},
        }
    }
}

// ---------------------------------------------------------------------------
// All calls
// ---------------------------------------------------------------------------

proof fn lemma_rebuilt_uses_bound(
    e: ExprView,
    kids: Seq<ExprView>,
    bound: Set<LocalId>,
    more: Set<LocalId>,
    watched: Set<LocalId>,
)
    requires
        !(e is Closure),
        kids.len() == children(e).len(),
        uses_bound(e, bound, watched),
        bound.subset_of(more),
        all_use_bound(kids, more, watched),
    ensures
        uses_bound(with_children(e, kids), more, watched),
{
    assert forall|x: LocalId| #[trigger] watched.contains(x) && !more.contains(x) implies free(
        with_children(e, kids),
        x,
    ) by {
        lemma_free(e, x);
        assert forall|i: int| 0 <= i < kids.len() implies free(#[trigger] kids[i], x) by {
            assert(uses_bound(kids[i], more, watched));
        }
        lemma_rebuilt_free(e, kids, x);
    }
}

proof fn lemma_expr_orderly(
    e: ExprView,
    c: CandidatesView,
    types: Map<LocalId, Seq<char>>,
    n: nat,
    depth: nat,
    bound: Set<LocalId>,
    watched: Set<LocalId>,
)
    requires
        candidates_suit(c, watched),
        uses_bound(e, bound, watched),
    ensures
        inline_expr(e, c, types, n, depth) matches Some(run) ==> orderly(
            run.hoisted,
            bound,
            watched,
        ) && uses_bound(run.expr, bound_after(run.hoisted, bound), watched),
    decreases depth, e, 1nat, 0nat,
{
    lemma_simple_orderly(e, c, types, n, bound, watched);
    match simple_call(e, c, types, n) {
        Some(simple) => {
            if depth > 0 {
                let mid = bound_after(simple.setup, bound);
                let less = (depth - 1) as nat;
                lemma_expr_orderly(simple.result, c, types, simple.next, less, mid, watched);
                match inline_expr(simple.result, c, types, simple.next, less) {
                    Some(run) => lemma_orderly_concat(simple.setup, run.hoisted, bound, watched),
                    None => {},
                }
            }
        },
        None => {
            if searched(e) {
                let k = children(e).len();
                lemma_kids_orderly(e, k, c, types, n, depth, bound, watched);
                match inline_children(e, k, c, types, n, depth) {
                    Some(run) => {
                        lemma_bound_grows(run.hoisted, bound);
                        lemma_rebuilt_uses_bound(
                            e,
                            run.kids,
                            bound,
                            bound_after(run.hoisted, bound),
                            watched,
                        );
                    },
                    None => {},
                }
            }
        },
    }
}

proof fn lemma_kids_orderly(
    e: ExprView,
    k: nat,
    c: CandidatesView,
    types: Map<LocalId, Seq<char>>,
    n: nat,
    depth: nat,
    bound: Set<LocalId>,
    watched: Set<LocalId>,
)
    requires
        candidates_suit(c, watched),
        uses_bound(e, bound, watched),
        k <= children(e).len(),
    ensures
        inline_children(e, k, c, types, n, depth) matches Some(run) ==> {
            &&& run.kids.len() == k
            &&& orderly(run.hoisted, bound, watched)
            &&& all_use_bound(run.kids, bound_after(run.hoisted, bound), watched)
        },
    decreases depth, e, 0nat, k,
{
    if k > 0 {
        lemma_children_smaller(e, k - 1);
        lemma_kids_orderly(e, (k - 1) as nat, c, types, n, depth, bound, watched);
        match inline_children(e, (k - 1) as nat, c, types, n, depth) {
            Some(front) => {
                let mid = bound_after(front.hoisted, bound);
                let kid = children(e)[k - 1];
                lemma_children_use_bound(e, bound, watched);
                lemma_bound_grows(front.hoisted, bound);
                lemma_uses_more(children(e)[k - 1], bound, mid, watched);
                lemma_expr_orderly(kid, c, types, front.next, depth, mid, watched);
                match inline_expr(kid, c, types, front.next, depth) {
                    Some(run) => {
                        lemma_orderly_concat(front.hoisted, run.hoisted, bound, watched);
                        lemma_bound_grows(run.hoisted, mid);
                        let after = bound_after(run.hoisted, mid);
                        let kids = front.kids.push(run.expr);
                        assert forall|i: int| 0 <= i < kids.len() implies uses_bound(
                            #[trigger] kids[i],
                            after,
                            watched,
                        ) by {
                            if i < front.kids.len() {
                                assert(kids[i] == front.kids[i]);
                                lemma_uses_more(front.kids[i], mid, after, watched);
                            }
                        }
                    },
                    None => {},
                }
            },
            None => {},
        }
    }
}

proof fn lemma_unwatched_uses(e: ExprView, bound: Set<LocalId>, watched: Set<LocalId>)
    requires
        unwatched(e, watched),
    ensures
        uses_bound(e, bound, watched),
{
}

proof fn lemma_head_orderly(
    o: Option<ExprView>,
    c: CandidatesView,
    types: Map<LocalId, Seq<char>>,
    n: nat,
    depth: nat,
    bound: Set<LocalId>,
    watched: Set<LocalId>,
)
    requires
        candidates_suit(c, watched),
        o matches Some(e) ==> unwatched(e, watched),
    ensures
        inline_head(o, c, types, n, depth) matches Some((out, _)) ==> opt_uses_bound(
            out,
            bound,
            watched,
        ),
{
    match o {
        Some(e) => {
            lemma_unwatched_uses(e, bound, watched);
            lemma_expr_orderly(e, c, types, n, depth, bound, watched);
        },
        None => {},
    }
}

/// What becomes of a statement that names no watched variable is orderly.
proof fn lemma_stmt_orderly(
    s: StmtView,
    c: CandidatesView,
    known: Map<LocalId, Seq<char>>,
    n: nat,
    depth: nat,
    bound: Set<LocalId>,
    watched: Set<LocalId>,
)
    requires
        candidates_suit(c, watched),
        stmt_unwatched(s, watched),
    ensures
        inline_stmt(s, c, known, n, depth) matches Some(run) ==> orderly(run.out, bound, watched),
    decreases s, 2nat,
{
    let types = noted(s, known);
    lemma_unwatched_parts(s, watched);
    match s {
        StmtView::Expr(e) => {
            lemma_unwatched_uses(e, bound, watched);
            lemma_full_orderly(e, c, types, n, bound, watched);
            let start = match full_call(e, c, types, n) {
                Some((body, n1)) => {
                    lemma_without_return_orderly(body, bound, watched);
                    n1
                },
                None => n,
            };
            lemma_expr_orderly(e, c, types, start, depth, bound, watched);
            match inline_expr(e, c, types, start, depth) {
                Some(run) => {
                    lemma_orderly_push(run.hoisted, StmtView::Expr(run.expr), bound, watched);
                },
                None => {},
            }
        },
        StmtView::Let { id, name, ty, mutable, init: Some(e) } => {
            lemma_unwatched_uses(e, bound, watched);
            lemma_expr_orderly(e, c, types, n, depth, bound, watched);
            match inline_expr(e, c, types, n, depth) {
                Some(run) => {
                    let out = StmtView::Let { id, name, ty, mutable, init: Some(run.expr) };
                    lemma_orderly_push(run.hoisted, out, bound, watched);
                },
                None => {},
            }
        },
        StmtView::Return(Some(e)) => {
            lemma_unwatched_uses(e, bound, watched);
            lemma_expr_orderly(e, c, types, n, depth, bound, watched);
            match inline_expr(e, c, types, n, depth) {
                Some(run) => {
                    let out = StmtView::Return(Some(run.expr));
                    lemma_orderly_push(run.hoisted, out, bound, watched);
                },
                None => {},
            }
        },
        StmtView::Throw(e) => {
            lemma_unwatched_uses(e, bound, watched);
            lemma_expr_orderly(e, c, types, n, depth, bound, watched);
            match inline_expr(e, c, types, n, depth) {
                Some(run) => {
                    lemma_orderly_push(run.hoisted, StmtView::Throw(run.expr), bound, watched);
                },
                None => {},
            }
        },
        StmtView::If { .. } => lemma_if_orderly(s, c, known, n, depth, bound, watched),
        StmtView::While { .. } => lemma_while_orderly(s, c, known, n, depth, bound, watched),
        StmtView::For { .. } => lemma_for_orderly(s, c, known, n, depth, bound, watched),
        _ => {
            lemma_unwatched_orderly_stmt(s, bound, watched);
            lemma_orderly_one(s, bound, watched);
        },
    }
}

proof fn lemma_if_orderly(
    s: StmtView,
    c: CandidatesView,
    known: Map<LocalId, Seq<char>>,
    n: nat,
    depth: nat,
    bound: Set<LocalId>,
    watched: Set<LocalId>,
)
    requires
        s is If,
        candidates_suit(c, watched),
        stmt_unwatched(s, watched),
    ensures
        inline_stmt(s, c, known, n, depth) matches Some(run) ==> orderly(run.out, bound, watched),
    decreases s, 1nat,
{
    let types = noted(s, known);
    lemma_unwatched_parts(s, watched);
    match s {
        StmtView::If { condition, then_branch, else_branch } => {
            if inline_stmt(s, c, known, n, depth) is Some {
                let cond = inline_expr(condition, c, types, n, depth)->0;
                lemma_unwatched_uses(condition, bound, watched);
                lemma_expr_orderly(condition, c, types, n, depth, bound, watched);
                let mid = bound_after(cond.hoisted, bound);
                let yes = inline_stmts(then_branch, c, types, cond.next, depth)->0;
                lemma_stmts_orderly(then_branch, c, types, cond.next, depth, mid, watched);
                match else_branch {
                    Some(b) => {
                        let no = inline_stmts(b, c, yes.types, yes.next, depth)->0;
                        lemma_stmts_orderly(b, c, yes.types, yes.next, depth, mid, watched);
                        let out = StmtView::If {
                            condition: cond.expr,
                            then_branch: yes.out,
                            else_branch: Some(no.out),
                        };
                        lemma_orderly_push(cond.hoisted, out, bound, watched);
                    },
                    None => {
                        let out = StmtView::If {
                            condition: cond.expr,
                            then_branch: yes.out,
                            else_branch: None,
                        };
                        lemma_orderly_push(cond.hoisted, out, bound, watched);
                    },
                }
            }
        },
        _ => {},
    }
}

proof fn lemma_while_orderly(
    s: StmtView,
    c: CandidatesView,
    known: Map<LocalId, Seq<char>>,
    n: nat,
    depth: nat,
    bound: Set<LocalId>,
    watched: Set<LocalId>,
)
    requires
        s is While,
        candidates_suit(c, watched),
        stmt_unwatched(s, watched),
    ensures
        inline_stmt(s, c, known, n, depth) matches Some(run) ==> orderly(run.out, bound, watched),
    decreases s, 1nat,
{
    let types = noted(s, known);
    lemma_unwatched_parts(s, watched);
    match s {
        StmtView::While { condition, body } => {
            if inline_stmt(s, c, known, n, depth) is Some {
                let cond = inline_expr(condition, c, types, n, depth)->0;
                lemma_head_orderly(Some(condition), c, types, n, depth, bound, watched);
                let run = inline_stmts(body, c, types, cond.next, depth)->0;
                lemma_stmts_orderly(body, c, types, cond.next, depth, bound, watched);
                let out = StmtView::While { condition: head_of(condition, cond), body: run.out };
                lemma_orderly_one(out, bound, watched);
            }
        },
        _ => {},
    }
}

proof fn lemma_for_orderly(
    s: StmtView,
    c: CandidatesView,
    known: Map<LocalId, Seq<char>>,
    n: nat,
    depth: nat,
    bound: Set<LocalId>,
    watched: Set<LocalId>,
)
    requires
        s is For,
        candidates_suit(c, watched),
        stmt_unwatched(s, watched),
    ensures
        inline_stmt(s, c, known, n, depth) matches Some(run) ==> orderly(run.out, bound, watched),
    decreases s, 1nat,
{
    let types = noted(s, known);
    lemma_unwatched_parts(s, watched);
    match s {
        StmtView::For { init, condition, update, body } => {
            if inline_stmt(s, c, known, n, depth) is Some {
                let (start, types1, n1) = match init {
                    Some(i) => {
                        assert forall|x: LocalId| #[trigger] watched.contains(x) implies
                            stmt_free(*i, x) by {
                            assert(parts_free_of(s, x));
                        }
                        lemma_stmt_orderly(*i, c, types, n, depth, bound, watched);
                        let run = inline_stmt(*i, c, types, n, depth)->0;
                        let first = if run.out.len() == 1 { run.out[0] } else { *i };
                        if run.out.len() == 1 {
                            assert(run.out =~= seq![first]);
                            lemma_orderly_one(first, bound, watched);
                        } else {
                            lemma_unwatched_orderly_stmt(first, bound, watched);
                        }
                        (Some(Box::new(first)), run.types, run.next)
                    },
                    None => (None, types, n),
                };
                let inside = match start {
                    Some(i) => bound_behind(*i, bound),
                    None => bound,
                };
                lemma_head_orderly(condition, c, types1, n1, depth, inside, watched);
                let (cond, n2) = inline_head(condition, c, types1, n1, depth)->0;
                lemma_head_orderly(update, c, types1, n2, depth, inside, watched);
                let (upd, n3) = inline_head(update, c, types1, n2, depth)->0;
                lemma_stmts_orderly(body, c, types1, n3, depth, inside, watched);
                let run = inline_stmts(body, c, types1, n3, depth)->0;
                let out = StmtView::For {
                    init: start,
                    condition: cond,
                    update: upd,
                    body: run.out,
                };
                lemma_orderly_one(out, bound, watched);
            }
        },
        _ => {},
    }
}

/// What becomes of statements that name no watched variable is orderly.
pub proof fn lemma_stmts_orderly(
    v: Seq<StmtView>,
    c: CandidatesView,
    types: Map<LocalId, Seq<char>>,
    n: nat,
    depth: nat,
    bound: Set<LocalId>,
    watched: Set<LocalId>,
)
    requires
        candidates_suit(c, watched),
        stmts_unwatched(v, watched),
    ensures
        inline_stmts(v, c, types, n, depth) matches Some(run) ==> orderly(run.out, bound, watched),
    decreases v, v.len() + 1,
{
    lemma_first_orderly(v, v.len(), c, types, n, depth, bound, watched);
}

proof fn lemma_first_orderly(
    v: Seq<StmtView>,
    k: nat,
    c: CandidatesView,
    types: Map<LocalId, Seq<char>>,
    n: nat,
    depth: nat,
    bound: Set<LocalId>,
    watched: Set<LocalId>,
)
    requires
        candidates_suit(c, watched),
        stmts_unwatched(v, watched),
    ensures
        inline_first(v, k, c, types, n, depth) matches Some(run) ==> orderly(
            run.out,
            bound,
            watched,
        ),
    decreases v, k,
{
    if 0 < k <= v.len() {
        lemma_first_orderly(v, (k - 1) as nat, c, types, n, depth, bound, watched);
        match inline_first(v, (k - 1) as nat, c, types, n, depth) {
            Some(front) => {
                let mid = bound_after(front.out, bound);
                lemma_unwatched_each(v, watched, k - 1);
                lemma_stmt_orderly(v[k - 1], c, front.types, front.next, depth, mid, watched);
                match inline_stmt(v[k - 1], c, front.types, front.next, depth) {
                    Some(one) => lemma_orderly_concat(front.out, one.out, bound, watched),
                    None => {},
                }
            },
            None => {},
        }
    }
}

} // verus!

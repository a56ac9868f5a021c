//! Inlining keeps what statements compute: the variables that lets bind, the value that
//! is returned or thrown, the conditions of branches and loops, and what a call does that
//! is a statement of its own.

use crate::hir::LocalId;
use crate::inline::calls::{
    any_returns, has_return, head_of, inline_expr, inline_first, inline_stmt, noted,
    returns_early, without_return,
};
use crate::inline::candidate::{bound_ids, is_trivial};
use crate::inline::expand::{
    all_const_lets, args_of, argument_let, argument_lets, bind_fresh, call_map, callee_of,
    full_call, is_const_let, last_return, mapped_lets, pairs, simple_call, CalleeView,
    CandidatesView,
};
use crate::inline::fresh::free;
use crate::inline::lets::{binds_once, lemma_bind_fresh, lemma_binds_once, lemma_rename_fresh};
use crate::inline::meaning::{distinct_params, reads_only, value};
use crate::inline::meaning_calls::{
    calls_mean_bodies, law_inlining_keeps_the_value, lemma_plain_grows, plain_candidates,
    stands_for,
};
use crate::inline::meaning_lets::{
    argument_id, init_of, law_value_depends_on_what_is_read, lemma_run_concat, lemma_trivial_bound,
    maps_params, names_below, run_lets,
};
use crate::inline::scan::param_ids;
use crate::model::{ExprView, FunctionView, ParamView, StmtView};
use crate::rewrite::{rewrite_expr, rewrite_stmt, rewrite_stmts, Rewrite};
use crate::rewrite_laws::law_rewrite_goes_statement_by_statement;
use vstd::prelude::*;

verus! {

// ---------------------------------------------------------------------------
// Statements with an expression
// ---------------------------------------------------------------------------

/// A statement around an expression is still there, last, with an expression that has,
/// once what stands in front of it has run, the value of the one before.
#[verifier::rlimit(40)]
pub proof fn law_statement_keeps_its_value<V>(
    s: StmtView,
    e: ExprView,
    c: CandidatesView,
    known: Map<LocalId, Seq<char>>,
    n: nat,
    depth: nat,
    env: spec_fn(LocalId) -> V,
    this: V,
    node: spec_fn(ExprView, Seq<V>) -> V,
)
    requires
        s == StmtView::Return(Some(e)) || s == StmtView::Throw(e) || (
        s matches StmtView::Let { init, .. } && init == Some(e)) || (s == StmtView::Expr(e)
            && full_call(e, c, known, n) is None),
        plain_candidates(c, n),
        calls_mean_bodies(c, this, node),
        reads_only(e),
        names_below(e, n),
    ensures
        inline_stmt(s, c, known, n, depth) matches Some(run) ==> {
            let front = run.out.drop_last();
            let last = run.out.last();
            &&& run.out.len() > 0
            &&& s is Return ==> (last matches StmtView::Return(Some(x)) && stands_for(
                front,
                x,
                run.next,
                e,
                n,
                env,
                this,
                node,
            ))
            &&& s is Throw ==> (last matches StmtView::Throw(x) && stands_for(
                front,
                x,
                run.next,
                e,
                n,
                env,
                this,
                node,
            ))
            &&& s is Expr ==> (last matches StmtView::Expr(x) && stands_for(
                front,
                x,
                run.next,
                e,
                n,
                env,
                this,
                node,
            ))
            &&& s matches StmtView::Let { id, name, ty, mutable, .. } ==> (
            last matches StmtView::Let { id: id2, name: name2, ty: ty2, mutable: m2, init: Some(x) }
                && id2 == id && name2 == name && ty2 == ty && m2 == mutable && stands_for(
                front,
                x,
                run.next,
                e,
                n,
                env,
                this,
                node,
            ))
        },
{
    let types = noted(s, known);
    law_inlining_keeps_the_value(e, c, types, n, depth, env, this, node);
    if inline_stmt(s, c, known, n, depth) is Some {
        let run = inline_stmt(s, c, known, n, depth)->0;
        let inner = inline_expr(e, c, types, n, depth)->0;
        assert(run.out.drop_last() =~= inner.hoisted);
    }
}

/// A branch still goes by the value of its condition.
pub proof fn law_branch_keeps_its_condition<V>(
    condition: ExprView,
    then_branch: Seq<StmtView>,
    else_branch: Option<Seq<StmtView>>,
    c: CandidatesView,
    known: Map<LocalId, Seq<char>>,
    n: nat,
    depth: nat,
    env: spec_fn(LocalId) -> V,
    this: V,
    node: spec_fn(ExprView, Seq<V>) -> V,
)
    requires
        plain_candidates(c, n),
        calls_mean_bodies(c, this, node),
        reads_only(condition),
        names_below(condition, n),
    ensures
        inline_stmt(
            StmtView::If { condition, then_branch, else_branch },
            c,
            known,
            n,
            depth,
        ) matches Some(run) ==> run.out.len() > 0 && (run.out.last() matches StmtView::If {
            condition: x,
            else_branch: other,
            ..
        } && value(x, run_lets(run.out.drop_last(), env, this, node), this, node) == value(
            condition,
            env,
            this,
            node,
        ) && (other is Some <==> else_branch is Some)),
{
    let s = StmtView::If { condition, then_branch, else_branch };
    law_inlining_keeps_the_value(condition, c, known, n, depth, env, this, node);
    if inline_stmt(s, c, known, n, depth) is Some {
        let run = inline_stmt(s, c, known, n, depth)->0;
        let inner = inline_expr(condition, c, known, n, depth)->0;
        assert(run.out.drop_last() =~= inner.hoisted);
    }
}

/// The head of a loop has, each time anew and with nothing in front of it, the value that
/// it had before.
pub proof fn law_loop_head_keeps_its_value<V>(
    e: ExprView,
    c: CandidatesView,
    types: Map<LocalId, Seq<char>>,
    n: nat,
    depth: nat,
    env: spec_fn(LocalId) -> V,
    this: V,
    node: spec_fn(ExprView, Seq<V>) -> V,
)
    requires
        plain_candidates(c, n),
        calls_mean_bodies(c, this, node),
        reads_only(e),
        names_below(e, n),
    ensures
        inline_expr(e, c, types, n, depth) matches Some(run) ==> value(
            head_of(e, run),
            env,
            this,
            node,
        ) == value(e, env, this, node),
{
    law_inlining_keeps_the_value(e, c, types, n, depth, env, this, node);
    if inline_expr(e, c, types, n, depth) is Some {
        let run = inline_expr(e, c, types, n, depth)->0;
        if run.hoisted.len() == 0 {
            assert(run_lets(run.hoisted, env, this, node) == env);
        }
    }
}

/// A loop goes by the value of its condition.
pub proof fn law_while_keeps_its_condition<V>(
    condition: ExprView,
    body: Seq<StmtView>,
    c: CandidatesView,
    known: Map<LocalId, Seq<char>>,
    n: nat,
    depth: nat,
    env: spec_fn(LocalId) -> V,
    this: V,
    node: spec_fn(ExprView, Seq<V>) -> V,
)
    requires
        plain_candidates(c, n),
        calls_mean_bodies(c, this, node),
        reads_only(condition),
        names_below(condition, n),
    ensures
        inline_stmt(StmtView::While { condition, body }, c, known, n, depth) matches Some(run)
            ==> run.out.len() == 1 && (run.out[0] matches StmtView::While { condition: x, .. }
            && value(x, env, this, node) == value(condition, env, this, node)),
{
    law_loop_head_keeps_its_value(condition, c, known, n, depth, env, this, node);
}

// ---------------------------------------------------------------------------
// Lists of lets
// ---------------------------------------------------------------------------

/// Lets with their calls inlined bind the same variables to the same values. (What is
/// added binds ids from `n` on.)
#[verifier::rlimit(40)]
pub proof fn law_inlined_lets_compute_the_same<V>(
    v: Seq<StmtView>,
    k: nat,
    c: CandidatesView,
    types: Map<LocalId, Seq<char>>,
    n: nat,
    depth: nat,
    env: spec_fn(LocalId) -> V,
    this: V,
    node: spec_fn(ExprView, Seq<V>) -> V,
)
    requires
        k <= v.len(),
        all_const_lets(v),
        plain_candidates(c, n),
        calls_mean_bodies(c, this, node),
        forall|j: int|
            0 <= j < v.len() ==> reads_only(init_of(#[trigger] v[j])) && names_below(
                init_of(v[j]),
                n,
            ),
        forall|j: int|
            0 <= j < v.len() ==> (#[trigger] v[j] matches StmtView::Let { id, .. } ==> id < n),
    ensures
        inline_first(v, k, c, types, n, depth) matches Some(run) ==> {
            &&& n <= run.next
            &&& forall|x: LocalId|
                x < n ==> #[trigger] run_lets(run.out, env, this, node)(x) == run_lets(
                    v.take(k as int),
                    env,
                    this,
                    node,
                )(x)
        },
    decreases k,
{
    if k == 0 {
        assert(v.take(0) =~= Seq::empty());
    } else if inline_first(v, k, c, types, n, depth) is Some {
        let j = (k - 1) as nat;
        let run = inline_first(v, k, c, types, n, depth)->0;
        law_inlined_lets_compute_the_same(v, j, c, types, n, depth, env, this, node);
        let front = inline_first(v, j, c, types, n, depth)->0;
        let a0 = run_lets(front.out, env, this, node);
        let b0 = run_lets(v.take(j as int), env, this, node);
        let s = v[j as int];
        let e = init_of(s);
        assert(is_const_let(s));
        lemma_plain_grows(c, n, front.next);
        assert(names_below(e, front.next)) by {
            assert forall|x: LocalId| front.next <= x implies #[trigger] free(e, x) by {
                assert(names_below(e, n));
            }
        }
        law_statement_keeps_its_value(s, e, c, front.types, front.next, depth, a0, this, node);
        let one = inline_stmt(s, c, front.types, front.next, depth)->0;
        let hoisted = one.out.drop_last();
        lemma_run_concat(front.out, one.out, env, this, node);
        assert(value(e, a0, this, node) == value(e, b0, this, node)) by {
            assert forall|x: LocalId| !#[trigger] free(e, x) implies a0(x) == b0(x) by {
                if n <= x {
                    assert(free(e, x));
                }
            }
            law_value_depends_on_what_is_read(e, a0, b0, this, node);
        }
        assert(v.take(k as int).drop_last() =~= v.take(j as int));
        assert(v.take(k as int).last() == s);
        let a1 = run_lets(run.out, env, this, node);
        let b1 = run_lets(v.take(k as int), env, this, node);
        assert(a1 == run_lets(one.out, a0, this, node));
        let mid = run_lets(hoisted, a0, this, node);
        assert forall|x: LocalId| x < n implies #[trigger] a1(x) == b1(x) by {
            assert(mid(x) == a0(x));
            assert(a0(x) == b0(x));
        }
    }
}

// ---------------------------------------------------------------------------
// Calls that are statements
// ---------------------------------------------------------------------------

/// The body of a call without its return: a value that is returned is computed, and
/// nothing else changes.
pub proof fn law_return_is_dropped(v: Seq<StmtView>, e: ExprView, s: StmtView)
    ensures
        without_return(v.push(StmtView::Return(Some(e)))) == v.push(StmtView::Expr(e)),
        without_return(v.push(StmtView::Return(None))) == v,
        !(s is Return) ==> without_return(v.push(s)) == v.push(s),
        without_return(Seq::empty()) == Seq::<StmtView>::empty(),
{
    assert(v.push(StmtView::Return(Some(e))).drop_last() =~= v);
    assert(v.push(StmtView::Return(None)).drop_last() =~= v);
}

/// A body returns early where some statement before its last one returns, at the top or
/// in a branch, or where the last one is a branch that does.
pub proof fn law_returns_early(a: Seq<StmtView>, b: Seq<StmtView>, s: StmtView, o: Option<ExprView>)
    ensures
        any_returns(a + b) <==> any_returns(a) || any_returns(b),
        has_return(StmtView::Return(o)),
        s matches StmtView::If { then_branch, else_branch, .. } ==> (has_return(s) <==> any_returns(
            then_branch,
        ) || (else_branch matches Some(x) && any_returns(x))),
        !(s is Return) && !(s is If) ==> !has_return(s),
        returns_early(a.push(StmtView::Return(o))) <==> any_returns(a),
        !(s is Return) ==> (returns_early(a.push(s)) <==> any_returns(a) || has_return(s)),
        any_returns(seq![s]) <==> has_return(s),
{
    assert(a.push(s).drop_last() =~= a);
    assert(a.push(StmtView::Return(o)).drop_last() =~= a);
    if any_returns(a + b) {
        let i = choose|i: int| 0 <= i < (a + b).len() && has_return(#[trigger] (a + b)[i]);
        if i < a.len() {
            assert(has_return(a[i]));
        } else {
            assert(has_return(b[i - a.len()]));
        }
    }
    if any_returns(a) {
        let i = choose|i: int| 0 <= i < a.len() && has_return(#[trigger] a[i]);
        assert(has_return((a + b)[i]));
    }
    if any_returns(b) {
        let i = choose|i: int| 0 <= i < b.len() && has_return(#[trigger] b[i]);
        assert(has_return((a + b)[a.len() + i]));
    }
    assert(seq![s][0] == s);
}

proof fn lemma_same_lets(
    params: Seq<ParamView>,
    args: Seq<ExprView>,
    k: nat,
    n: nat,
    m: Map<LocalId, ExprView>,
)
    requires
        maps_params(params, args, k, n, m),
    ensures
        mapped_lets(params, args, k, m) == argument_lets(params, args, k, n),
    decreases k,
{
    if k > 0 {
        let j = (k - 1) as nat;
        assert(maps_params(params, args, j, n, m));
        lemma_same_lets(params, args, j, n, m);
        assert(m.contains_key(params[j as int].id));
        if !is_trivial(args[j as int]) {
            assert(m[params[j as int].id] == ExprView::LocalGet(
                argument_id(params, args, j as int, n),
            ));
        }
    }
}

/// A call of a function with constants that is a statement of its own runs the same
/// statements as the call inside an expression, and then computes the same value, which
/// nothing uses.
#[verifier::rlimit(40)]
pub proof fn law_statement_call_runs_the_body(
    e: ExprView,
    f: FunctionView,
    c: CandidatesView,
    types: Map<LocalId, Seq<char>>,
    n: nat,
)
    requires
        callee_of(e, c, types) == Some(CalleeView::Function(f)),
        f.body.len() > 1,
        last_return(f.body) is Some,
        all_const_lets(f.body.drop_last()),
        binds_once(f),
    ensures
        simple_call(e, c, types, n) matches Some(simple) && (full_call(
            e,
            c,
            types,
            n,
        ) matches Some((body, next)) && next == simple.next && !returns_early(body)
            && without_return(body) == simple.setup.push(StmtView::Expr(simple.result))),
{
    let args = args_of(e);
    let k = pairs(f.params, args);
    let b = last_return(f.body)->0;
    let v = f.body.drop_last();
    let (m0, n1) = bind_fresh(f.params, args, k, n);
    let (m, n2) = call_map(f, args, n);
    let r = Rewrite::Locals(m);
    lemma_binds_once(f);
    assert(distinct_params(f.params)) by {
        assert forall|i: int, j: int| 0 <= i < j < f.params.len() implies (#[trigger] f.params[i]).id
            != (#[trigger] f.params[j]).id by {
            assert(param_ids(f.params)[i] != param_ids(f.params)[j]);
        }
    }
    let ids = bound_ids(f.body);
    lemma_bind_fresh(f.params, args, k, n);
    assert forall|i: int| 0 <= i < ids.len() implies !m0.contains_key(#[trigger] ids[i]) by {
        if m0.contains_key(ids[i]) {
            let q = choose|q: int| 0 <= q < k && #[trigger] f.params[q].id == ids[i];
            assert(f.params[q].id != ids[i]);
        }
    }
    lemma_rename_fresh(ids, m0, n1);
    lemma_trivial_bound(f.params, args, k, n);
    assert(maps_params(f.params, args, k, n, m)) by {
        assert forall|i: int| 0 <= i < k implies m.contains_key((#[trigger] f.params[i]).id)
            && m[f.params[i].id] == if is_trivial(args[i]) {
            args[i]
        } else {
            ExprView::LocalGet(argument_id(f.params, args, i, n))
        } by {
            assert(m0.contains_key(f.params[i].id));
        }
    }
    lemma_same_lets(f.params, args, k, n, m);
    let lets = argument_lets(f.params, args, k, n);
    let w = rewrite_stmts(v, r);
    let last = StmtView::Return(Some(rewrite_expr(b, r)));
    assert(f.body =~= v.push(StmtView::Return(Some(b))));
    assert(rewrite_stmts(f.body, r) =~= w.push(last)) by {
        assert(rewrite_stmt(StmtView::Return(Some(b)), r) == last);
    }
    let body = lets + rewrite_stmts(f.body, r);
    assert(body =~= (lets + w).push(last));
    law_return_is_dropped(lets + w, rewrite_expr(b, r), last);
    law_returns_early(lets, w, last, Some(rewrite_expr(b, r)));
    law_returns_early(lets + w, Seq::empty(), last, Some(rewrite_expr(b, r)));
    assert(!any_returns(w)) by {
        assert forall|i: int| 0 <= i < w.len() implies !has_return(#[trigger] w[i]) by {
            assert(is_const_let(v[i]));
            law_rewrite_goes_statement_by_statement(Seq::empty(), Seq::empty(), v[i], r);
            assert(w[i] == rewrite_stmt(v[i], r));
        }
    }
    assert(!any_returns(lets)) by {
        lemma_lets_do_not_return(f.params, args, k, n);
    }
}

proof fn lemma_lets_do_not_return(
    params: Seq<ParamView>,
    args: Seq<ExprView>,
    k: nat,
    n: nat,
)
    ensures
        !any_returns(argument_lets(params, args, k, n)),
    decreases k,
{
    if k > 0 {
        lemma_lets_do_not_return(params, args, (k - 1) as nat, n);
        let front = argument_lets(params, args, (k - 1) as nat, n);
        if !is_trivial(args[k - 1]) {
            let s = argument_let(
                bind_fresh(params, args, (k - 1) as nat, n).1 as LocalId,
                params[k - 1],
                args[k - 1],
            );
            law_returns_early(front, seq![s], s, None);
            assert(front.push(s) =~= front + seq![s]);
        }
    }
}

} // verus!

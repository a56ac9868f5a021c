//! What an inlined call of a function with constants means: the lets that run first
//! and the expression behind them have, together, the value of the call.

use crate::hir::LocalId;
use crate::inline::candidate::{bound_by, bound_ids, is_trivial};
use crate::inline::expand::{
    all_const_lets, argument_let, bind_fresh, call_map, is_const_let, last_return,
    lemma_bind_fresh_grows, mapped_lets, pairs, rename_fresh, simple_function,
};
use crate::inline::fresh::{free, lemma_free};
use crate::inline::lets::{binds_once, lemma_bind_fresh, lemma_binds_once, lemma_rename_fresh};
use crate::inline::meaning::{
    among_first, call_env, distinct_params, law_substitution_is_by_value, reads_only, value,
};
use crate::inline::scan::param_ids;
use crate::model::{ExprView, FunctionView, ParamView, StmtView};
use crate::rewrite::{remap, rewrite_stmt, rewrite_stmts, Rewrite};
use crate::rewrite_laws::law_idle_rewrite_keeps_expr;
use crate::walk::children;
use vstd::prelude::*;

verus! {

/// The variables after the lets were run.
pub open spec fn run_lets<V>(
    v: Seq<StmtView>,
    env: spec_fn(LocalId) -> V,
    this: V,
    node: spec_fn(ExprView, Seq<V>) -> V,
) -> spec_fn(LocalId) -> V
    decreases v.len(),
{
    if v.len() == 0 {
        env
    } else {
        let before = run_lets(v.drop_last(), env, this, node);
        match v.last() {
            StmtView::Let { id, init: Some(e), .. } => |x: LocalId|
                if x == id {
                    value(e, before, this, node)
                } else {
                    before(x)
                },
            _ => before,
        }
    }
}

pub proof fn lemma_run_concat<V>(
    a: Seq<StmtView>,
    b: Seq<StmtView>,
    env: spec_fn(LocalId) -> V,
    this: V,
    node: spec_fn(ExprView, Seq<V>) -> V,
)
    ensures
        run_lets(a + b, env, this, node) == run_lets(b, run_lets(a, env, this, node), this, node),
    decreases b.len(),
{
    if b.len() == 0 {
        assert(a + b =~= a);
    } else {
        assert((a + b).drop_last() =~= a + b.drop_last());
        lemma_run_concat(a, b.drop_last(), env, this, node);
    }
}

/// An expression has the same value where the variables that it reads have.
pub proof fn law_value_depends_on_what_is_read<V>(
    e: ExprView,
    a: spec_fn(LocalId) -> V,
    b: spec_fn(LocalId) -> V,
    this: V,
    node: spec_fn(ExprView, Seq<V>) -> V,
)
    requires
        reads_only(e),
        forall|x: LocalId| !#[trigger] free(e, x) ==> a(x) == b(x),
    ensures
        value(e, a, this, node) == value(e, b, this, node),
{
    let none = Map::<LocalId, ExprView>::empty();
    law_idle_rewrite_keeps_expr(e, Rewrite::Locals(none));
    law_substitution_is_by_value(e, none, a, b, this, node);
}

/// Whether the expression names no id from `n` on.
pub open spec fn names_below(e: ExprView, n: nat) -> bool {
    forall|x: LocalId| n <= x ==> #[trigger] free(e, x)
}

/// Whether every argument only reads variables, below `n`.
pub open spec fn args_below(args: Seq<ExprView>, n: nat) -> bool {
    forall|i: int|
        0 <= i < args.len() ==> reads_only(#[trigger] args[i]) && names_below(args[i], n)
}

/// The variable of a nontrivial argument.
pub open spec fn argument_id(
    params: Seq<ParamView>,
    args: Seq<ExprView>,
    i: int,
    n: nat,
) -> LocalId {
    bind_fresh(params, args, i as nat, n).1 as LocalId
}

/// Whether the map sends each of the first parameters to its argument, or to the
/// variable of it.
pub open spec fn maps_params(
    params: Seq<ParamView>,
    args: Seq<ExprView>,
    k: nat,
    n: nat,
    m: Map<LocalId, ExprView>,
) -> bool {
    forall|i: int|
        0 <= i < k ==> m.contains_key((#[trigger] params[i]).id) && m[params[i].id]
            == if is_trivial(args[i]) {
            args[i]
        } else {
            ExprView::LocalGet(argument_id(params, args, i, n))
        }
}

pub proof fn lemma_trivial_bound(params: Seq<ParamView>, args: Seq<ExprView>, k: nat, n: nat)
    requires
        distinct_params(params),
        k <= params.len(),
    ensures
        maps_params(params, args, k, n, bind_fresh(params, args, k, n).0),
    decreases k,
{
    if k > 0 {
        lemma_trivial_bound(params, args, (k - 1) as nat, n);
        let m0 = bind_fresh(params, args, (k - 1) as nat, n).0;
        let m = bind_fresh(params, args, k, n).0;
        assert forall|i: int| 0 <= i < k implies m.contains_key((#[trigger] params[i]).id)
            && m[params[i].id] == if is_trivial(args[i]) {
            args[i]
        } else {
            ExprView::LocalGet(argument_id(params, args, i, n))
        } by {
            if i < k - 1 {
                assert(params[i].id != params[k - 1].id);
                assert(m0.contains_key(params[i].id));
            }
        }
    }
}

/// The lets for the arguments: each nontrivial argument is then in its variable, and
/// older variables are what they were.
#[verifier::rlimit(40)]
proof fn lemma_arguments_bound<V>(
    params: Seq<ParamView>,
    args: Seq<ExprView>,
    k: nat,
    n: nat,
    m: Map<LocalId, ExprView>,
    env: spec_fn(LocalId) -> V,
    this: V,
    node: spec_fn(ExprView, Seq<V>) -> V,
)
    requires
        k <= params.len(),
        k <= args.len(),
        maps_params(params, args, k, n, m),
        args_below(args, n),
        bind_fresh(params, args, k, n).1 <= LocalId::MAX,
    ensures
        ({
            let after = run_lets(mapped_lets(params, args, k, m), env, this, node);
            &&& forall|x: LocalId| x < n ==> #[trigger] after(x) == env(x)
            &&& forall|i: int|
                0 <= i < k && !is_trivial(#[trigger] args[i]) ==> after(
                    argument_id(params, args, i, n),
                ) == value(args[i], env, this, node)
        }),
    decreases k,
{
    if k > 0 {
        let j = (k - 1) as nat;
        let n1 = bind_fresh(params, args, j, n).1;
        lemma_bind_fresh_grows(params, args, j, k, n);
        assert(maps_params(params, args, j, n, m));
        lemma_arguments_bound(params, args, j, n, m, env, this, node);
        let front = mapped_lets(params, args, j, m);
        let before = run_lets(front, env, this, node);
        let all = mapped_lets(params, args, k, m);
        let after = run_lets(all, env, this, node);
        let p = params[j as int];
        assert(m.contains_key(p.id));
        if !is_trivial(args[j as int]) {
            let id = argument_id(params, args, j as int, n);
            assert(m[p.id] == ExprView::LocalGet(id));
            assert(n1 < bind_fresh(params, args, k, n).1);
            assert(id == n1);
            assert(all =~= front.push(argument_let(id, p, args[j as int])));
            assert(all.drop_last() =~= front);
            assert forall|x: LocalId| !#[trigger] free(args[j as int], x) implies before(x)
                == env(x) by {
                if n <= x {
                    assert(free(args[j as int], x));
                }
            }
            law_value_depends_on_what_is_read(args[j as int], before, env, this, node);
            assert forall|i: int|
                0 <= i < k && !is_trivial(#[trigger] args[i]) implies after(
                argument_id(params, args, i, n),
            ) == value(args[i], env, this, node) by {
                if i < j {
                    lemma_bind_fresh_grows(params, args, (i + 1) as nat, j, n);
                    lemma_bind_fresh_grows(params, args, i as nat, (i + 1) as nat, n);
                    assert(bind_fresh(params, args, (i + 1) as nat, n).1 == bind_fresh(
                        params,
                        args,
                        i as nat,
                        n,
                    ).1 + 1);
                    assert(argument_id(params, args, i, n) != id);
                }
            }
            assert forall|x: LocalId| x < n implies #[trigger] after(x) == env(x) by {
                assert(x != id);
                assert(before(x) == env(x));
            }
        } else {
            assert(all == front);
        }
    }
}

/// The ids of constant lets.
proof fn lemma_let_ids(v: Seq<StmtView>)
    requires
        all_const_lets(v),
    ensures
        bound_ids(v).len() == v.len(),
        forall|j: int|
            0 <= j < v.len() ==> (#[trigger] v[j] matches StmtView::Let { id, .. } && id
                == bound_ids(v)[j]),
    decreases v.len(),
{
    if v.len() > 0 {
        let front = v.drop_last();
        assert forall|i: int| 0 <= i < front.len() implies is_const_let(#[trigger] front[i]) by {
            assert(front[i] == v[i]);
        }
        lemma_let_ids(front);
        assert(is_const_let(v[v.len() - 1]));
        assert(bound_by(v.last()).len() == 1);
        assert(bound_ids(v) == bound_ids(front) + bound_by(v.last()));
        assert forall|j: int| 0 <= j < v.len() implies (#[trigger] v[j] matches StmtView::Let {
            id,
            ..
        } && id == bound_ids(v)[j]) by {
            if j < front.len() {
                assert(front[j] == v[j]);
            }
        }
    }
}

/// What a let computes.
pub open spec fn init_of(s: StmtView) -> ExprView {
    match s {
        StmtView::Let { init: Some(e), .. } => e,
        _ => ExprView::Undefined,
    }
}

/// Whether the lets only read variables below `n`, and none reads itself or one that
/// comes later.
pub open spec fn lets_in_order(v: Seq<StmtView>, n: nat) -> bool {
    &&& forall|j: int|
        0 <= j < v.len() ==> reads_only(init_of(#[trigger] v[j])) && names_below(
            init_of(v[j]),
            n,
        )
    &&& forall|j: int, k: int|
        0 <= j <= k < v.len() ==> free(init_of(#[trigger] v[j]), (#[trigger] bound_ids(v)[k]))
}

/// Whether every variable below `n`, but for those that still wait for their let, has
/// inside the value that its replacement has outside.
spec fn in_step<V>(
    ids: Seq<LocalId>,
    j: int,
    n: nat,
    m: Map<LocalId, ExprView>,
    outside: spec_fn(LocalId) -> V,
    inside: spec_fn(LocalId) -> V,
    this: V,
    node: spec_fn(ExprView, Seq<V>) -> V,
) -> bool {
    forall|x: LocalId|
        x < n && !ids.skip(j).contains(x) ==> #[trigger] inside(x) == if m.contains_key(x) {
            value(m[x], outside, this, node)
        } else {
            outside(x)
        }
}

/// Whether the map sends the variables of the lets to the ids from `n1` on, in order,
/// and everything else to expressions over smaller ids.
pub open spec fn maps_lets(ids: Seq<LocalId>, n1: nat, m: Map<LocalId, ExprView>) -> bool {
    &&& forall|j: int|
        0 <= j < ids.len() ==> m.contains_key(#[trigger] ids[j]) && m[ids[j]] == ExprView::LocalGet(
            (n1 + j) as LocalId,
        )
    &&& forall|x: LocalId| #[trigger]
        m.contains_key(x) && !ids.contains(x) ==> reads_only(m[x]) && names_below(m[x], n1)
}

/// The lets of the body, renamed, keep step with the lets of the body.
#[verifier::rlimit(40)]
proof fn lemma_lets_keep_step<V>(
    v: Seq<StmtView>,
    j: nat,
    n: nat,
    n1: nat,
    m: Map<LocalId, ExprView>,
    outside: spec_fn(LocalId) -> V,
    inside: spec_fn(LocalId) -> V,
    this: V,
    node: spec_fn(ExprView, Seq<V>) -> V,
)
    requires
        j <= v.len(),
        n <= n1,
        n1 + v.len() <= LocalId::MAX,
        all_const_lets(v),
        bound_ids(v).no_duplicates(),
        forall|i: int| 0 <= i < v.len() ==> (#[trigger] bound_ids(v)[i]) < n,
        lets_in_order(v, n),
        maps_lets(bound_ids(v), n1, m),
        in_step(bound_ids(v), 0, n, m, outside, inside, this, node),
    ensures
        in_step(
            bound_ids(v),
            j as int,
            n,
            m,
            run_lets(rewrite_stmts(v, Rewrite::Locals(m)).take(j as int), outside, this, node),
            run_lets(v.take(j as int), inside, this, node),
            this,
            node,
        ),
        forall|x: LocalId|
            x < n1 ==> #[trigger] run_lets(
                rewrite_stmts(v, Rewrite::Locals(m)).take(j as int),
                outside,
                this,
                node,
            )(x) == outside(x),
    decreases j,
{
    let r = Rewrite::Locals(m);
    let w = rewrite_stmts(v, r);
    let ids = bound_ids(v);
    lemma_let_ids(v);
    if j == 0 {
        assert(w.take(0) =~= Seq::empty());
        assert(v.take(0) =~= Seq::empty());
    } else {
        let i = j - 1;
        lemma_lets_keep_step(v, i as nat, n, n1, m, outside, inside, this, node);
        let a0 = run_lets(w.take(i), outside, this, node);
        let b0 = run_lets(v.take(i), inside, this, node);
        let a1 = run_lets(w.take(j as int), outside, this, node);
        let b1 = run_lets(v.take(j as int), inside, this, node);
        let id = ids[i];
        let new = (n1 + i) as LocalId;
        let e = init_of(v[i]);
        assert(is_const_let(v[i]));
        assert(w.take(j as int).drop_last() =~= w.take(i));
        assert(v.take(j as int).drop_last() =~= v.take(i));
        assert(w.take(j as int).last() == rewrite_stmt(v[i], r));
        assert(v.take(j as int).last() == v[i]);
        assert(m[id] == ExprView::LocalGet(new));
        assert(remap(id, m) == new);
        assert forall|x: LocalId| !#[trigger] free(e, x) implies b0(x) == if m.contains_key(x) {
            value(m[x], a0, this, node)
        } else {
            a0(x)
        } by {
            assert(x < n) by {
                if n <= x {
                    assert(free(e, x));
                }
            }
            assert(!ids.skip(i).contains(x)) by {
                if ids.skip(i).contains(x) {
                    let q = choose|q: int| 0 <= q < ids.skip(i).len() && ids.skip(i)[q] == x;
                    assert(ids[i + q] == x);
                    assert(free(init_of(v[i]), bound_ids(v)[i + q]));
                }
            }
            assert(b0(x) == b0(x));
        }
        law_substitution_is_by_value(e, m, a0, b0, this, node);
        assert(a1(new) == b1(id));
        assert forall|x: LocalId| x < n && !ids.skip(j as int).contains(x) implies #[trigger] b1(x)
            == if m.contains_key(x) {
            value(m[x], a1, this, node)
        } else {
            a1(x)
        } by {
            if x != id {
                assert(b1(x) == b0(x));
                assert(!ids.skip(i).contains(x)) by {
                    if ids.skip(i).contains(x) {
                        let q = choose|q: int| 0 <= q < ids.skip(i).len() && ids.skip(i)[q] == x;
                        assert(q > 0);
                        assert(ids.skip(j as int)[q - 1] == x);
                    }
                }
                assert(x != new);
                if m.contains_key(x) {
                    if ids.contains(x) {
                        let q = choose|q: int| 0 <= q < ids.len() && ids[q] == x;
                        assert(m[ids[q]] == ExprView::LocalGet((n1 + q) as LocalId));
                        assert(q != i);
                        assert((n1 + q) as LocalId != new);
                    } else {
                        assert(free(m[x], new));
                        assert forall|y: LocalId| !#[trigger] free(m[x], y) implies a0(y)
                            == a1(y) by {
                            assert(y != new);
                        }
                        law_value_depends_on_what_is_read(m[x], a0, a1, this, node);
                    }
                }
            }
        }
    }
}

/// A call of a function that computes constants and then returns an expression: the
/// statements that run first, and the expression behind them, give the value that the
/// body gives where the i-th parameter holds the i-th argument. The caller's own
/// variables stay what they are.
#[verifier::rlimit(40)]
pub proof fn law_inlined_constants_mean_the_call<V>(
    f: FunctionView,
    b: ExprView,
    args: Seq<ExprView>,
    n: nat,
    outside: spec_fn(LocalId) -> V,
    inside: spec_fn(LocalId) -> V,
    this: V,
    node: spec_fn(ExprView, Seq<V>) -> V,
)
    requires
        f.body.len() > 1,
        f.body.last() == StmtView::Return(Some(b)),
        all_const_lets(f.body.drop_last()),
        binds_once(f),
        lets_in_order(f.body.drop_last(), n),
        reads_only(b),
        names_below(b, n),
        args_below(args, n),
        forall|i: int| 0 <= i < f.params.len() ==> (#[trigger] f.params[i]).id < n,
        forall|i: int| 0 <= i < bound_ids(f.body).len() ==> (#[trigger] bound_ids(f.body)[i]) < n,
        call_env(f.params, args, outside, inside, this, node),
        simple_function(f, args, n) matches Some(r) ==> r.next <= LocalId::MAX,
    ensures
        simple_function(f, args, n) matches Some(r) && {
            let after = run_lets(r.setup, outside, this, node);
            &&& value(r.result, after, this, node) == value(
                b,
                run_lets(f.body.drop_last(), inside, this, node),
                this,
                node,
            )
            &&& forall|x: LocalId| x < n ==> #[trigger] after(x) == outside(x)
        },
{
    let k = pairs(f.params, args);
    let v = f.body.drop_last();
    let ids = bound_ids(f.body);
    assert(bound_ids(v) =~= ids) by {
        assert(bound_by(f.body.last()) =~= Seq::empty());
    }
    lemma_let_ids(v);
    lemma_binds_once(f);
    assert(distinct_params(f.params)) by {
        assert forall|i: int, j: int| 0 <= i < j < f.params.len() implies (#[trigger] f.params[i]).id
            != (#[trigger] f.params[j]).id by {
            assert(param_ids(f.params)[i] != param_ids(f.params)[j]);
        }
    }
    let (m0, n1) = bind_fresh(f.params, args, k, n);
    let (m, n2) = call_map(f, args, n);
    lemma_bind_fresh(f.params, args, k, n);
    lemma_trivial_bound(f.params, args, k, n);
    lemma_bind_fresh_grows(f.params, args, 0, k, n);
    assert forall|i: int| 0 <= i < ids.len() implies !m0.contains_key(#[trigger] ids[i]) by {
        if m0.contains_key(ids[i]) {
            let q = choose|q: int| 0 <= q < k && #[trigger] f.params[q].id == ids[i];
            assert(f.params[q].id != ids[i]);
        }
    }
    lemma_rename_fresh(ids, m0, n1);
    assert(n2 == n1 + v.len());
    assert(maps_params(f.params, args, k, n, m)) by {
        assert forall|i: int| 0 <= i < k implies m.contains_key((#[trigger] f.params[i]).id)
            && m[f.params[i].id] == if is_trivial(args[i]) {
            args[i]
        } else {
            ExprView::LocalGet(argument_id(f.params, args, i, n))
        } by {
            assert(m0.contains_key(f.params[i].id));
        }
    }
    let lets = mapped_lets(f.params, args, k, m);
    let w = rewrite_stmts(v, Rewrite::Locals(m));
    let a0 = run_lets(lets, outside, this, node);
    lemma_arguments_bound(f.params, args, k, n, m, outside, this, node);
    lemma_maps(f, args, k, n, m, m0, n1);
    lemma_params_in_step(f.params, args, k, n, m, ids, outside, inside, a0, this, node);
    lemma_lets_keep_step(v, v.len(), n, n1, m, a0, inside, this, node);
    assert(w.take(v.len() as int) =~= w);
    assert(v.take(v.len() as int) =~= v);
    lemma_run_concat(lets, w, outside, this, node);
    let a1 = run_lets(lets + w, outside, this, node);
    let b1 = run_lets(v, inside, this, node);
    assert forall|x: LocalId| !#[trigger] free(b, x) implies b1(x) == if m.contains_key(x) {
        value(m[x], a1, this, node)
    } else {
        a1(x)
    } by {
        assert(x < n) by {
            if n <= x {
                assert(free(b, x));
            }
        }
        assert(ids.skip(v.len() as int) =~= Seq::empty());
        assert(b1(x) == b1(x));
    }
    law_substitution_is_by_value(b, m, a1, b1, this, node);
    assert(last_return(f.body) == Some(b));
    assert forall|x: LocalId| x < n implies #[trigger] a1(x) == outside(x) by {
        assert(a0(x) == outside(x));
    }
}

pub proof fn lemma_maps(
    f: FunctionView,
    args: Seq<ExprView>,
    k: nat,
    n: nat,
    m: Map<LocalId, ExprView>,
    m0: Map<LocalId, ExprView>,
    n1: nat,
)
    requires
        k == pairs(f.params, args),
        (m0, n1) == bind_fresh(f.params, args, k, n),
        m == rename_fresh(bound_ids(f.body), m0, n1).0,
        bound_ids(f.body).no_duplicates(),
        forall|i: int|
            0 <= i < bound_ids(f.body).len() ==> !m0.contains_key(#[trigger] bound_ids(f.body)[i]),
        param_ids(f.params).no_duplicates(),
        distinct_params(f.params),
        args_below(args, n),
        n1 <= LocalId::MAX,
    ensures
        maps_lets(bound_ids(f.body), n1, m),
{
    let ids = bound_ids(f.body);
    lemma_rename_fresh(ids, m0, n1);
    lemma_bind_fresh(f.params, args, k, n);
    lemma_trivial_bound(f.params, args, k, n);
    lemma_bind_fresh_grows(f.params, args, 0, k, n);
    assert forall|j: int| 0 <= j < ids.len() implies m.contains_key(#[trigger] ids[j]) by {
        assert(ids.contains(ids[j]));
    }
    assert forall|x: LocalId| #[trigger] m.contains_key(x) && !ids.contains(x) implies reads_only(
        m[x],
    ) && names_below(m[x], n1) by {
        assert(m0.contains_key(x));
        let i = choose|i: int| 0 <= i < k && #[trigger] f.params[i].id == x;
        if is_trivial(args[i]) {
            assert(m[x] == args[i]);
            assert forall|y: LocalId| n1 <= y implies #[trigger] free(m[x], y) by {
                assert(free(args[i], y));
            }
        } else {
            let fresh = argument_id(f.params, args, i, n);
            assert(m[x] == ExprView::LocalGet(fresh));
            lemma_bind_fresh_grows(f.params, args, (i + 1) as nat, k, n);
            lemma_bind_fresh_grows(f.params, args, i as nat, (i + 1) as nat, n);
            assert(bind_fresh(f.params, args, (i + 1) as nat, n).1 == bind_fresh(
                f.params,
                args,
                i as nat,
                n,
            ).1 + 1);
            assert(fresh < n1);
            assert(children(m[x]) =~= Seq::empty());
            assert(reads_only(m[x]));
            assert forall|y: LocalId| n1 <= y implies #[trigger] free(m[x], y) by {
                lemma_free(m[x], y);
            }
        }
    }
}

proof fn lemma_params_in_step<V>(
    params: Seq<ParamView>,
    args: Seq<ExprView>,
    k: nat,
    n: nat,
    m: Map<LocalId, ExprView>,
    ids: Seq<LocalId>,
    outside: spec_fn(LocalId) -> V,
    inside: spec_fn(LocalId) -> V,
    after: spec_fn(LocalId) -> V,
    this: V,
    node: spec_fn(ExprView, Seq<V>) -> V,
)
    requires
        k == pairs(params, args),
        maps_params(params, args, k, n, m),
        args_below(args, n),
        call_env(params, args, outside, inside, this, node),
        forall|x: LocalId| x < n ==> #[trigger] after(x) == outside(x),
        forall|i: int|
            0 <= i < k && !is_trivial(#[trigger] args[i]) ==> after(
                argument_id(params, args, i, n),
            ) == value(args[i], outside, this, node),
        forall|x: LocalId| #[trigger]
            m.contains_key(x) ==> ids.contains(x) || among_first(params, k, x),
    ensures
        in_step(ids, 0, n, m, after, inside, this, node),
{
    assert(ids.skip(0) =~= ids);
    assert forall|x: LocalId| x < n && !ids.skip(0).contains(x) implies #[trigger] inside(x) == if m
        .contains_key(x) {
        value(m[x], after, this, node)
    } else {
        after(x)
    } by {
        if among_first(params, k, x) {
            let i = choose|i: int| 0 <= i < k && (#[trigger] params[i]).id == x;
            assert(m.contains_key(params[i].id));
            assert(inside(params[i].id) == value(args[i], outside, this, node));
            if is_trivial(args[i]) {
                assert forall|y: LocalId| !#[trigger] free(args[i], y) implies after(y)
                    == outside(y) by {
                    if n <= y {
                        assert(free(args[i], y));
                    }
                }
                law_value_depends_on_what_is_read(args[i], after, outside, this, node);
            }
        } else {
            assert(inside(x) == outside(x));
            assert(after(x) == outside(x));
        }
    }
}

} // verus!

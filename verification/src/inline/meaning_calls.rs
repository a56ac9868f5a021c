//! Inlining keeps the value of expressions: where a call of a candidate means its body,
//! an expression has the same value before and after the calls in it are inlined, once
//! the statements that were put in front of it have run.

use crate::hir::{FuncId, LocalId};
use crate::inline::calls::{inline_children, inline_expr, searched};
use crate::inline::candidate::bound_ids;
use crate::inline::expand::{
    all_const_lets, args_of, bind_args, bind_fresh, call_map, callee_of, last_return,
    lemma_bind_fresh_grows, pairs, simple_call, simple_function, CalleeView, CandidatesView,
};
use crate::inline::fresh::{free, lemma_free, lemma_rewrite_free, parts_free};
use crate::inline::lets::{binds_once, lemma_bind_fresh, lemma_binds_once, lemma_rename_fresh};
use crate::inline::meaning::{
    among_first, call_env, distinct_params, law_arguments_go_by_position,
    law_inlined_return_means_the_call, lemma_husk, lemma_reads_only, lemma_rewritten_reads_only,
    part_values, reads_only, value,
};
use crate::inline::meaning_lets::{
    args_below, init_of, law_inlined_constants_mean_the_call, law_value_depends_on_what_is_read,
    lemma_maps, lemma_run_concat, lets_in_order, names_below, run_lets,
};
use crate::inline::scan::param_ids;
use crate::model::{ExprView, FunctionView, ParamView, StmtView};
use crate::rebuild::{lemma_children_of_rebuilt, with_children};
use crate::rewrite::{rewrite_expr, Rewrite};
use crate::walk::{children, lemma_children_smaller};
use vstd::prelude::*;

verus! {

/// Whether a call of the function can stand as an expression.
pub open spec fn is_simple(f: FunctionView) -> bool {
    last_return(f.body) is Some && (f.body.len() == 1 || all_const_lets(f.body.drop_last()))
}

/// Whether the function, if a call of it can stand as an expression, binds its variables
/// once and before it reads them, only reads variables, and has all its ids below `n`.
pub open spec fn plain_function(f: FunctionView, n: nat) -> bool {
    is_simple(f) ==> {
        &&& binds_once(f)
        &&& lets_in_order(f.body.drop_last(), n)
        &&& reads_only(last_return(f.body)->0)
        &&& names_below(last_return(f.body)->0, n)
        &&& forall|i: int| 0 <= i < f.params.len() ==> (#[trigger] f.params[i]).id < n
        &&& forall|i: int| 0 <= i < bound_ids(f.body).len() ==> (#[trigger] bound_ids(f.body)[i]) < n
    }
}

/// Whether all candidates are such functions.
pub open spec fn plain_candidates(c: CandidatesView, n: nat) -> bool {
    &&& c.methods.len() == 0
    &&& forall|id: FuncId| #[trigger] c.funcs.contains_key(id) ==> plain_function(c.funcs[id], n)
}

/// Whether the expression calls the function with the arguments.
pub open spec fn calls_function(e: ExprView, id: FuncId, args: Seq<ExprView>) -> bool {
    e matches ExprView::Call { callee, args: v, .. } && *callee == ExprView::FuncRef(id) && v
        == args
}

/// Whether a call of a candidate has the value that its body has where the i-th parameter
/// holds the i-th argument.
pub open spec fn calls_mean_bodies<V>(
    c: CandidatesView,
    this: V,
    node: spec_fn(ExprView, Seq<V>) -> V,
) -> bool {
    forall|
        e: ExprView,
        id: FuncId,
        args: Seq<ExprView>,
        outside: spec_fn(LocalId) -> V,
        inside: spec_fn(LocalId) -> V,
    |
        #![trigger calls_function(e, id, args), call_env(c.funcs[id].params, args, outside, inside, this, node)]
        c.funcs.contains_key(id) && is_simple(c.funcs[id]) && calls_function(e, id, args)
            && call_env(c.funcs[id].params, args, outside, inside, this, node) ==> value(
            e,
            outside,
            this,
            node,
        ) == value(
            last_return(c.funcs[id].body)->0,
            run_lets(c.funcs[id].body.drop_last(), inside, this, node),
            this,
            node,
        )
}

/// The environment of a call.
pub open spec fn inside_of<V>(
    params: Seq<ParamView>,
    args: Seq<ExprView>,
    outside: spec_fn(LocalId) -> V,
    this: V,
    node: spec_fn(ExprView, Seq<V>) -> V,
) -> spec_fn(LocalId) -> V {
    |x: LocalId|
        if among_first(params, pairs(params, args), x) {
            value(
                args[choose|i: int|
                    0 <= i < pairs(params, args) && (#[trigger] params[i]).id == x],
                outside,
                this,
                node,
            )
        } else {
            outside(x)
        }
}

proof fn lemma_inside<V>(
    params: Seq<ParamView>,
    args: Seq<ExprView>,
    outside: spec_fn(LocalId) -> V,
    this: V,
    node: spec_fn(ExprView, Seq<V>) -> V,
)
    requires
        distinct_params(params),
    ensures
        call_env(params, args, outside, inside_of(params, args, outside, this, node), this, node),
{
    let k = pairs(params, args);
    let inside = inside_of(params, args, outside, this, node);
    assert forall|i: int| 0 <= i < k implies inside((#[trigger] params[i]).id) == value(
        args[i],
        outside,
        this,
        node,
    ) by {
        let x = params[i].id;
        assert(among_first(params, k, x));
        let j = choose|j: int| 0 <= j < k && (#[trigger] params[j]).id == x;
        if i < j {
            assert(params[i].id != params[j].id);
        }
        if j < i {
            assert(params[j].id != params[i].id);
        }
    }
}

/// Whether an expression stands for another behind the statements: it only reads
/// variables below the next free id, the statements leave older variables alone, and it
/// has, once they have run, the value of the other.
pub open spec fn stands_for<V>(
    hoisted: Seq<StmtView>,
    out: ExprView,
    next: nat,
    e: ExprView,
    n: nat,
    env: spec_fn(LocalId) -> V,
    this: V,
    node: spec_fn(ExprView, Seq<V>) -> V,
) -> bool {
    &&& n <= next
    &&& reads_only(out)
    &&& names_below(out, next)
    &&& forall|x: LocalId| x < n ==> #[trigger] run_lets(hoisted, env, this, node)(x) == env(x)
    &&& value(out, run_lets(hoisted, env, this, node), this, node) == value(e, env, this, node)
}

proof fn lemma_result_below(
    b: ExprView,
    m: Map<LocalId, ExprView>,
    n: nat,
    next: nat,
)
    requires
        reads_only(b),
        names_below(b, n),
        n <= next,
        forall|x: LocalId| #[trigger]
            m.contains_key(x) ==> reads_only(m[x]) && names_below(m[x], next),
    ensures
        reads_only(rewrite_expr(b, Rewrite::Locals(m))),
        names_below(rewrite_expr(b, Rewrite::Locals(m)), next),
{
    lemma_rewritten_reads_only(b, m);
    assert forall|y: LocalId| next <= y implies #[trigger] free(
        rewrite_expr(b, Rewrite::Locals(m)),
        y,
    ) by {
        assert(free(b, y));
        assert forall|k: LocalId| m.contains_key(k) implies free(#[trigger] m[k], y) by {
            assert(names_below(m[k], next));
        }
        lemma_rewrite_free(b, Rewrite::Locals(m), y);
    }
}

/// What a single call turns into stands for the call.
#[verifier::rlimit(40)]
proof fn lemma_simple_stands<V>(
    f: FunctionView,
    args: Seq<ExprView>,
    n: nat,
    e: ExprView,
    inside: spec_fn(LocalId) -> V,
    env: spec_fn(LocalId) -> V,
    this: V,
    node: spec_fn(ExprView, Seq<V>) -> V,
)
    requires
        plain_function(f, n),
        args_below(args, n),
        call_env(f.params, args, env, inside, this, node),
        simple_function(f, args, n) matches Some(r) && r.next <= LocalId::MAX,
        is_simple(f) ==> value(e, env, this, node) == value(
            last_return(f.body)->0,
            run_lets(f.body.drop_last(), inside, this, node),
            this,
            node,
        ),
    ensures
        simple_function(f, args, n) matches Some(r) && stands_for(
            r.setup,
            r.result,
            r.next,
            e,
            n,
            env,
            this,
            node,
        ),
{
    let r = simple_function(f, args, n)->0;
    let b = last_return(f.body)->0;
    let k = pairs(f.params, args);
    assert(is_simple(f));
    lemma_binds_once(f);
    assert(distinct_params(f.params)) by {
        assert forall|i: int, j: int| 0 <= i < j < f.params.len() implies (#[trigger] f.params[i]).id
            != (#[trigger] f.params[j]).id by {
            assert(param_ids(f.params)[i] != param_ids(f.params)[j]);
        }
    }
    if f.body.len() == 1 {
        let m = bind_args(f.params, args, k);
        assert(f.body =~= seq![StmtView::Return(Some(b))]);
        assert(f.body.drop_last() =~= Seq::empty());
        law_inlined_return_means_the_call(f, b, args, n, env, inside, this, node);
        law_arguments_go_by_position(f.params, args, k);
        assert forall|x: LocalId| #[trigger] m.contains_key(x) implies reads_only(m[x])
            && names_below(m[x], n) by {
            assert(among_first(f.params, k, x));
            let i = choose|i: int| 0 <= i < k && (#[trigger] f.params[i]).id == x;
            assert(m[f.params[i].id] == args[i]);
        }
        lemma_result_below(b, m, n, n);
        assert(r.setup =~= Seq::empty());
    } else {
        law_inlined_constants_mean_the_call(f, b, args, n, env, inside, this, node);
        let (m0, n1) = bind_fresh(f.params, args, k, n);
        let (m, n2) = call_map(f, args, n);
        let ids = bound_ids(f.body);
        lemma_bind_fresh(f.params, args, k, n);
        lemma_bind_fresh_grows(f.params, args, 0, k, n);
        assert forall|i: int| 0 <= i < ids.len() implies !m0.contains_key(#[trigger] ids[i]) by {
            if m0.contains_key(ids[i]) {
                let q = choose|q: int| 0 <= q < k && #[trigger] f.params[q].id == ids[i];
                assert(f.params[q].id != ids[i]);
            }
        }
        lemma_rename_fresh(ids, m0, n1);
        lemma_maps(f, args, k, n, m, m0, n1);
        assert(r.next == n2 && n2 == n1 + ids.len());
        assert forall|x: LocalId| #[trigger] m.contains_key(x) implies reads_only(m[x])
            && names_below(m[x], n2) by {
            if ids.contains(x) {
                let j = choose|j: int| 0 <= j < ids.len() && ids[j] == x;
                assert(m[ids[j]] == ExprView::LocalGet((n1 + j) as LocalId));
                assert(children(m[x]) =~= Seq::empty());
                assert(reads_only(m[x]));
                assert forall|y: LocalId| n2 <= y implies #[trigger] free(m[x], y) by {
                    lemma_free(m[x], y);
                }
            } else {
                assert(names_below(m[x], n1));
            }
        }
        lemma_result_below(b, m, n, n2);
    }
}

proof fn lemma_part_below(e: ExprView, n: nat, i: int)
    requires
        names_below(e, n),
        0 <= i < children(e).len(),
    ensures
        names_below(children(e)[i], n),
{
    assert forall|x: LocalId| n <= x implies #[trigger] free(children(e)[i], x) by {
        assert(free(e, x));
        lemma_free(e, x);
        assert(parts_free(e, x));
    }
}

/// Inlining keeps the value: an expression with its calls inlined has, once the
/// statements in front of it have run, the value that it had before. The statements
/// leave the variables alone that were there before.
#[verifier::rlimit(40)]
pub proof fn law_inlining_keeps_the_value<V>(
    e: ExprView,
    c: CandidatesView,
    types: Map<LocalId, Seq<char>>,
    n: nat,
    depth: nat,
    env: spec_fn(LocalId) -> V,
    this: V,
    node: spec_fn(ExprView, Seq<V>) -> V,
)
    requires
        plain_candidates(c, n),
        calls_mean_bodies(c, this, node),
        reads_only(e),
        names_below(e, n),
    ensures
        inline_expr(e, c, types, n, depth) matches Some(run) ==> stands_for(
            run.hoisted,
            run.expr,
            run.next,
            e,
            n,
            env,
            this,
            node,
        ),
    decreases depth, e, 1nat, 0nat,
{
    if inline_expr(e, c, types, n, depth) is Some {
        let run = inline_expr(e, c, types, n, depth)->0;
        match simple_call(e, c, types, n) {
            Some(simple) => {
                let f = callee_of(e, c, types)->0->Function_0;
                let args = args_of(e);
                assert(callee_of(e, c, types) is Some);
                let id = lemma_callee_is_function(e, c, types);
                assert(f == c.funcs[id]);
                assert(c.funcs.contains_key(id));
                assert forall|i: int| 0 <= i < args.len() implies reads_only(#[trigger] args[i])
                    && names_below(args[i], n) by {
                    assert(children(e)[i + 1] == args[i]);
                    lemma_reads_only(e, i + 1);
                    lemma_part_below(e, n, i + 1);
                }
                assert(distinct_params(f.params)) by {
                    assert(is_simple(f));
                    lemma_binds_once(f);
                    assert forall|i: int, j: int|
                        0 <= i < j < f.params.len() implies (#[trigger] f.params[i]).id != (
                    #[trigger] f.params[j]).id by {
                        assert(param_ids(f.params)[i] != param_ids(f.params)[j]);
                    }
                }
                let inside = inside_of(f.params, args, env, this, node);
                lemma_inside(f.params, args, env, this, node);
                assert(calls_function(e, id, args));
                lemma_simple_stands(f, args, n, e, inside, env, this, node);
                let env2 = run_lets(simple.setup, env, this, node);
                assert(plain_candidates(c, simple.next)) by {
                    lemma_plain_grows(c, n, simple.next);
                }
                law_inlining_keeps_the_value(
                    simple.result,
                    c,
                    types,
                    simple.next,
                    (depth - 1) as nat,
                    env2,
                    this,
                    node,
                );
                let rest = inline_expr(
                    simple.result,
                    c,
                    types,
                    simple.next,
                    (depth - 1) as nat,
                )->0;
                lemma_run_concat(simple.setup, rest.hoisted, env, this, node);
                assert forall|x: LocalId| x < n implies #[trigger] run_lets(
                    run.hoisted,
                    env,
                    this,
                    node,
                )(x) == env(x) by {
                    assert(env2(x) == env(x));
                }
            },
            None => {
                if searched(e) {
                    let k = children(e).len();
                    lemma_children_stand(e, k, c, types, n, depth, env, this, node);
                    let kids = inline_children(e, k, c, types, n, depth)->0;
                    let w = with_children(e, kids.kids);
                    let after = run_lets(kids.hoisted, env, this, node);
                    lemma_children_of_rebuilt(e, kids.kids);
                    lemma_husk(e, kids.kids);
                    assert(part_values(w, after, this, node) =~= part_values(e, env, this, node));
                    assert forall|i: int| 0 <= i < children(w).len() implies reads_only(
                        #[trigger] children(w)[i],
                    ) by {
                        assert(reads_only(kids.kids[i]));
                    }
                    assert(reads_only(w));
                    assert forall|x: LocalId| kids.next <= x implies #[trigger] free(w, x) by {
                        lemma_free(w, x);
                        lemma_free(e, x);
                        assert(free(e, x));
                        assert forall|i: int| 0 <= i < children(w).len() implies free(
                            #[trigger] children(w)[i],
                            x,
                        ) by {
                            assert(names_below(kids.kids[i], kids.next));
                        }
                    }
                } else {
                    assert(run_lets(Seq::<StmtView>::empty(), env, this, node) == env);
                }
            },
        }
    }
}

pub proof fn lemma_plain_grows(c: CandidatesView, n: nat, next: nat)
    requires
        plain_candidates(c, n),
        n <= next,
    ensures
        plain_candidates(c, next),
{
    assert forall|id: FuncId| #[trigger] c.funcs.contains_key(id) implies plain_function(
        c.funcs[id],
        next,
    ) by {
        let f = c.funcs[id];
        assert(plain_function(f, n));
        if is_simple(f) {
            let v = f.body.drop_last();
            assert forall|j: int| 0 <= j < v.len() implies reads_only(
                init_of(#[trigger] v[j]),
            ) && names_below(init_of(v[j]), next) by {
                assert(names_below(init_of(v[j]), n));
            }
            assert(lets_in_order(v, next));
            assert(names_below(last_return(f.body)->0, next));
        }
    }
}

proof fn lemma_callee_is_function(
    e: ExprView,
    c: CandidatesView,
    types: Map<LocalId, Seq<char>>,
) -> (id: FuncId)
    requires
        c.methods.len() == 0,
        callee_of(e, c, types) is Some,
    ensures
        c.funcs.contains_key(id),
        callee_of(e, c, types) == Some(CalleeView::Function(c.funcs[id])),
        calls_function(e, id, args_of(e)),
{
    match e {
        ExprView::Call { callee, .. } => match *callee {
            ExprView::FuncRef(id) => id,
            _ => arbitrary(),
        },
        _ => arbitrary(),
    }
}

#[verifier::rlimit(40)]
proof fn lemma_children_stand<V>(
    e: ExprView,
    k: nat,
    c: CandidatesView,
    types: Map<LocalId, Seq<char>>,
    n: nat,
    depth: nat,
    env: spec_fn(LocalId) -> V,
    this: V,
    node: spec_fn(ExprView, Seq<V>) -> V,
)
    requires
        plain_candidates(c, n),
        calls_mean_bodies(c, this, node),
        reads_only(e),
        names_below(e, n),
        k <= children(e).len(),
    ensures
        inline_children(e, k, c, types, n, depth) matches Some(run) ==> {
            &&& n <= run.next
            &&& run.kids.len() == k
            &&& forall|i: int|
                0 <= i < k ==> stands_for(
                    run.hoisted,
                    #[trigger] run.kids[i],
                    run.next,
                    children(e)[i],
                    n,
                    env,
                    this,
                    node,
                )
            &&& forall|x: LocalId|
                x < n ==> #[trigger] run_lets(run.hoisted, env, this, node)(x) == env(x)
        },
    decreases depth, e, 0nat, k,
{
    if inline_children(e, k, c, types, n, depth) is Some && k > 0 {
        let j = (k - 1) as nat;
        let run = inline_children(e, k, c, types, n, depth)->0;
        lemma_children_stand(e, j, c, types, n, depth, env, this, node);
        let front = inline_children(e, j, c, types, n, depth)->0;
        let env1 = run_lets(front.hoisted, env, this, node);
        let child = children(e)[j as int];
        lemma_children_smaller(e, j as int);
        lemma_reads_only(e, j as int);
        lemma_part_below(e, n, j as int);
        lemma_plain_grows(c, n, front.next);
        assert(names_below(child, front.next)) by {
            assert forall|x: LocalId| front.next <= x implies #[trigger] free(child, x) by {}
        }
        law_inlining_keeps_the_value(child, c, types, front.next, depth, env1, this, node);
        let one = inline_expr(child, c, types, front.next, depth)->0;
        lemma_run_concat(front.hoisted, one.hoisted, env, this, node);
        let env2 = run_lets(run.hoisted, env, this, node);
        assert(env2 == run_lets(one.hoisted, env1, this, node));
        assert forall|x: LocalId| x < n implies #[trigger] env2(x) == env(x) by {
            assert(env1(x) == env(x));
            assert(run_lets(one.hoisted, env1, this, node)(x) == env1(x));
        }
        assert(value(child, env1, this, node) == value(child, env, this, node)) by {
            assert forall|x: LocalId| !#[trigger] free(child, x) implies env1(x) == env(x) by {
                if n <= x {
                    assert(free(child, x));
                }
            }
            law_value_depends_on_what_is_read(child, env1, env, this, node);
        }
        assert forall|i: int| 0 <= i < k implies stands_for(
            run.hoisted,
            #[trigger] run.kids[i],
            run.next,
            children(e)[i],
            n,
            env,
            this,
            node,
        ) by {
            if i < j {
                let kid = front.kids[i];
                assert(run.kids[i] == kid);
                assert(stands_for(
                    front.hoisted,
                    front.kids[i],
                    front.next,
                    children(e)[i],
                    n,
                    env,
                    this,
                    node,
                ));
                assert forall|x: LocalId| !#[trigger] free(kid, x) implies env2(x) == env1(x) by {
                    if front.next <= x {
                        assert(free(kid, x));
                    }
                    assert(run_lets(one.hoisted, env1, this, node)(x) == env1(x));
                }
                law_value_depends_on_what_is_read(kid, env2, env1, this, node);
                assert forall|x: LocalId| run.next <= x implies #[trigger] free(kid, x) by {}
            }
        }
    }
}

} // verus!
